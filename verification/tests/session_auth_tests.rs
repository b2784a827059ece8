use backend::auth::{
    accept_external_login, next_register_step, register_failure, require_client_key, RegisterStep,
};
use backend::external::{external_job_id, job_result_reply, JobResultReply};
use backend::jobs::to_response;
use backend::error::AppError;
use backend::hash_words::hash_words;
use backend::session::{session_id_from_header, session_or_unauthorized, Session};

#[test]
fn session_header_parsing() {
    assert!(matches!(session_id_from_header(None), Err(AppError::Unauthorized)));
    assert!(matches!(session_id_from_header(Some("not-a-uuid")), Err(AppError::Unauthorized)));
    let id = session_id_from_header(Some("a1a2a3a4-b1b2-c1c2-d1d2-d3d4d5d6d7d8")).unwrap();
    assert_eq!(id, 0xa1a2a3a4b1b2c1c2d1d2d3d4d5d6d7d8);
    let simple = session_id_from_header(Some("a1a2a3a4b1b2c1c2d1d2d3d4d5d6d7d8")).unwrap();
    assert_eq!(simple, id);
}

#[test]
fn unknown_sessions_are_refused() {
    assert!(matches!(session_or_unauthorized(None), Err(AppError::Unauthorized)));
    let s = Session { username: "alice".into(), jwt: "t".into() };
    assert_eq!(session_or_unauthorized(Some(s)).unwrap().username, "alice");
}

#[test]
fn register_steps_and_errors() {
    let mut step = Some(RegisterStep::ExternalRegister);
    let mut order = vec![];
    while let Some(s) = step {
        order.push(s);
        step = next_register_step(s);
    }
    assert_eq!(
        order,
        vec![
            RegisterStep::ExternalRegister,
            RegisterStep::ExternalLogin,
            RegisterStep::GenerateKeys,
            RegisterStep::StoreKeys,
            RegisterStep::UploadServerKey
        ]
    );
    assert!(matches!(register_failure(RegisterStep::ExternalLogin, "no".into()), AppError::BadRequest(m) if m == "no"));
    assert!(matches!(register_failure(RegisterStep::StoreKeys, "disk".into()), AppError::Internal(m) if m == "disk"));
}

#[test]
fn login_decisions() {
    assert!(matches!(accept_external_login(None), Err(AppError::Unauthorized)));
    assert_eq!(accept_external_login(Some("jwt".into())).unwrap(), "jwt");
    match require_client_key(false) {
        Err(AppError::BadRequest(m)) => assert_eq!(m, "No local FHE key found. Register via this backend first."),
        other => panic!("unexpected {:?}", other),
    }
    assert!(require_client_key(true).is_ok());
}

#[test]
fn hash_words_are_big_endian_halves() {
    let mut h = [0u8; 32];
    for (i, b) in h.iter_mut().enumerate() {
        *b = i as u8;
    }
    let (high, low) = hash_words(&h);
    let mut first = [0u8; 16];
    first.copy_from_slice(&h[..16]);
    let mut second = [0u8; 16];
    second.copy_from_slice(&h[16..]);
    assert_eq!(high, u128::from_be_bytes(first));
    assert_eq!(low, u128::from_be_bytes(second));
    assert_eq!(hash_words(&[0xff; 32]), (u128::MAX, u128::MAX));
}

#[test]
fn session_id_text_reads_back() {
    let id: u128 = 0x0123456789abcdef0011223344556677;
    let text = to_response(id, "x", None, None).job_id;
    assert_eq!(session_id_from_header(Some(&text)).unwrap(), id);
}

#[test]
fn external_replies() {
    assert_eq!(job_result_reply(200), JobResultReply::Ready);
    assert_eq!(job_result_reply(500), JobResultReply::NotFinished);
    assert_eq!(job_result_reply(404), JobResultReply::Unexpected { status: 404 });
    assert_eq!(
        external_job_id("a1a2a3a4-b1b2-c1c2-d1d2-d3d4d5d6d7d8").unwrap(),
        0xa1a2a3a4b1b2c1c2d1d2d3d4d5d6d7d8
    );
    match external_job_id("42") {
        Err(AppError::Internal(m)) => assert_eq!(m, "invalid job_id from external service"),
        other => panic!("unexpected {:?}", other),
    }
}
