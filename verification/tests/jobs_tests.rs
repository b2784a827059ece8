use backend::error::AppError;
use backend::jobs::{
    answer_after_poll, job_ips_file_name, lookup_job, match_ips, new_pending_job, record_outcome,
    claim_for_processing, to_response, validate_usecase1, IpResult, JobKind, JobLookup, JobResult,
    JobStatus, job_ips_file_contents, job_ips_from_file,
};

const ID: u128 = 0xa1a2a3a4b1b2c1c2d1d2d3d4d5d6d7d8;

#[test]
fn to_response_writes_the_uuid() {
    let r = to_response(ID, "pending", None, None);
    assert_eq!(r.job_id, "a1a2a3a4-b1b2-c1c2-d1d2-d3d4d5d6d7d8");
    assert_eq!(r.status, "pending");
    assert!(r.result.is_none() && r.error.is_none());
    let z = to_response(0, "done", Some(JobResult::Usecase2(true)), None);
    assert_eq!(z.job_id, "00000000-0000-0000-0000-000000000000");
    assert!(matches!(z.result, Some(JobResult::Usecase2(true))));
}

#[test]
fn ips_file_name() {
    assert_eq!(job_ips_file_name(ID), "job_a1a2a3a4-b1b2-c1c2-d1d2-d3d4d5d6d7d8.ips.json");
}

#[test]
fn match_ips_reads_bits_lsb_first() {
    let ips: Vec<String> = (0..10).map(|i| format!("10.0.0.{}", i)).collect();
    let r = match_ips(&[0b0000_0101], &ips);
    let flags: Vec<bool> = r.iter().map(|x| x.matched).collect();
    assert_eq!(flags, vec![true, false, true, false, false, false, false, false, false, false]);
    assert_eq!(r[3].ip, "10.0.0.3");
    let r2 = match_ips(&[0x00, 0x80, 0x01], &ips.iter().cycle().take(17).cloned().collect::<Vec<_>>());
    assert!(r2[15].matched);
    assert!(r2[16].matched);
    assert!(!r2[14].matched);
}

#[test]
fn validate_usecase1_counts_and_parses() {
    match validate_usecase1(&vec![], &vec![]) {
        Err(AppError::BadRequest(m)) => assert_eq!(m, "ips must contain 1..=256 entries"),
        other => panic!("unexpected {:?}", other),
    }
    let many: Vec<String> = (0..257).map(|_| "1.1.1.1".to_string()).collect();
    let parsed: Vec<Option<u32>> = many.iter().map(|_| Some(0x01010101)).collect();
    assert!(matches!(validate_usecase1(&many, &parsed), Err(AppError::BadRequest(_))));
    let ips = vec!["1.2.3.4".to_string(), " bad ".to_string(), "nope".to_string()];
    match validate_usecase1(&ips, &vec![Some(0x01020304), None, None]) {
        Err(AppError::BadRequest(m)) => assert_eq!(m, "invalid IP:  bad "),
        other => panic!("unexpected {:?}", other),
    }
    let ok = validate_usecase1(&ips[..1].to_vec(), &vec![Some(0x01020304)]).unwrap();
    assert_eq!(ok, vec![0x01020304]);
}

fn entry(status: JobStatus) -> backend::jobs::JobEntry {
    let mut e = new_pending_job("alice".to_string(), 7, JobKind::Usecase1 { ip_count: 2 });
    e.status = status;
    e
}

#[test]
fn lookup_unknown_and_foreign_jobs() {
    assert!(matches!(lookup_job(None, &"alice".to_string(), ID), Err(AppError::NotFound)));
    let e = entry(JobStatus::Done(JobResult::Usecase2(false)));
    assert!(matches!(lookup_job(Some(e), &"bob".to_string(), ID), Err(AppError::Unauthorized)));
}

#[test]
fn job_lifecycle_scenario() {
    let mut e = new_pending_job("alice".to_string(), 7, JobKind::Usecase2);
    assert!(matches!(e.status, JobStatus::Pending));
    match lookup_job(Some(e.clone()), &"alice".to_string(), ID).unwrap() {
        JobLookup::Poll { external_job_id, kind } => {
            assert_eq!(external_job_id, 7);
            assert_eq!(kind, JobKind::Usecase2);
        }
        JobLookup::Answer(_) => panic!("a pending job is polled"),
    }
    assert_eq!(answer_after_poll(ID, false).status, "pending");
    assert_eq!(answer_after_poll(ID, true).status, "processing");
    assert!(claim_for_processing(&mut e));
    assert!(matches!(e.status, JobStatus::Processing));
    // a second claim fails: only one decryption starts
    assert!(!claim_for_processing(&mut e));
    match lookup_job(Some(e.clone()), &"alice".to_string(), ID).unwrap() {
        JobLookup::Answer(r) => assert_eq!(r.status, "processing"),
        JobLookup::Poll { .. } => panic!("a processing job is not polled again"),
    }
    assert!(record_outcome(&mut e, Ok(JobResult::Usecase1(vec![IpResult { ip: "1.1.1.1".into(), matched: true }]))));
    match lookup_job(Some(e.clone()), &"alice".to_string(), ID).unwrap() {
        JobLookup::Answer(r) => {
            assert_eq!(r.status, "done");
            match r.result {
                Some(JobResult::Usecase1(v)) => assert!(v[0].matched && v[0].ip == "1.1.1.1"),
                other => panic!("unexpected {:?}", other),
            }
        }
        JobLookup::Poll { .. } => panic!("a done job is not polled again"),
    }
    // a done job is never changed again
    assert!(!record_outcome(&mut e, Err("late".to_string())));
    assert!(!claim_for_processing(&mut e));
    assert!(matches!(e.status, JobStatus::Done(_)));
}

#[test]
fn failed_decryption_is_answered_with_its_error() {
    let mut e = new_pending_job("alice".to_string(), 7, JobKind::Usecase1 { ip_count: 1 });
    assert!(claim_for_processing(&mut e));
    assert!(record_outcome(&mut e, Err("decrypt failed".to_string())));
    match lookup_job(Some(e), &"alice".to_string(), ID).unwrap() {
        JobLookup::Answer(r) => {
            assert_eq!(r.status, "error");
            assert_eq!(r.error.as_deref(), Some("decrypt failed"));
        }
        JobLookup::Poll { .. } => panic!("a failed job is not polled again"),
    }
}

#[test]
fn outcomes_only_land_on_jobs_being_decrypted() {
    let mut e = new_pending_job("alice".to_string(), 7, JobKind::Usecase2);
    assert!(!record_outcome(&mut e, Ok(JobResult::Usecase2(true))));
    assert!(matches!(e.status, JobStatus::Pending));
}

#[test]
fn job_ips_file_round_trip() {
    let ips = vec!["1.2.3.4".to_string(), " 10.0.0.1\"q\" ".to_string()];
    let bytes = job_ips_file_contents(&ips).unwrap();
    assert_eq!(String::from_utf8(bytes.clone()).unwrap(), r#"["1.2.3.4"," 10.0.0.1\"q\" "]"#);
    assert_eq!(job_ips_from_file(Some(bytes)), ips);
    assert!(job_ips_from_file(None).is_empty());
    assert!(job_ips_from_file(Some(b"not json".to_vec())).is_empty());
    assert!(job_ips_from_file(Some(b"[1, 2]".to_vec())).is_empty());
}
