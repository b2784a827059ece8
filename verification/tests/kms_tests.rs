use backend::kms::{
    core_url, decryption_quorum, merge_cores, CollectAction, CoreConf, FetchAction, FetchPlan,
    PollResult, ResponseCollector, MAX_POLL_RETRIES,
};

fn conf(id: usize, addr: &str) -> CoreConf {
    CoreConf {
        party_id: id,
        address: addr.to_string(),
        s3_endpoint: format!("http://s3/{}", id),
        object_folder: format!("party{}", id),
    }
}

#[test]
fn merge_cores_drops_known_addresses() {
    let a = vec![conf(1, "a:1"), conf(2, "b:1")];
    let b = vec![conf(9, "b:1"), conf(3, "c:1"), conf(4, "a:1"), conf(5, "d:1")];
    let m = merge_cores(a.clone(), &b);
    let addrs: Vec<&str> = m.iter().map(|c| c.address.as_str()).collect();
    assert_eq!(addrs, vec!["a:1", "b:1", "c:1", "d:1"]);
    assert_eq!(m[2], conf(3, "c:1"));
    // the same configuration read twice adds nothing
    assert_eq!(merge_cores(a.clone(), &a), a);
}

#[test]
fn core_url_adds_scheme() {
    assert_eq!(core_url(&"localhost:50100".to_string()), "http://localhost:50100");
    assert_eq!(core_url(&"http://10.0.0.1:50100".to_string()), "http://10.0.0.1:50100");
    assert_eq!(core_url(&"https://x".to_string()), "http://https://x");
    assert_eq!(core_url(&"".to_string()), "http://");
}

#[test]
fn quorum_values() {
    assert_eq!(decryption_quorum(1), (0, 1));
    assert_eq!(decryption_quorum(4), (1, 3));
    assert_eq!(decryption_quorum(7), (2, 5));
    assert_eq!(decryption_quorum(13), (4, 9));
}

#[test]
fn collector_stops_at_quorum() {
    let (mut c, a) = ResponseCollector::start(4, 3);
    assert_eq!(a, CollectAction::Poll { core: 0 });
    assert_eq!(c.on_poll(PollResult::Unavailable), CollectAction::PauseAndPoll { core: 0 });
    assert_eq!(c.on_poll(PollResult::Answered), CollectAction::Poll { core: 1 });
    assert_eq!(c.retries, 0);
    assert_eq!(c.on_poll(PollResult::Answered), CollectAction::Poll { core: 2 });
    assert_eq!(c.on_poll(PollResult::Answered), CollectAction::Finished);
    assert_eq!(c.received, 3);
}

#[test]
fn collector_times_out_after_max_retries() {
    let (mut c, _) = ResponseCollector::start(2, 2);
    for _ in 0..MAX_POLL_RETRIES {
        assert_eq!(c.on_poll(PollResult::Unavailable), CollectAction::PauseAndPoll { core: 0 });
    }
    assert_eq!(c.on_poll(PollResult::Unavailable), CollectAction::TimedOut);
    let (_, none) = ResponseCollector::start(0, 1);
    assert_eq!(none, CollectAction::Finished);
    let (mut short, _) = ResponseCollector::start(1, 5);
    assert_eq!(short.on_poll(PollResult::Answered), CollectAction::Finished);
}

#[test]
fn fetch_plan_download_all() {
    let (mut p, a) = FetchPlan::start(3, 2, true);
    assert_eq!(a, FetchAction::Fetch { core: 0, element: 0 });
    assert_eq!(p.on_fetched(true), FetchAction::Fetch { core: 0, element: 1 });
    assert_eq!(p.on_fetched(true), FetchAction::Fetch { core: 1, element: 0 });
    assert_eq!(p.on_fetched(false), FetchAction::Fetch { core: 2, element: 0 });
    assert_eq!(p.on_fetched(true), FetchAction::Fetch { core: 2, element: 1 });
    assert_eq!(p.on_fetched(true), FetchAction::Succeeded);
    assert_eq!(p.succeeded, vec![0, 2]);
}

#[test]
fn fetch_plan_first_core_is_enough() {
    let (mut p, _) = FetchPlan::start(3, 2, false);
    assert_eq!(p.on_fetched(true), FetchAction::Fetch { core: 0, element: 1 });
    assert_eq!(p.on_fetched(false), FetchAction::Fetch { core: 1, element: 0 });
    assert_eq!(p.on_fetched(true), FetchAction::Fetch { core: 1, element: 1 });
    assert_eq!(p.on_fetched(true), FetchAction::Succeeded);
    assert_eq!(p.succeeded, vec![1]);
}

#[test]
fn fetch_plan_failures_and_empty_lists() {
    let (mut p, _) = FetchPlan::start(2, 1, true);
    assert_eq!(p.on_fetched(false), FetchAction::Fetch { core: 1, element: 0 });
    assert_eq!(p.on_fetched(false), FetchAction::Failed);
    let (q, a) = FetchPlan::start(0, 2, true);
    assert_eq!(a, FetchAction::Failed);
    assert!(q.succeeded.is_empty());
    let (r, b) = FetchPlan::start(3, 0, true);
    assert_eq!(b, FetchAction::Succeeded);
    assert_eq!(r.succeeded, vec![0, 1, 2]);
    let (s, c) = FetchPlan::start(3, 0, false);
    assert_eq!(c, FetchAction::Succeeded);
    assert_eq!(s.succeeded, vec![0]);
}
