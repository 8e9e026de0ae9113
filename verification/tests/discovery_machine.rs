use cnpj_sqlite::discovery::{Discovery, DiscoveryAction, DiscoveryEvent, DiscoveryPhase};
use cnpj_sqlite::listing::DiscoveryError;
use cnpj_sqlite::retry::{send_timeout_seconds, RetryDecision, RetryPolicy};

const BASE: &str = "https://host/dados/";
const INDEX: &str = r#"<a href="2024-10/">a</a><a href="2024-11/">b</a>"#;
const FOLDER: &str = r#"<table>
<tr><td></td><td><a href="B.zip">B</a></td><td></td><td>10M</td></tr>
<tr><td></td><td><a href="A.zip">A</a></td><td></td><td>5M</td></tr>
<tr><td></td><td><a href="C.zip">C</a></td><td></td><td>500M</td></tr>
</table>"#;

fn get_url(action: DiscoveryAction) -> String {
    match action {
        DiscoveryAction::Get { url } => url,
        _ => panic!("a fetch was expected"),
    }
}

fn sleep_seconds(action: DiscoveryAction) -> u64 {
    match action {
        DiscoveryAction::Sleep { seconds } => seconds,
        _ => panic!("a pause was expected"),
    }
}

#[test]
fn the_policies_hold_their_numbers() {
    assert_eq!(RetryPolicy::transfer(), RetryPolicy { max_attempts: 5, backoff_step_seconds: 3 });
    assert_eq!(RetryPolicy::index_listing(), RetryPolicy { max_attempts: 5, backoff_step_seconds: 2 });
    assert_eq!(RetryPolicy::folder_listing(), RetryPolicy { max_attempts: 3, backoff_step_seconds: 2 });
}

#[test]
fn a_failed_attempt_is_followed_by_a_growing_pause_until_the_last() {
    let policy = RetryPolicy::transfer();
    assert_eq!(policy.after_failure(1), RetryDecision::RetryAfter { seconds: 3 });
    assert_eq!(policy.after_failure(2), RetryDecision::RetryAfter { seconds: 6 });
    assert_eq!(policy.after_failure(3), RetryDecision::RetryAfter { seconds: 9 });
    assert_eq!(policy.after_failure(4), RetryDecision::RetryAfter { seconds: 12 });
    assert_eq!(policy.after_failure(5), RetryDecision::GiveUp);
    assert_eq!(policy.after_failure(6), RetryDecision::GiveUp);
    assert_eq!(RetryPolicy::folder_listing().after_failure(2), RetryDecision::RetryAfter { seconds: 4 });
    assert_eq!(RetryPolicy::folder_listing().after_failure(3), RetryDecision::GiveUp);
    assert_eq!(policy.backoff_seconds(u32::MAX), 3 * (u32::MAX as u64));
}

#[test]
fn the_send_timeout_follows_the_schedule_and_stays_at_its_last_entry() {
    let seconds: Vec<u64> = (1..=7).map(send_timeout_seconds).collect();
    assert_eq!(seconds, vec![600, 900, 1200, 1800, 2400, 2400, 2400]);
}

#[test]
fn discovery_fetches_the_index_then_the_latest_folder() {
    let mut d = Discovery::new(BASE.to_string());
    assert_eq!(get_url(d.pending_action()), BASE);
    let next = d.step(DiscoveryEvent::Fetched { body: INDEX.to_string() });
    assert_eq!(get_url(next), "https://host/dados/2024-11/");
    assert_eq!(d.phase(), DiscoveryPhase::Folder);
    let done = d.step(DiscoveryEvent::Fetched { body: FOLDER.to_string() });
    assert!(matches!(done, DiscoveryAction::Finish));
    assert!(d.is_finished());
    let files = d.into_result().unwrap().unwrap();
    let listed: Vec<(String, u64)> = files.iter().map(|f| (f.url.clone(), f.advertised_size_bytes)).collect();
    assert_eq!(
        listed,
        vec![
            ("https://host/dados/2024-11/A.zip".to_string(), 5 * 1024 * 1024),
            ("https://host/dados/2024-11/B.zip".to_string(), 10 * 1024 * 1024),
            ("https://host/dados/2024-11/C.zip".to_string(), 500 * 1024 * 1024),
        ]
    );
}

#[test]
fn the_index_is_tried_five_times_with_pauses_of_twice_the_attempt() {
    let mut d = Discovery::new(BASE.to_string());
    for attempt in 1..=4u64 {
        assert_eq!(sleep_seconds(d.step(DiscoveryEvent::FetchFailed)), 2 * attempt);
        assert_eq!(get_url(d.step(DiscoveryEvent::BackoffElapsed)), BASE);
        assert_eq!(d.attempt() as u64, attempt + 1);
    }
    assert!(matches!(d.step(DiscoveryEvent::FetchFailed), DiscoveryAction::Finish));
    assert_eq!(d.into_result(), Some(Err(DiscoveryError::Unreachable)));
}

#[test]
fn the_folder_is_tried_three_times_from_its_own_first_attempt() {
    let mut d = Discovery::new(BASE.to_string());
    d.step(DiscoveryEvent::FetchFailed);
    d.step(DiscoveryEvent::BackoffElapsed);
    d.step(DiscoveryEvent::Fetched { body: INDEX.to_string() });
    assert_eq!(d.attempt(), 1);
    assert_eq!(sleep_seconds(d.step(DiscoveryEvent::FetchFailed)), 2);
    assert_eq!(get_url(d.step(DiscoveryEvent::BackoffElapsed)), "https://host/dados/2024-11/");
    assert_eq!(sleep_seconds(d.step(DiscoveryEvent::FetchFailed)), 4);
    d.step(DiscoveryEvent::BackoffElapsed);
    assert!(matches!(d.step(DiscoveryEvent::FetchFailed), DiscoveryAction::Finish));
    assert_eq!(d.error(), Some(DiscoveryError::Unreachable));
    assert_eq!(d.into_result(), Some(Err(DiscoveryError::Unreachable)));
}

#[test]
fn discovery_succeeds_after_failures_within_the_attempts() {
    let mut d = Discovery::new(BASE.to_string());
    for _ in 0..4 {
        d.step(DiscoveryEvent::FetchFailed);
        d.step(DiscoveryEvent::BackoffElapsed);
    }
    assert_eq!(get_url(d.step(DiscoveryEvent::Fetched { body: INDEX.to_string() })), "https://host/dados/2024-11/");
}

#[test]
fn an_index_without_folders_and_a_folder_without_files_fail_discovery() {
    let mut d = Discovery::new(BASE.to_string());
    assert!(matches!(d.step(DiscoveryEvent::Fetched { body: "<a href=\"x/\">x</a>".to_string() }), DiscoveryAction::Finish));
    assert_eq!(d.into_result(), Some(Err(DiscoveryError::NoSnapshotFolder)));

    let mut d = Discovery::new(BASE.to_string());
    d.step(DiscoveryEvent::Fetched { body: INDEX.to_string() });
    assert!(matches!(d.step(DiscoveryEvent::Fetched { body: "<table></table>".to_string() }), DiscoveryAction::Finish));
    assert_eq!(d.into_result(), Some(Err(DiscoveryError::NoFiles)));
}

#[test]
fn fetch_events_that_answer_nothing_change_nothing() {
    let mut d = Discovery::new(BASE.to_string());
    assert_eq!(get_url(d.step(DiscoveryEvent::BackoffElapsed)), BASE);
    assert_eq!(d.attempt(), 1);
    d.step(DiscoveryEvent::FetchFailed);
    assert_eq!(sleep_seconds(d.step(DiscoveryEvent::FetchFailed)), 2);
    assert_eq!(sleep_seconds(d.step(DiscoveryEvent::Fetched { body: INDEX.to_string() })), 2);
    assert_eq!(d.attempt(), 1);
    assert!(d.into_result().is_none());
}
