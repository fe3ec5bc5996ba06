use portbridge::events::{classify, AccessMode, Classification, CreateKind, EventKind, RawChangeEvent};
use portbridge::notifier::{send_outcome, NotifyOutcome};
use portbridge::pipeline::{plan_post, plan_startup_read, settled_value, target_path};
use portbridge::ports::ReadError;

const BASE: &[u8] = b"http://h:8080";

#[test]
fn failed_read_abandons_the_attempt() {
    assert_eq!(settled_value(&Err(ReadError::IoFailure)), None);
    assert_eq!(plan_post(&BASE.to_vec(), &Err(ReadError::IoFailure)), None);
}

#[test]
fn unparsable_contents_settle_to_zero_and_skip() {
    // Unparsable content means a parse failure and no request at all.
    assert_eq!(settled_value(&Ok(b"abc".to_vec())), Some(0));
    assert_eq!(plan_post(&BASE.to_vec(), &Ok(b"abc".to_vec())), None);
}

#[test]
fn zero_contents_skip() {
    // Content "0" parses to zero, and zero is never posted.
    assert_eq!(settled_value(&Ok(b"0".to_vec())), Some(0));
    assert_eq!(plan_post(&BASE.to_vec(), &Ok(b"0".to_vec())), None);
}

#[test]
fn positive_contents_plan_one_exact_request() {
    let planned = plan_post(&BASE.to_vec(), &Ok(b"30000\n".to_vec()));
    let request = planned.expect("a positive port must be posted");
    assert_eq!(request.url, b"http://h:8080/api/v2/app/setPreferences".to_vec());
    assert_eq!(request.body, b"json={\"listen_port\": 30000}".to_vec());
}

#[test]
fn repeat_of_same_contents_plans_identical_requests() {
    // Two settled writes with the same contents: two identical requests,
    // deliberately without deduplication.
    let first = plan_post(&BASE.to_vec(), &Ok(b"30000".to_vec()));
    let second = plan_post(&BASE.to_vec(), &Ok(b"30000".to_vec()));
    assert!(first.is_some());
    assert_eq!(first, second);
}

#[test]
fn startup_primes_exactly_when_file_exists() {
    let dir = b"/w".to_vec();
    assert_eq!(plan_startup_read(&dir, Some(true)), Some(b"/w/forwarded_port".to_vec()));
    assert_eq!(plan_startup_read(&dir, Some(false)), None);
    assert_eq!(plan_startup_read(&dir, None), None);
}

#[test]
fn target_path_joins_directory_and_name() {
    assert_eq!(target_path(&b"/var/run/vm".to_vec()), b"/var/run/vm/forwarded_port".to_vec());
}

#[test]
fn fresh_directory_write_posts_once() {
    // A directory with no port file at startup primes nothing; then 30000
    // is written and the file closed: exactly one POST encoding 30000.
    let dir = b"/w".to_vec();
    assert_eq!(plan_startup_read(&dir, Some(false)), None);

    let event = RawChangeEvent {
        kind: EventKind::AccessClose(AccessMode::Write),
        paths: vec![b"/w/forwarded_port".to_vec()],
    };
    let path = match classify(&event) {
        Classification::SettledWrite(path) => path,
        Classification::Irrelevant => panic!("a close-after-write on the target is settled"),
    };
    assert_eq!(path, b"/w/forwarded_port".to_vec());

    let planned = plan_post(&BASE.to_vec(), &Ok(b"30000".to_vec()));
    let request = planned.expect("one POST is owed");
    assert_eq!(request.body, b"json={\"listen_port\": 30000}".to_vec());
}

#[test]
fn failed_send_does_not_stop_the_pipeline() {
    // An unreachable remote service means a Failed outcome, and
    // a later valid write still plans a fresh request.
    let first = plan_post(&BASE.to_vec(), &Ok(b"30000".to_vec()));
    assert!(first.is_some());
    assert_eq!(send_outcome(false), NotifyOutcome::Failed);

    let second = plan_post(&BASE.to_vec(), &Ok(b"30001".to_vec()));
    let request = second.expect("a later valid write is posted afresh");
    assert_eq!(request.body, b"json={\"listen_port\": 30001}".to_vec());
}
