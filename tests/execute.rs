use hedera::boundary::{completion, status_of, BoundaryStatus};
use hedera::error::Error;
use hedera::execute::{attempt_result, AttemptOutcome, ExecuteAll};

#[test]
fn partial_failure_is_reported_per_target() {
    let mut run: ExecuteAll<&str> = ExecuteAll::new(3);
    let outcomes = vec![
        AttemptOutcome::Answered { precheck_status: 0, response: "one" },
        AttemptOutcome::Answered { precheck_status: 7, response: "two" },
        AttemptOutcome::Answered { precheck_status: 0, response: "three" },
    ];
    let mut attempted = Vec::new();
    let mut outcomes = outcomes.into_iter();
    while let Some(target) = run.next_target() {
        attempted.push(target);
        run.record(outcomes.next().unwrap());
    }
    assert_eq!(attempted, vec![0, 1, 2]);
    let results = run.into_results();
    assert_eq!(results, vec![Ok("one"), Err(Error::RemoteRejected { status: 7 }), Ok("three")]);
}

#[test]
fn timeout_is_distinct_from_rejection() {
    assert_eq!(attempt_result::<u8>(AttemptOutcome::TimedOut), Err(Error::TimedOut));
    assert_eq!(
        attempt_result::<u8>(AttemptOutcome::Answered { precheck_status: 4, response: 1 }),
        Err(Error::RemoteRejected { status: 4 })
    );
    assert_eq!(
        attempt_result::<u8>(AttemptOutcome::Answered { precheck_status: 0, response: 9 }),
        Ok(9)
    );
}

#[test]
fn empty_run_attempts_nothing() {
    let run: ExecuteAll<u8> = ExecuteAll::new(0);
    assert_eq!(run.next_target(), None);
    assert!(run.into_results().is_empty());
}

#[test]
fn transport_failure_is_its_own_error() {
    assert_eq!(
        attempt_result::<u8>(AttemptOutcome::Unanswered { code: 14 }),
        Err(Error::Transport { code: 14 })
    );
}

#[test]
fn completion_carries_payload_only_on_success() {
    let ok = completion(Ok("{}".to_string()));
    assert_eq!(ok.status, BoundaryStatus::Success);
    assert_eq!(ok.payload, Some("{}".to_string()));
    let failed = completion(Err(Error::TimedOut));
    assert_eq!(failed.status, BoundaryStatus::TimedOut);
    assert_eq!(failed.payload, None);
    assert_eq!(status_of(&Error::BasicParse), BoundaryStatus::BasicParse);
    assert_eq!(status_of(&Error::RemoteRejected { status: 3 }), BoundaryStatus::RemoteRejected);
}
