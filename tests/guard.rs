use bridger::error::{ErrorKind, GuardError, Severity};
use bridger::decision::{decide, has_voted, needs_vote, PendingSubmission, VoteIntent};
use bridger::parcel::{bytes_equal, AccountId, Parcel};
use bridger::service::{GuardEvent, GuardService, GuardState, MAX_STEP};

fn account(tag: u8) -> AccountId {
    AccountId::new(vec![tag; 32])
}

fn parcel(number: u64, seed: u8) -> Parcel {
    Parcel::new(number, vec![seed, 1, 2, 3], vec![seed; 32])
}

fn submission(block_number: u64, parcel: Parcel, voted_by: Vec<AccountId>) -> PendingSubmission {
    PendingSubmission { block_number, parcel, voted_by }
}

fn guard_for(tag: u8) -> GuardService {
    GuardService::new(account(tag), 30, true).expect("member gets a guard")
}

#[test]
fn stale_submission_is_skipped_and_fresh_one_affirmed() {
    let guard = guard_for(7);
    let pending = vec![
        submission(101, parcel(101, 0xa), vec![]),
        submission(99, parcel(99, 0xb), vec![]),
    ];
    assert_eq!(guard.pending_to_check(100, &pending), vec![0]);
    let truths = vec![Some(parcel(101, 0xa)), None];
    let votes = guard.guard(100, &pending, &truths);
    assert_eq!(votes, vec![VoteIntent { block_number: 101, is_valid: true }]);
}

#[test]
fn mismatch_in_one_field_is_rejected() {
    let guard = guard_for(7);
    let pending = vec![submission(101, parcel(101, 0xa), vec![])];
    let mut truth = parcel(101, 0xa);
    truth.mmr_root[31] ^= 1;
    let votes = guard.guard(100, &pending, &vec![Some(truth)]);
    assert_eq!(votes, vec![VoteIntent { block_number: 101, is_valid: false }]);
}

#[test]
fn already_voted_submission_gets_no_vote() {
    let guard = guard_for(7);
    let pending = vec![submission(101, parcel(101, 0xa), vec![account(7)])];
    assert!(guard.pending_to_check(100, &pending).is_empty());
    let votes = guard.guard(100, &pending, &vec![Some(parcel(101, 0xa))]);
    assert!(votes.is_empty());
    let votes = guard.guard(100, &pending, &vec![Some(parcel(101, 0xc))]);
    assert!(votes.is_empty());
}

#[test]
fn other_accounts_votes_do_not_block() {
    let guard = guard_for(7);
    let pending = vec![submission(101, parcel(101, 0xa), vec![account(8), account(9)])];
    let votes = guard.guard(100, &pending, &vec![Some(parcel(101, 0xa))]);
    assert_eq!(votes, vec![VoteIntent { block_number: 101, is_valid: true }]);
}

#[test]
fn block_equal_to_last_confirmed_is_stale() {
    let guard = guard_for(7);
    let pending = vec![submission(100, parcel(100, 0xa), vec![])];
    let votes = guard.guard(100, &pending, &vec![Some(parcel(100, 0xa))]);
    assert!(votes.is_empty());
}

#[test]
fn missing_ground_truth_does_not_stop_the_others() {
    let guard = guard_for(7);
    let pending = vec![
        submission(101, parcel(101, 0xa), vec![]),
        submission(102, parcel(102, 0xb), vec![]),
        submission(103, parcel(103, 0xc), vec![]),
    ];
    let truths = vec![Some(parcel(101, 0xa)), None, Some(parcel(103, 0xd))];
    let votes = guard.guard(100, &pending, &truths);
    assert_eq!(
        votes,
        vec![
            VoteIntent { block_number: 101, is_valid: true },
            VoteIntent { block_number: 103, is_valid: false },
        ]
    );
}

#[test]
fn votes_keep_the_order_of_the_pending_list() {
    let guard = guard_for(7);
    let pending = vec![
        submission(105, parcel(105, 1), vec![]),
        submission(102, parcel(102, 2), vec![]),
        submission(104, parcel(104, 3), vec![]),
    ];
    assert_eq!(guard.pending_to_check(100, &pending), vec![0, 1, 2]);
    let truths = vec![Some(parcel(105, 1)), Some(parcel(102, 9)), Some(parcel(104, 3))];
    let votes = guard.guard(100, &pending, &truths);
    assert_eq!(
        votes,
        vec![
            VoteIntent { block_number: 105, is_valid: true },
            VoteIntent { block_number: 102, is_valid: false },
            VoteIntent { block_number: 104, is_valid: true },
        ]
    );
}

#[test]
fn empty_pending_set_gives_nothing() {
    let guard = guard_for(7);
    assert!(guard.pending_to_check(100, &vec![]).is_empty());
    assert!(guard.guard(100, &vec![], &vec![]).is_empty());
}

#[test]
fn second_evaluation_repeats_the_first() {
    let guard = guard_for(7);
    let pending = vec![
        submission(101, parcel(101, 0xa), vec![]),
        submission(102, parcel(102, 0xb), vec![]),
    ];
    let truths = vec![Some(parcel(101, 0xa)), Some(parcel(102, 0xe))];
    let first = guard.guard(100, &pending, &truths);
    let second = guard.guard(100, &pending, &truths);
    assert_eq!(first, second);
    assert_eq!(first.len(), 2);
}

#[test]
fn non_member_gets_no_guard() {
    assert!(GuardService::new(account(7), 30, false).is_none());
    let guard = GuardService::new(account(7), 30, true).unwrap();
    assert_eq!(guard.step, 30);
    assert_eq!(guard.guard_account.bytes, vec![7u8; 32]);
}

#[test]
fn interval_is_in_milliseconds() {
    assert_eq!(guard_for(1).interval_millis(), 30_000);
    let widest = GuardService::new(account(1), MAX_STEP, true).unwrap();
    assert_eq!(widest.interval_millis(), MAX_STEP * 1000);
}

#[test]
fn disabled_guard_never_starts_a_cycle() {
    let mut state = GuardState::initial(false);
    assert_eq!(state, GuardState::Disabled);
    for event in [GuardEvent::Tick, GuardEvent::CycleDone, GuardEvent::Tick, GuardEvent::Stop] {
        let (next, started) = state.on_event(event);
        assert!(!started);
        state = next;
    }
    assert_eq!(state, GuardState::Disabled);
}

#[test]
fn member_guard_cycles_and_stops() {
    let state = GuardState::initial(true);
    assert_eq!(state, GuardState::Idle);
    let (state, started) = state.on_event(GuardEvent::Tick);
    assert_eq!((state, started), (GuardState::Evaluating, true));
    let (state, started) = state.on_event(GuardEvent::Tick);
    assert_eq!((state, started), (GuardState::Evaluating, false));
    let (state, started) = state.on_event(GuardEvent::CycleDone);
    assert_eq!((state, started), (GuardState::Idle, false));
    let (state, started) = state.on_event(GuardEvent::Tick);
    assert_eq!((state, started), (GuardState::Evaluating, true));
    let (state, started) = state.on_event(GuardEvent::Stop);
    assert_eq!((state, started), (GuardState::Stopped, false));
    let (state, started) = state.on_event(GuardEvent::CycleDone);
    assert_eq!((state, started), (GuardState::Stopped, false));
    let (state, started) = state.on_event(GuardEvent::Tick);
    assert_eq!((state, started), (GuardState::Stopped, false));
}

#[test]
fn parcel_comparison_is_strict() {
    let a = parcel(101, 0xa);
    assert!(a.is_same_as(&parcel(101, 0xa)));
    assert!(!a.is_same_as(&parcel(102, 0xa)));
    let mut header = parcel(101, 0xa);
    header.header.push(0);
    assert!(!a.is_same_as(&header));
    let mut root = parcel(101, 0xa);
    root.mmr_root[0] = 0;
    assert!(!a.is_same_as(&root));
}

#[test]
fn byte_comparison() {
    assert!(bytes_equal(&vec![], &vec![]));
    assert!(bytes_equal(&vec![1, 2], &vec![1, 2]));
    assert!(!bytes_equal(&vec![1, 2], &vec![1, 3]));
    assert!(!bytes_equal(&vec![1, 2], &vec![1]));
}

#[test]
fn vote_membership_and_filter() {
    let voters = vec![account(1), account(2)];
    assert!(has_voted(&voters, &account(2)));
    assert!(!has_voted(&voters, &account(3)));
    assert!(!has_voted(&vec![], &account(3)));
    assert!(account(4).same_account(&account(4)));
    assert!(!account(4).same_account(&account(5)));
    let sub = submission(101, parcel(101, 1), voters);
    assert!(needs_vote(&sub, 100, &account(3)));
    assert!(!needs_vote(&sub, 100, &account(1)));
    assert!(!needs_vote(&sub, 101, &account(3)));
}

#[test]
fn single_decision() {
    let sub = submission(101, parcel(101, 1), vec![]);
    assert_eq!(decide(&sub, &parcel(101, 1)), VoteIntent { block_number: 101, is_valid: true });
    assert_eq!(decide(&sub, &parcel(101, 2)), VoteIntent { block_number: 101, is_valid: false });
}

#[test]
fn business_errors_are_traced_and_the_rest_alerted() {
    assert_eq!(ErrorKind::NothingToDo.severity(), Severity::Trace);
    assert_eq!(ErrorKind::StateChanged.severity(), Severity::Trace);
    assert_eq!(ErrorKind::NotAvailable.severity(), Severity::Error);
    assert_eq!(ErrorKind::Transport.severity(), Severity::Error);
    assert_eq!(ErrorKind::Decode.severity(), Severity::Error);
    let err = GuardError::new(ErrorKind::Transport, String::from("connection refused"));
    assert_eq!(err.severity(), Severity::Error);
    assert_eq!(err.message, "connection refused");
}
