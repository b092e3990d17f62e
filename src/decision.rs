//! One evaluation cycle of the guard: which pending submissions qualify for a
//! vote, and which vote each of them gets.
use vstd::prelude::*;

use crate::parcel::{AccountId, Parcel, ParcelView};

verus! {

/// A header awaiting confirmation on the destination chain, with the accounts
/// that have already voted on it.
#[derive(Clone, Debug)]
pub struct PendingSubmission {
    pub block_number: u64,
    pub parcel: Parcel,
    pub voted_by: Vec<AccountId>,
}

/// The guard's verdict on one submission, handed to the extrinsic sink.
#[derive(Clone, Copy, Debug, PartialEq, Eq, Structural)]
pub struct VoteIntent {
    pub block_number: u64,
    pub is_valid: bool,
}

/// `account` appears among `voters`.
pub open spec fn voted(voters: Seq<AccountId>, account: Seq<u8>) -> bool {
    exists|k: int| 0 <= k < voters.len() && (#[trigger] voters[k])@ == account
}

/// A submission is evaluated only above the last confirmed height and only
/// when the guard account has not voted on it yet.
pub open spec fn qualifies(s: PendingSubmission, last_confirmed: u64, account: Seq<u8>) -> bool {
    s.block_number > last_confirmed && !voted(s.voted_by@, account)
}

/// The vote on `s` given the ground truth for its block number.
pub open spec fn vote_of(s: PendingSubmission, truth: ParcelView) -> VoteIntent {
    VoteIntent { block_number: s.block_number, is_valid: s.parcel@ == truth }
}

/// What submission `j` contributes to a cycle: a vote when it qualifies and
/// its ground truth could be fetched, nothing otherwise.
pub open spec fn vote_at(
    last_confirmed: u64,
    account: Seq<u8>,
    pending: Seq<PendingSubmission>,
    truths: Seq<Option<Parcel>>,
    j: int,
) -> Option<VoteIntent> {
    if qualifies(pending[j], last_confirmed, account) && truths[j] is Some {
        Some(vote_of(pending[j], truths[j]->0@))
    } else {
        None
    }
}

/// The votes of the first `n` submissions, in the order they were returned.
pub open spec fn intents_upto(
    last_confirmed: u64,
    account: Seq<u8>,
    pending: Seq<PendingSubmission>,
    truths: Seq<Option<Parcel>>,
    n: nat,
) -> Seq<VoteIntent>
    decreases n,
{
    if n == 0 {
        seq![]
    } else {
        let prev = intents_upto(last_confirmed, account, pending, truths, (n - 1) as nat);
        match vote_at(last_confirmed, account, pending, truths, n - 1) {
            Some(v) => prev.push(v),
            None => prev,
        }
    }
}

/// The votes of a whole cycle.
pub open spec fn intents(
    last_confirmed: u64,
    account: Seq<u8>,
    pending: Seq<PendingSubmission>,
    truths: Seq<Option<Parcel>>,
) -> Seq<VoteIntent> {
    intents_upto(last_confirmed, account, pending, truths, pending.len())
}

/// Indices of the submissions that qualify, in order.
pub open spec fn qualifying_indices_upto(
    last_confirmed: u64,
    account: Seq<u8>,
    pending: Seq<PendingSubmission>,
    n: nat,
) -> Seq<usize>
    decreases n,
{
    if n == 0 {
        seq![]
    } else {
        let prev = qualifying_indices_upto(last_confirmed, account, pending, (n - 1) as nat);
        if qualifies(pending[n - 1], last_confirmed, account) {
            prev.push((n - 1) as usize)
        } else {
            prev
        }
    }
}

/// Whether `account` is among `voters`.
pub fn has_voted(voters: &Vec<AccountId>, account: &AccountId) -> (r: bool)
    ensures
        r == voted(voters@, account@),
{
    let mut i: usize = 0;
    while i < voters.len()
        invariant
            i <= voters.len(),
            forall|k: int| 0 <= k < i ==> (#[trigger] voters@[k])@ != account@,
        decreases voters.len() - i,
    {
        if voters[i].same_account(account) {
            assert(voters@[i as int]@ == account@);
            return true;
        }
        i = i + 1;
    }
    false
}

/// Whether `submission` is to be evaluated: above `last_confirmed`, and not yet
/// voted on by `account`.
pub fn needs_vote(submission: &PendingSubmission, last_confirmed: u64, account: &AccountId) -> (r:
    bool)
    ensures
        r == qualifies(*submission, last_confirmed, account@),
{
    submission.block_number > last_confirmed && !has_voted(&submission.voted_by, account)
}

/// The vote on `submission` against the ground truth for its block number:
/// valid exactly when the two parcels are structurally equal.
pub fn decide(submission: &PendingSubmission, truth: &Parcel) -> (r: VoteIntent)
    ensures
        r == vote_of(*submission, truth@),
{
    VoteIntent { block_number: submission.block_number, is_valid: submission.parcel.is_same_as(truth) }
}

proof fn lemma_intents_upto(
    last_confirmed: u64,
    account: Seq<u8>,
    pending: Seq<PendingSubmission>,
    truths: Seq<Option<Parcel>>,
    n: nat,
)
    ensures
        forall|i: int|
            #![trigger intents_upto(last_confirmed, account, pending, truths, n)[i]]
            0 <= i < intents_upto(last_confirmed, account, pending, truths, n).len() ==> exists|
                j: int,
            |
                0 <= j < n && #[trigger] vote_at(last_confirmed, account, pending, truths, j) == Some(
                    intents_upto(last_confirmed, account, pending, truths, n)[i],
                ),
        forall|j: int|
            0 <= j < n && (#[trigger] vote_at(last_confirmed, account, pending, truths, j)) is Some
                ==> intents_upto(last_confirmed, account, pending, truths, n).contains(
                vote_at(last_confirmed, account, pending, truths, j)->0,
            ),
    decreases n,
{
    if n > 0 {
        let m = (n - 1) as nat;
        lemma_intents_upto(last_confirmed, account, pending, truths, m);
        let prev = intents_upto(last_confirmed, account, pending, truths, m);
        let cur = intents_upto(last_confirmed, account, pending, truths, n);
        match vote_at(last_confirmed, account, pending, truths, m as int) {
            Some(v) => {
                assert(cur == prev.push(v));
                assert forall|i: int| #![trigger cur[i]] 0 <= i < cur.len() implies exists|j: int|
                    0 <= j < n && #[trigger] vote_at(last_confirmed, account, pending, truths, j)
                        == Some(cur[i]) by {
                    if i < prev.len() {
                        assert(cur[i] == prev[i]);
                    } else {
                        assert(vote_at(last_confirmed, account, pending, truths, m as int) == Some(
                            cur[i],
                        ));
                    }
                }
                assert forall|j: int|
                    0 <= j < n && (#[trigger] vote_at(
                        last_confirmed,
                        account,
                        pending,
                        truths,
                        j,
                    )) is Some implies cur.contains(
                    vote_at(last_confirmed, account, pending, truths, j)->0,
                ) by {
                    if j < m {
                        let w = vote_at(last_confirmed, account, pending, truths, j)->0;
                        let k = choose|k: int| 0 <= k < prev.len() && prev[k] == w;
                        assert(cur[k] == w);
                    } else {
                        assert(cur[prev.len() as int] == v);
                    }
                }
            },
            None => {},
        }
    }
}

/// No vote is ever cast on a submission at or below the last confirmed height:
/// every vote of a cycle is for a block above it.
pub proof fn lemma_no_stale_votes(
    last_confirmed: u64,
    account: Seq<u8>,
    pending: Seq<PendingSubmission>,
    truths: Seq<Option<Parcel>>,
)
    ensures
        forall|i: int|
            0 <= i < intents(last_confirmed, account, pending, truths).len() ==> (#[trigger] intents(
                last_confirmed,
                account,
                pending,
                truths,
            )[i]).block_number > last_confirmed,
{
    lemma_intents_upto(last_confirmed, account, pending, truths, pending.len());
}

/// Pending submissions carry distinct block numbers.
pub open spec fn distinct_blocks(pending: Seq<PendingSubmission>) -> bool {
    forall|a: int, b: int|
        0 <= a < pending.len() && 0 <= b < pending.len() && a != b ==> (#[trigger] pending[a]).block_number
            != (#[trigger] pending[b]).block_number
}

/// A submission that the guard account has already voted on gets no vote,
/// whatever its ground truth says.
pub proof fn lemma_no_duplicate_votes(
    last_confirmed: u64,
    account: Seq<u8>,
    pending: Seq<PendingSubmission>,
    truths: Seq<Option<Parcel>>,
    j: int,
)
    requires
        distinct_blocks(pending),
        0 <= j < pending.len(),
        voted(pending[j].voted_by@, account),
    ensures
        forall|i: int|
            0 <= i < intents(last_confirmed, account, pending, truths).len() ==> (#[trigger] intents(
                last_confirmed,
                account,
                pending,
                truths,
            )[i]).block_number != pending[j].block_number,
{
    lemma_intents_upto(last_confirmed, account, pending, truths, pending.len());
}

/// Every submission above the last confirmed height that the account has not
/// voted on, and whose ground truth was fetched, gets exactly the vote that
/// structural equality with the ground truth dictates; and each vote of the
/// cycle is of that form for the submission with its block number.
pub proof fn lemma_votes_follow_ground_truth(
    last_confirmed: u64,
    account: Seq<u8>,
    pending: Seq<PendingSubmission>,
    truths: Seq<Option<Parcel>>,
)
    requires
        distinct_blocks(pending),
    ensures
        forall|j: int|
            0 <= j < pending.len() && qualifies(#[trigger] pending[j], last_confirmed, account)
                && truths[j] is Some ==> intents(last_confirmed, account, pending, truths).contains(
                VoteIntent {
                    block_number: pending[j].block_number,
                    is_valid: pending[j].parcel@ == truths[j]->0@,
                },
            ),
        forall|i: int, j: int|
            0 <= i < intents(last_confirmed, account, pending, truths).len() && 0 <= j
                < pending.len() && (#[trigger] intents(last_confirmed, account, pending, truths)[i]).block_number
                == (#[trigger] pending[j]).block_number ==> {
                &&& qualifies(pending[j], last_confirmed, account)
                &&& truths[j] is Some
                &&& intents(last_confirmed, account, pending, truths)[i].is_valid == (
                pending[j].parcel@ == truths[j]->0@)
            },
{
    lemma_intents_upto(last_confirmed, account, pending, truths, pending.len());
    assert forall|j: int|
        0 <= j < pending.len() && qualifies(#[trigger] pending[j], last_confirmed, account)
            && truths[j] is Some implies intents(last_confirmed, account, pending, truths).contains(
        VoteIntent {
            block_number: pending[j].block_number,
            is_valid: pending[j].parcel@ == truths[j]->0@,
        },
    ) by {
        assert(vote_at(last_confirmed, account, pending, truths, j) is Some);
    }
}

/// A ground truth that could not be fetched for submission `j` takes nothing
/// away from the other submissions: each vote they get with it fetched, they
/// get as well with it missing.
pub proof fn lemma_cycle_isolation(
    last_confirmed: u64,
    account: Seq<u8>,
    pending: Seq<PendingSubmission>,
    truths: Seq<Option<Parcel>>,
    j: int,
)
    requires
        truths.len() == pending.len(),
        0 <= j < truths.len(),
    ensures
        forall|k: int|
            0 <= k < pending.len() && k != j && (#[trigger] vote_at(
                last_confirmed,
                account,
                pending,
                truths,
                k,
            )) is Some ==> intents(last_confirmed, account, pending, truths.update(j, None)).contains(
                vote_at(last_confirmed, account, pending, truths, k)->0,
            ),
{
    let failed = truths.update(j, None);
    lemma_intents_upto(last_confirmed, account, pending, failed, pending.len());
    assert forall|k: int|
        0 <= k < pending.len() && k != j && (#[trigger] vote_at(
            last_confirmed,
            account,
            pending,
            truths,
            k,
        )) is Some implies intents(last_confirmed, account, pending, failed).contains(
        vote_at(last_confirmed, account, pending, truths, k)->0,
    ) by {
        assert(failed[k] == truths[k]);
        assert(vote_at(last_confirmed, account, pending, failed, k) == vote_at(
            last_confirmed,
            account,
            pending,
            truths,
            k,
        ));
    }
}

} // verus!
