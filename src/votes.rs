use crate::types::{opt_text_view, votes_view, Place, PlaceView, VoteMeta, VoteView};
use vstd::prelude::*;

verus! {

/// The sum of the vote values.
pub open spec fn vote_sum(votes: Seq<VoteView>) -> int
    decreases votes.len(),
{
    if votes.len() == 0 {
        0
    } else {
        vote_sum(votes.drop_last()) + votes.last().vote_value as int
    }
}

/// Integer division that truncates toward zero, for a positive divisor.
pub open spec fn div_toward_zero(a: int, n: int) -> int {
    if a >= 0 {
        a / n
    } else {
        -((-a) / n)
    }
}

/// The truncated average of the vote values; zero when there are no votes.
pub open spec fn mean_vote(votes: Seq<VoteView>) -> int {
    if votes.len() == 0 {
        0
    } else {
        div_toward_zero(vote_sum(votes), votes.len() as int)
    }
}

pub open spec fn has_voter(votes: Seq<VoteView>, voter: Seq<char>) -> bool {
    exists|i: int| 0 <= i < votes.len() && #[trigger] votes[i].account_id == voter
}

pub open spec fn voters_unique(votes: Seq<VoteView>) -> bool {
    forall|i: int, j: int|
        0 <= i < j < votes.len() ==> #[trigger] votes[i].account_id != #[trigger] votes[j].account_id
}

/// The votes after `v` is cast: it replaces the earlier vote of the same voter,
/// or is appended when that voter has not voted yet.
pub open spec fn cast_votes(votes: Seq<VoteView>, v: VoteView) -> Seq<VoteView> {
    if has_voter(votes, v.account_id) {
        Seq::new(
            votes.len(),
            |i: int| if votes[i].account_id == v.account_id { v } else { votes[i] },
        )
    } else {
        votes.push(v)
    }
}

/// A place's vote state is consistent: one vote per voter, the counter equals
/// the number of votes, and the average is the truncated mean of the values.
pub open spec fn place_wf(p: PlaceView) -> bool {
    &&& voters_unique(p.votes)
    &&& p.votes.len() <= i32::MAX
    &&& p.votes_counter == p.votes.len()
    &&& p.avarage_votes == mean_vote(p.votes)
}

/// The place after `v` is cast on it.
pub open spec fn voted(p: PlaceView, v: VoteView) -> PlaceView {
    let vs = cast_votes(p.votes, v);
    PlaceView { votes: vs, votes_counter: vs.len() as i32, avarage_votes: mean_vote(vs) as i8, ..p }
}

/// Whether a vote of `voter` can be recorded on `p` without the counter overflowing.
pub open spec fn has_vote_room(p: PlaceView, voter: Seq<char>) -> bool {
    has_voter(p.votes, voter) || p.votes.len() < i32::MAX
}

pub proof fn lemma_vote_sum_bounds(votes: Seq<VoteView>)
    ensures
        -128 * votes.len() <= vote_sum(votes) <= 127 * votes.len(),
    decreases votes.len(),
{
    if votes.len() > 0 {
        lemma_vote_sum_bounds(votes.drop_last());
    }
}

pub proof fn lemma_mean_in_range(votes: Seq<VoteView>)
    ensures
        -128 <= mean_vote(votes) <= 127,
{
    if votes.len() > 0 {
        lemma_vote_sum_bounds(votes);
        let s = vote_sum(votes);
        let n = votes.len() as int;
        if s >= 0 {
            assert(s / n <= 127) by (nonlinear_arith)
                requires
                    0 <= s <= 127 * n,
                    n > 0,
            ;
            assert(s / n >= 0) by (nonlinear_arith)
                requires
                    0 <= s,
                    n > 0,
            ;
        } else {
            assert((-s) / n <= 128) by (nonlinear_arith)
                requires
                    0 <= -s <= 128 * n,
                    n > 0,
            ;
            assert((-s) / n >= 0) by (nonlinear_arith)
                requires
                    0 <= -s,
                    n > 0,
            ;
        }
    }
}

/// The sum of the vote values, in a type wide enough for any number of votes.
pub fn total_votes(votes: &Vec<VoteMeta>) -> (r: i128)
    ensures
        r == vote_sum(votes_view(votes@)),
        -128 * votes.len() <= r <= 127 * votes.len(),
{
    let ghost vs = votes_view(votes@);
    let mut sum: i128 = 0;
    let mut i: usize = 0;
    while i < votes.len()
        invariant
            i <= votes.len(),
            vs == votes_view(votes@),
            sum == vote_sum(vs.subrange(0, i as int)),
            -128 * i <= sum <= 127 * i,
        decreases votes.len() - i,
    {
        assert(vs.subrange(0, i + 1).drop_last() =~= vs.subrange(0, i as int));
        sum = sum + votes[i].vote_value as i128;
        i = i + 1;
    }
    assert(vs.subrange(0, votes.len() as int) =~= vs);
    sum
}

/// The truncated average of `sum` over `n` votes.
pub fn truncated_mean(sum: i128, n: usize) -> (r: i8)
    requires
        n > 0,
        sum > i128::MIN,
        -128 <= div_toward_zero(sum as int, n as int) <= 127,
    ensures
        r == div_toward_zero(sum as int, n as int),
{
    if sum >= 0 {
        let q: u128 = (sum as u128) / (n as u128);
        q as i8
    } else {
        let q: u128 = ((-sum) as u128) / (n as u128);
        (-(q as i16)) as i8
    }
}

/// The position of the vote of `voter`, if there is one.
pub fn find_voter(votes: &Vec<VoteMeta>, voter: &String) -> (r: Option<usize>)
    ensures
        match r {
            Some(i) => i < votes.len() && votes@[i as int]@.account_id == voter@,
            None => !has_voter(votes_view(votes@), voter@),
        },
{
    let mut i: usize = 0;
    while i < votes.len()
        invariant
            i <= votes.len(),
            forall|j: int| 0 <= j < i ==> (#[trigger] votes@[j])@.account_id != voter@,
        decreases votes.len() - i,
    {
        if votes[i].account_id == *voter {
            return Some(i);
        }
        i = i + 1;
    }
    assert forall|j: int| 0 <= j < votes.len() implies #[trigger] votes_view(votes@)[j].account_id
        != voter@ by {
        assert(votes_view(votes@)[j] == votes@[j]@);
    }
    None
}

/// Records the vote of `voter` on `place` and recomputes its counter and average.
pub fn record_vote(place: &mut Place, voter: String, value: i8, feedback: Option<String>)
    requires
        place_wf(old(place)@),
        has_vote_room(old(place)@, voter@),
    ensures
        final(place)@ == voted(
            old(place)@,
            VoteView { account_id: voter@, vote_value: value, feedback: opt_text_view(feedback) },
        ),
        place_wf(final(place)@),
{
    let ghost old_votes = votes_view(place.votes@);
    let found = find_voter(&place.votes, &voter);
    let new_vote = VoteMeta { account_id: voter, vote_value: value, feedback };
    let ghost v = new_vote@;
    match found {
        Some(i) => {
            place.votes.set(i, new_vote);
            assert(has_voter(old_votes, v.account_id)) by {
                assert(old_votes[i as int].account_id == v.account_id);
            }
            assert(votes_view(place.votes@) =~= cast_votes(old_votes, v));
        },
        None => {
            place.votes.push(new_vote);
            place.votes_counter = place.votes_counter + 1;
            assert(votes_view(place.votes@) =~= cast_votes(old_votes, v));
        },
    }
    let ghost vs = votes_view(place.votes@);
    assert(vs.len() == place.votes.len());
    let sum = total_votes(&place.votes);
    proof {
        lemma_mean_in_range(vs);
    }
    place.avarage_votes = truncated_mean(sum, place.votes.len());
}

} // verus!
