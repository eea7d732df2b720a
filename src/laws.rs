use crate::contract::{
    created, has_place, place_index, removed, store_wf, with_pictures, with_vote, StoreView,
};
use crate::types::{PlaceInput, PlaceView, VoteView};
use crate::votes::{
    cast_votes, div_toward_zero, has_voter, lemma_mean_in_range, place_wf, vote_sum, voted,
    voters_unique,
};
use vstd::prelude::*;

verus! {

/// The place after each vote of `vs` is cast on it, in order.
pub open spec fn cast_all(p: PlaceView, vs: Seq<VoteView>) -> PlaceView
    decreases vs.len(),
{
    if vs.len() == 0 {
        p
    } else {
        voted(cast_all(p, vs.drop_last()), vs.last())
    }
}

/// A created place takes the counter's value as its id, which is above every
/// stored id, and the counter moves past it; removal leaves the counter where it
/// is. So ids handed out by successive creations strictly increase and never
/// repeat, whatever was removed in between.
pub proof fn lemma_created_ids_increase(s: StoreView, input: PlaceInput, id: u64)
    requires
        store_wf(s),
        s.last_id < u64::MAX,
    ensures
        created(s, input).places.last().id == s.last_id,
        forall|i: int| 0 <= i < s.places.len() ==> #[trigger] s.places[i].id < created(s, input).places.last().id,
        created(s, input).last_id > s.last_id,
        store_wf(created(s, input)),
        has_place(s, id) ==> removed(s, id).last_id == s.last_id,
{
}

/// A second vote by the same voter on a place leaves no trace of the first: the
/// store is as if only the second had been cast, and the vote counter is the
/// same after either.
pub proof fn lemma_revote_keeps_latest(s: StoreView, id: u64, first: VoteView, second: VoteView)
    requires
        first.account_id == second.account_id,
    ensures
        with_vote(with_vote(s, id, first), id, second) == with_vote(s, id, second),
        forall|i: int|
            0 <= i < s.places.len() ==> #[trigger] with_vote(with_vote(s, id, first), id, second).places[i].votes_counter
                == with_vote(s, id, first).places[i].votes_counter,
{
    assert forall|p: PlaceView| #[trigger] voted(voted(p, first), second) == voted(p, second) by {
        lemma_cast_twice(p.votes, first, second);
    }
    let a = with_vote(s, id, first);
    let b = with_vote(a, id, second);
    let c = with_vote(s, id, second);
    assert(b.places =~= c.places);
    assert forall|i: int| 0 <= i < s.places.len() implies #[trigger] b.places[i].votes_counter
        == a.places[i].votes_counter by {
        let p = s.places[i];
        if p.id == id {
            assert(has_voter(cast_votes(p.votes, first), first.account_id)) by {
                if has_voter(p.votes, first.account_id) {
                    let k = choose|k: int| 0 <= k < p.votes.len() && #[trigger] p.votes[k].account_id == first.account_id;
                    assert(cast_votes(p.votes, first)[k].account_id == first.account_id);
                } else {
                    let n = p.votes.len() as int;
                    assert(cast_votes(p.votes, first)[n].account_id == first.account_id);
                }
            }
        }
    }
    assert(b == c);
}

proof fn lemma_cast_twice(vs: Seq<VoteView>, first: VoteView, second: VoteView)
    requires
        first.account_id == second.account_id,
    ensures
        cast_votes(cast_votes(vs, first), second) == cast_votes(vs, second),
{
    let once = cast_votes(vs, first);
    if has_voter(vs, first.account_id) {
        let k = choose|k: int| 0 <= k < vs.len() && #[trigger] vs[k].account_id == first.account_id;
        assert(once[k].account_id == first.account_id);
        assert(cast_votes(once, second) =~= cast_votes(vs, second));
    } else {
        let n = vs.len() as int;
        assert(once[n].account_id == first.account_id);
        assert forall|j: int| 0 <= j < n implies #[trigger] once[j].account_id != second.account_id by {
            assert(vs[j].account_id != first.account_id);
        }
        assert(cast_votes(once, second) =~= cast_votes(vs, second));
    }
}

/// Votes of distinct voters cast in turn on a place without votes are all kept:
/// the counter is their number and the average is their sum divided by it,
/// truncated toward zero.
pub proof fn lemma_distinct_voters_average(p: PlaceView, vs: Seq<VoteView>)
    requires
        p.votes.len() == 0,
        p.votes_counter == 0,
        voters_unique(vs),
        vs.len() <= i32::MAX,
    ensures
        cast_all(p, vs).votes == vs,
        cast_all(p, vs).votes_counter == vs.len(),
        vs.len() > 0 ==> cast_all(p, vs).avarage_votes as int == div_toward_zero(
            vote_sum(vs),
            vs.len() as int,
        ),
    decreases vs.len(),
{
    if vs.len() > 0 {
        let init = vs.drop_last();
        assert(voters_unique(init));
        lemma_distinct_voters_average(p, init);
        let q = cast_all(p, init);
        assert(!has_voter(q.votes, vs.last().account_id)) by {
            assert forall|j: int| 0 <= j < init.len() implies #[trigger] init[j].account_id
                != vs.last().account_id by {
                assert(vs[j].account_id != vs[vs.len() - 1].account_id);
            }
        }
        assert(init.push(vs.last()) =~= vs);
        lemma_mean_in_range(vs);
    } else {
        assert(p.votes =~= vs);
    }
}

/// Removing a stored place drops exactly that one record: one place fewer, its id
/// no longer found, and every other id still found with the same content.
pub proof fn lemma_removal_drops_one(s: StoreView, id: u64)
    requires
        store_wf(s),
        has_place(s, id),
    ensures
        removed(s, id).places.len() == s.places.len() - 1,
        !has_place(removed(s, id), id),
        store_wf(removed(s, id)),
        forall|other: u64|
            other != id && #[trigger] has_place(s, other) ==> has_place(removed(s, id), other)
                && removed(s, id).places[place_index(removed(s, id), other)] == s.places[place_index(
                s,
                other,
            )],
{
    let t = removed(s, id);
    let k = place_index(s, id);
    let n = s.places.len() as int;
    assert forall|j: int| 0 <= j < t.places.len() implies (j == k && #[trigger] t.places[j] == s.places[n - 1])
        || t.places[j] == s.places[j] by {}
    assert forall|j: int| 0 <= j < t.places.len() implies #[trigger] t.places[j].id != id by {
        if j == k {
            assert(s.places[n - 1].id != s.places[k].id || n - 1 == k);
        } else {
            assert(s.places[j].id != s.places[k].id);
        }
    }
    assert forall|other: u64| other != id && #[trigger] has_place(s, other) implies has_place(t, other)
        && t.places[place_index(t, other)] == s.places[place_index(s, other)] by {
        let i = place_index(s, other);
        let pos = if i == n - 1 { k } else { i };
        assert(t.places[pos] == s.places[i]);
        let q = place_index(t, other);
        assert(t.places[q].id == other);
        assert(q == pos) by {
            if q < pos {
                assert(t.places[q].id != t.places[pos].id);
            } else if q > pos {
                assert(t.places[pos].id != t.places[q].id);
            }
        }
    }
}

/// Adding pictures appends them, in order, to the pictures the place had, and
/// touches no other place.
pub proof fn lemma_pictures_append(s: StoreView, id: u64, pictures: Seq<Seq<char>>)
    requires
        store_wf(s),
        has_place(s, id),
    ensures
        has_place(with_pictures(s, id, pictures), id),
        with_pictures(s, id, pictures).places[place_index(with_pictures(s, id, pictures), id)].pictures
            == s.places[place_index(s, id)].pictures + pictures,
        forall|i: int|
            0 <= i < s.places.len() && s.places[i].id != id ==> #[trigger] with_pictures(
                s,
                id,
                pictures,
            ).places[i] == s.places[i],
{
    let t = with_pictures(s, id, pictures);
    let k = place_index(s, id);
    assert(t.places[k].id == id);
    let q = place_index(t, id);
    assert(t.places[q].id == id);
    assert(q == k) by {
        if q < k {
            assert(s.places[q].id != s.places[k].id);
        } else if q > k {
            assert(s.places[k].id != s.places[q].id);
        }
    }
}

/// One store operation that took effect. A refused call (a denied caller, an
/// unknown id) leaves the store as it was, so a run of calls is described by the
/// operations of it that took effect.
pub ghost enum StoreStep {
    Create(PlaceInput),
    Vote(u64, VoteView),
    AddPictures(u64, Seq<Seq<char>>),
    Remove(u64),
}

/// The store after `op`.
pub open spec fn step(s: StoreView, op: StoreStep) -> StoreView {
    match op {
        StoreStep::Create(input) => created(s, input),
        StoreStep::Vote(id, v) => with_vote(s, id, v),
        StoreStep::AddPictures(id, pictures) => with_pictures(s, id, pictures),
        StoreStep::Remove(id) => if has_place(s, id) {
            removed(s, id)
        } else {
            s
        },
    }
}

/// The store after each operation of `ops`, in order.
pub open spec fn run(s: StoreView, ops: Seq<StoreStep>) -> StoreView
    decreases ops.len(),
{
    if ops.len() == 0 {
        s
    } else {
        step(run(s, ops.drop_last()), ops.last())
    }
}

/// The ids handed to the places that the creations of `ops` appended, in order.
pub open spec fn created_ids(s: StoreView, ops: Seq<StoreStep>) -> Seq<u64>
    decreases ops.len(),
{
    if ops.len() == 0 {
        Seq::empty()
    } else {
        let before = created_ids(s, ops.drop_last());
        match ops.last() {
            StoreStep::Create(_) => before.push(run(s, ops.drop_last()).last_id),
            _ => before,
        }
    }
}

/// Ids are unique and all below the counter.
pub open spec fn ids_wf(s: StoreView) -> bool {
    &&& forall|i: int| 0 <= i < s.places.len() ==> (#[trigger] s.places[i]).id < s.last_id
    &&& forall|i: int, j: int|
        0 <= i < j < s.places.len() ==> #[trigger] s.places[i].id != #[trigger] s.places[j].id
}

proof fn lemma_step_ids(s: StoreView, op: StoreStep)
    requires
        ids_wf(s),
        s.last_id < u64::MAX,
    ensures
        ids_wf(step(s, op)),
        step(s, op).last_id == if op is Create {
            s.last_id + 1
        } else {
            s.last_id as int
        },
        forall|id: u64|
            #[trigger] has_place(step(s, op), id) ==> has_place(s, id) || (op is Create && id
                == s.last_id),
{
    let t = step(s, op);
    match op {
        StoreStep::Create(input) => {
            assert forall|id: u64| #[trigger] has_place(t, id) implies has_place(s, id) || id
                == s.last_id by {
                let i = choose|i: int| 0 <= i < t.places.len() && #[trigger] t.places[i].id == id;
                if i < s.places.len() {
                    assert(s.places[i].id == id);
                }
            }
        },
        StoreStep::Vote(id, v) => {
            assert forall|x: u64| #[trigger] has_place(t, x) implies has_place(s, x) by {
                let i = choose|i: int| 0 <= i < t.places.len() && #[trigger] t.places[i].id == x;
                assert(s.places[i].id == x);
            }
            assert forall|i: int| 0 <= i < t.places.len() implies #[trigger] t.places[i].id
                == s.places[i].id by {}
        },
        StoreStep::AddPictures(id, pictures) => {
            assert forall|x: u64| #[trigger] has_place(t, x) implies has_place(s, x) by {
                let i = choose|i: int| 0 <= i < t.places.len() && #[trigger] t.places[i].id == x;
                assert(s.places[i].id == x);
            }
            assert forall|i: int| 0 <= i < t.places.len() implies #[trigger] t.places[i].id
                == s.places[i].id by {}
        },
        StoreStep::Remove(id) => {
            if has_place(s, id) {
                let k = place_index(s, id);
                let n = s.places.len() as int;
                assert forall|j: int| 0 <= j < t.places.len() implies #[trigger] t.places[j]
                    == s.places[if j == k { n - 1 } else { j }] by {}
                assert forall|x: u64| #[trigger] has_place(t, x) implies has_place(s, x) by {
                    let i = choose|i: int| 0 <= i < t.places.len() && #[trigger] t.places[i].id == x;
                    assert(s.places[if i == k { n - 1 } else { i }].id == x);
                }
                assert forall|i: int, j: int| 0 <= i < j < t.places.len() implies #[trigger] t.places[i].id
                    != #[trigger] t.places[j].id by {
                    let a = if i == k { n - 1 } else { i };
                    let b = if j == k { n - 1 } else { j };
                    assert(t.places[i] == s.places[a]);
                    assert(t.places[j] == s.places[b]);
                    if a < b {
                        assert(s.places[a].id != s.places[b].id);
                    } else {
                        assert(s.places[b].id != s.places[a].id);
                    }
                }
            }
        },
    }
}

/// Over any run of operations, the ids that creations hand out strictly
/// increase, start at the counter, and stay below the final counter, so none
/// repeats an id stored or handed out before; and an id below the counter that
/// is not stored is never found again.
pub proof fn lemma_run_ids(s: StoreView, ops: Seq<StoreStep>)
    requires
        ids_wf(s),
        s.last_id + ops.len() < u64::MAX,
    ensures
        ids_wf(run(s, ops)),
        s.last_id <= run(s, ops).last_id <= s.last_id + ops.len(),
        forall|i: int, j: int|
            0 <= i < j < created_ids(s, ops).len() ==> #[trigger] created_ids(s, ops)[i]
                < #[trigger] created_ids(s, ops)[j],
        forall|i: int|
            0 <= i < created_ids(s, ops).len() ==> s.last_id <= #[trigger] created_ids(s, ops)[i]
                < run(s, ops).last_id,
        forall|id: u64|
            id < s.last_id && !has_place(s, id) ==> !#[trigger] has_place(run(s, ops), id),
    decreases ops.len(),
{
    if ops.len() > 0 {
        let prev = ops.drop_last();
        lemma_run_ids(s, prev);
        let r = run(s, prev);
        lemma_step_ids(r, ops.last());
        let c = created_ids(s, ops);
        let cp = created_ids(s, prev);
        if ops.last() is Create {
            assert(c == cp.push(r.last_id));
            assert forall|i: int, j: int| 0 <= i < j < c.len() implies #[trigger] c[i] < #[trigger] c[j] by {
                if j < cp.len() {
                    assert(cp[i] < cp[j]);
                } else {
                    assert(cp[i] < r.last_id);
                }
            }
        } else {
            assert(c == cp);
        }
        assert forall|id: u64| id < s.last_id && !has_place(s, id) implies !#[trigger] has_place(
            run(s, ops),
            id,
        ) by {
            assert(!has_place(r, id));
        }
    }
}

/// A removed id is never found again, whatever operations follow.
pub proof fn lemma_removed_id_stays_gone(s: StoreView, id: u64, ops: Seq<StoreStep>)
    requires
        store_wf(s),
        has_place(s, id),
        s.last_id + ops.len() < u64::MAX,
    ensures
        !has_place(run(removed(s, id), ops), id),
{
    lemma_removal_drops_one(s, id);
    let k = place_index(s, id);
    assert(s.places[k].id == id);
    lemma_run_ids(removed(s, id), ops);
}

/// The store after each vote of `vs` is cast, in order, on the place with `id`.
pub open spec fn vote_all(s: StoreView, id: u64, vs: Seq<VoteView>) -> StoreView
    decreases vs.len(),
{
    if vs.len() == 0 {
        s
    } else {
        with_vote(vote_all(s, id, vs.drop_last()), id, vs.last())
    }
}

proof fn lemma_vote_all_places(s: StoreView, id: u64, vs: Seq<VoteView>)
    requires
        store_wf(s),
        has_place(s, id),
    ensures
        vote_all(s, id, vs).places.len() == s.places.len(),
        forall|j: int|
            0 <= j < s.places.len() ==> #[trigger] vote_all(s, id, vs).places[j] == if j
                == place_index(s, id) {
                cast_all(s.places[j], vs)
            } else {
                s.places[j]
            },
    decreases vs.len(),
{
    let k = place_index(s, id);
    assert(s.places[k].id == id);
    if vs.len() > 0 {
        lemma_vote_all_places(s, id, vs.drop_last());
        lemma_cast_all_keeps_id(s.places[k], vs.drop_last());
        let prev = vote_all(s, id, vs.drop_last());
        let t = vote_all(s, id, vs);
        assert(t == with_vote(prev, id, vs.last()));
        assert forall|j: int| 0 <= j < s.places.len() implies #[trigger] t.places[j] == if j == k {
            cast_all(s.places[j], vs)
        } else {
            s.places[j]
        } by {
            assert(prev.places[j] == if j == k {
                cast_all(s.places[j], vs.drop_last())
            } else {
                s.places[j]
            });
            if j != k {
                if j < k {
                    assert(s.places[j].id != s.places[k].id);
                } else {
                    assert(s.places[k].id != s.places[j].id);
                }
            }
        }
    }
}

/// Votes of N distinct voters cast in turn on a stored place without votes
/// leave that place with all N votes, a counter of N, and the sum of the values
/// divided by N, truncated toward zero, as its average; no other place changes.
pub proof fn lemma_store_distinct_voters_average(s: StoreView, id: u64, vs: Seq<VoteView>)
    requires
        store_wf(s),
        has_place(s, id),
        s.places[place_index(s, id)].votes.len() == 0,
        voters_unique(vs),
        vs.len() <= i32::MAX,
    ensures
        ({
            let t = vote_all(s, id, vs);
            let p = t.places[place_index(s, id)];
            &&& p.id == id
            &&& p.votes == vs
            &&& p.votes_counter == vs.len()
            &&& vs.len() > 0 ==> p.avarage_votes as int == div_toward_zero(
                vote_sum(vs),
                vs.len() as int,
            )
            &&& forall|j: int|
                0 <= j < s.places.len() && j != place_index(s, id) ==> #[trigger] t.places[j]
                    == s.places[j]
        }),
{
    let k = place_index(s, id);
    assert(s.places[k].id == id);
    lemma_vote_all_places(s, id, vs);
    assert(place_wf(s.places[k]));
    lemma_distinct_voters_average(s.places[k], vs);
    lemma_cast_all_keeps_id(s.places[k], vs);
}

proof fn lemma_cast_all_keeps_id(p: PlaceView, vs: Seq<VoteView>)
    ensures
        cast_all(p, vs).id == p.id,
    decreases vs.len(),
{
    if vs.len() > 0 {
        lemma_cast_all_keeps_id(p, vs.drop_last());
    }
}

} // verus!
