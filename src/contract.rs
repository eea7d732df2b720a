use crate::host::{caller_account, stored_state_exists};
use crate::types::{duplicate_texts, opt_text_view, texts_view, Place, PlaceInput, PlaceView, VoteView};
use crate::utils::{account_vec_to_set, contains_account};
use crate::votes::{has_vote_room, place_wf, record_vote, voted};
use vstd::prelude::*;

verus! {

/// Why a store operation did not apply.
#[derive(Debug, Clone, Copy, PartialEq, Eq, Structural)]
pub enum StoreError {
    /// The caller is neither the owner nor an admin.
    AuthorizationDenied,
    /// The host already holds a stored state.
    AlreadyInitialized,
    /// No stored place carries the given id.
    NotFound,
}

/// The catalog of places, its id counter, and who may change it.
///
/// All of it is held as plain values: the places in a `Vec` (removal moves the
/// last place into the freed position) and the admins in a `Vec`, whose
/// accounts form the admin set. Writing the store to the host's storage, and reading it back, is
/// left to the host layer, through `into_parts` and `from_parts`.
pub struct Contract {
    owner: String,
    admins: Vec<String>,
    places: Vec<Place>,
    last_id: u64,
}

pub ghost struct StoreView {
    pub owner: Seq<char>,
    pub admins: Set<Seq<char>>,
    pub places: Seq<PlaceView>,
    pub last_id: u64,
}

pub open spec fn places_view(v: Seq<Place>) -> Seq<PlaceView> {
    v.map_values(|p: Place| p@)
}

impl View for Contract {
    type V = StoreView;

    closed spec fn view(&self) -> StoreView {
        StoreView {
            owner: self.owner@,
            admins: texts_view(self.admins@).to_set(),
            places: places_view(self.places@),
            last_id: self.last_id,
        }
    }
}

/// The store that the given parts describe.
pub open spec fn parts_view(owner: String, admins: Vec<String>, places: Vec<Place>, last_id: u64) -> StoreView {
    StoreView {
        owner: owner@,
        admins: texts_view(admins@).to_set(),
        places: places_view(places@),
        last_id,
    }
}

/// Ids are unique and all below the counter, and every place's vote state is consistent.
pub open spec fn store_wf(s: StoreView) -> bool {
    &&& forall|i: int| 0 <= i < s.places.len() ==> (#[trigger] s.places[i]).id < s.last_id
    &&& forall|i: int, j: int|
        0 <= i < j < s.places.len() ==> #[trigger] s.places[i].id != #[trigger] s.places[j].id
    &&& forall|i: int| 0 <= i < s.places.len() ==> place_wf(#[trigger] s.places[i])
}

pub open spec fn has_place(s: StoreView, id: u64) -> bool {
    exists|i: int| 0 <= i < s.places.len() && #[trigger] s.places[i].id == id
}

/// The position of the place that carries `id`.
pub open spec fn place_index(s: StoreView, id: u64) -> int {
    choose|i: int| 0 <= i < s.places.len() && #[trigger] s.places[i].id == id
}

/// The caller may delete places and add pictures.
pub open spec fn authorized(s: StoreView, caller: Seq<char>) -> bool {
    caller == s.owner || s.admins.contains(caller)
}

/// A fresh store: no places, the counter at zero.
pub open spec fn initial(owner: Seq<char>, admins: Set<Seq<char>>) -> StoreView {
    StoreView { owner, admins, places: Seq::empty(), last_id: 0 }
}

pub open spec fn admin_list(admins: Option<Vec<String>>) -> Set<Seq<char>> {
    match admins {
        Some(v) => texts_view(v@).to_set(),
        None => Set::empty(),
    }
}

/// The place that creation builds from `input` under `id`: no votes yet.
pub open spec fn fresh_place(id: u64, input: PlaceInput) -> PlaceView {
    PlaceView {
        id,
        name: input.name@,
        address: input.address@,
        description: input.description@,
        place_type: input.place_type@,
        avarage_votes: 0,
        votes_counter: 0,
        votes: Seq::empty(),
        pictures: texts_view(input.pictures@),
    }
}

/// The store after a place is created from `input`.
pub open spec fn created(s: StoreView, input: PlaceInput) -> StoreView {
    StoreView {
        places: s.places.push(fresh_place(s.last_id, input)),
        last_id: (s.last_id + 1) as u64,
        ..s
    }
}

/// The store after the place with `id` is swap-removed: the last place takes its position.
pub open spec fn removed(s: StoreView, id: u64) -> StoreView {
    let i = place_index(s, id);
    StoreView { places: s.places.update(i, s.places.last()).drop_last(), ..s }
}

/// The store after `v` is cast on the place with `id`.
pub open spec fn with_vote(s: StoreView, id: u64, v: VoteView) -> StoreView {
    StoreView {
        places: s.places.map_values(|p: PlaceView| if p.id == id { voted(p, v) } else { p }),
        ..s
    }
}

/// The store after `pictures` are appended to those of the place with `id`.
pub open spec fn with_pictures(s: StoreView, id: u64, pictures: Seq<Seq<char>>) -> StoreView {
    StoreView {
        places: s.places.map_values(
            |p: PlaceView|
                if p.id == id {
                    PlaceView { pictures: p.pictures + pictures, ..p }
                } else {
                    p
                },
        ),
        ..s
    }
}

impl Contract {
    pub open spec fn wf(&self) -> bool {
        store_wf(self@)
    }

    /// A store with the given owner and admins, and no places.
    pub fn new(owner: String, admins: Option<Vec<String>>) -> (r: Contract)
        ensures
            r.wf(),
            r@ == initial(owner@, admin_list(admins)),
    {
        let list = match admins {
            Some(v) => v,
            None => Vec::new(),
        };
        let ghost l = list;
        let admins_set = account_vec_to_set(list);
        let r = Contract { owner, admins: admins_set, places: Vec::new(), last_id: 0 };
        assert(places_view(r.places@) =~= Seq::<PlaceView>::empty());
        proof {
            if admins.is_none() {
                assert(texts_view(l@) =~= Seq::<Seq<char>>::empty());
                assert(texts_view(l@).to_set() =~= Set::<Seq<char>>::empty());
            }
        }
        r
    }

    /// Creates the store, unless the host already holds a stored state.
    pub fn init(owner: String, admins: Option<Vec<String>>) -> (r: Result<Contract, StoreError>)
        ensures
            match r {
                Ok(c) => c.wf() && c@ == initial(owner@, admin_list(admins)),
                Err(e) => e == StoreError::AlreadyInitialized,
            },
    {
        if stored_state_exists() {
            Err(StoreError::AlreadyInitialized)
        } else {
            Ok(Contract::new(owner, admins))
        }
    }

    /// A store from its parts, as `into_parts` hands them out.
    pub fn from_parts(owner: String, admins: Vec<String>, places: Vec<Place>, last_id: u64) -> (r:
        Contract)
        requires
            store_wf(parts_view(owner, admins, places, last_id)),
        ensures
            r.wf(),
            r@ == parts_view(owner, admins, places, last_id),
    {
        Contract { owner, admins, places, last_id }
    }

    /// The parts of the store: owner, admins, places in position order, and counter.
    pub fn into_parts(self) -> (r: (String, Vec<String>, Vec<Place>, u64))
        ensures
            parts_view(r.0, r.1, r.2, r.3) == self@,
    {
        (self.owner, self.admins, self.places, self.last_id)
    }

    /// The owner account.
    pub fn owner(&self) -> (r: String)
        ensures
            r@ == self@.owner,
    {
        self.owner.clone()
    }

    /// The admin accounts.
    pub fn admins(&self) -> (r: Vec<String>)
        ensures
            texts_view(r@).to_set() == self@.admins,
    {
        duplicate_texts(&self.admins)
    }

    /// The id that the next created place will carry.
    pub fn next_id(&self) -> (r: u64)
        ensures
            r == self@.last_id,
    {
        self.last_id
    }

    /// Every stored place, in position order.
    pub fn get_places(&self) -> (r: Vec<Place>)
        ensures
            places_view(r@) == self@.places,
    {
        let mut r: Vec<Place> = Vec::new();
        let mut i: usize = 0;
        while i < self.places.len()
            invariant
                i <= self.places.len(),
                r@.len() == i,
                forall|j: int| 0 <= j < i ==> #[trigger] r@[j]@ == self.places@[j]@,
            decreases self.places.len() - i,
        {
            r.push(self.places[i].duplicate());
            i = i + 1;
        }
        assert(places_view(r@) =~= places_view(self.places@));
        r
    }

    /// The position of the place with `place_id`, if one is stored.
    fn position_of(&self, place_id: u64) -> (r: Option<usize>)
        requires
            self.wf(),
        ensures
            match r {
                Some(i) => has_place(self@, place_id) && i == place_index(self@, place_id) && i
                    < self.places.len(),
                None => !has_place(self@, place_id),
            },
    {
        let ghost s = self@;
        let mut i: usize = 0;
        while i < self.places.len()
            invariant
                i <= self.places.len(),
                s == self@,
                self.wf(),
                forall|j: int| 0 <= j < i ==> (#[trigger] self.places@[j]).id != place_id,
            decreases self.places.len() - i,
        {
            if self.places[i].id == place_id {
                assert(s.places[i as int].id == place_id);
                let ghost k = place_index(s, place_id);
                assert(s.places[k].id == place_id);
                assert(k == i as int) by {
                    assert(store_wf(s));
                    if k < i as int {
                        assert(s.places[k].id != s.places[i as int].id);
                    } else if k > i as int {
                        assert(s.places[i as int].id != s.places[k].id);
                    }
                }
                return Some(i);
            }
            i = i + 1;
        }
        assert forall|j: int| 0 <= j < s.places.len() implies #[trigger] s.places[j].id != place_id by {
            assert(s.places[j] == self.places@[j]@);
        }
        None
    }

    /// The place with `place_id`; `None` when no stored place carries it.
    pub fn get_places_by_id(&self, place_id: u64) -> (r: Option<Place>)
        requires
            self.wf(),
        ensures
            match r {
                Some(p) => has_place(self@, place_id) && p@ == self@.places[place_index(self@, place_id)],
                None => !has_place(self@, place_id),
            },
    {
        match self.position_of(place_id) {
            Some(i) => Some(self.places[i].duplicate()),
            None => None,
        }
    }

    /// Stores a new place built from `place` under the next id, then advances the counter.
    pub fn add_place(&mut self, place: PlaceInput)
        requires
            old(self).wf(),
            old(self)@.last_id < u64::MAX,
        ensures
            final(self).wf(),
            final(self)@ == created(old(self)@, place),
    {
        let ghost input = place;
        let new_place = Place {
            id: self.last_id,
            name: place.name,
            address: place.address,
            description: place.description,
            place_type: place.place_type,
            avarage_votes: 0,
            votes_counter: 0,
            votes: Vec::new(),
            pictures: place.pictures,
        };
        assert(new_place@.votes =~= Seq::<VoteView>::empty());
        assert(new_place@ == fresh_place(self.last_id, input));
        self.places.push(new_place);
        self.last_id = self.last_id + 1;
        assert(self@.places =~= created(old(self)@, input).places);
    }
    /// Whether `account` is the owner.
    pub fn is_owner_as(&self, account: &String) -> (r: bool)
        ensures
            r == (account@ == self@.owner),
    {
        self.owner == *account
    }

    /// Whether `account` is in the admin set.
    pub fn is_admin_as(&self, account: &String) -> (r: bool)
        ensures
            r == self@.admins.contains(account@),
    {
        contains_account(&self.admins, account)
    }

    /// Whether `account` may delete places and add pictures.
    pub fn is_owner_or_admin_as(&self, account: &String) -> (r: bool)
        ensures
            r == authorized(self@, account@),
    {
        self.is_owner_as(account) || self.is_admin_as(account)
    }

    /// Whether the account making the current call is the owner.
    pub fn is_owner(&self) -> (r: bool)
        ensures
            r ==> 2 <= self@.owner.len() <= 64,
    {
        let caller = caller_account();
        self.is_owner_as(&caller)
    }

    /// Whether the account making the current call is in the admin set.
    pub fn is_admin(&self) -> (r: bool)
        ensures
            r ==> exists|c: Seq<char>| self@.admins.contains(c) && 2 <= c.len() <= 64,
    {
        let caller = caller_account();
        self.is_admin_as(&caller)
    }

    /// Whether the account making the current call is the owner or an admin.
    pub fn is_owner_or_admin(&self) -> (r: bool)
        ensures
            r ==> (2 <= self@.owner.len() <= 64 || exists|c: Seq<char>|
                self@.admins.contains(c) && 2 <= c.len() <= 64),
    {
        let caller = caller_account();
        self.is_owner_or_admin_as(&caller)
    }

    /// Casts the vote of `voter` on the place with `place_id`: it replaces that
    /// voter's earlier vote or is appended, and the place's counter and average
    /// are recomputed. Fails with `NotFound`, changing nothing, when no stored
    /// place carries the id.
    pub fn vote_as(&mut self, voter: String, place_id: u64, vote: i8, feedback: Option<String>) -> (r:
        Result<(), StoreError>)
        requires
            old(self).wf(),
            forall|i: int|
                0 <= i < old(self)@.places.len() && (#[trigger] old(self)@.places[i]).id == place_id
                    ==> has_vote_room(old(self)@.places[i], voter@),
        ensures
            final(self).wf(),
            match r {
                Ok(()) => has_place(old(self)@, place_id) && final(self)@ == with_vote(
                    old(self)@,
                    place_id,
                    VoteView { account_id: voter@, vote_value: vote, feedback: opt_text_view(feedback) },
                ),
                Err(e) => e == StoreError::NotFound && !has_place(old(self)@, place_id) && final(self)@ == old(self)@,
            },
    {
        let ghost s = self@;
        let ghost v = VoteView { account_id: voter@, vote_value: vote, feedback: opt_text_view(feedback) };
        match self.position_of(place_id) {
            None => Err(StoreError::NotFound),
            Some(i) => {
                let mut place = self.places[i].duplicate();
                assert(s.places[i as int] == place@);
                record_vote(&mut place, voter, vote, feedback);
                self.places.set(i, place);
                assert forall|j: int| 0 <= j < s.places.len() && j != i implies #[trigger] s.places[j].id
                    != place_id by {
                    if j < i {
                        assert(s.places[j].id != s.places[i as int].id);
                    } else {
                        assert(s.places[i as int].id != s.places[j].id);
                    }
                }
                assert(self@.places =~= with_vote(s, place_id, v).places);
                Ok(())
            },
        }
    }

    /// Casts the vote of the account making the current call; see `vote_as`.
    pub fn vote(&mut self, place_id: u64, vote: i8, feedback: Option<String>) -> (r: Result<
        (),
        StoreError,
    >)
        requires
            old(self).wf(),
            forall|i: int|
                0 <= i < old(self)@.places.len() && (#[trigger] old(self)@.places[i]).id == place_id
                    ==> old(self)@.places[i].votes.len() < i32::MAX,
        ensures
            final(self).wf(),
            match r {
                Ok(()) => has_place(old(self)@, place_id) && exists|voter: Seq<char>|
                    final(self)@ == with_vote(
                        old(self)@,
                        place_id,
                        VoteView { account_id: voter, vote_value: vote, feedback: opt_text_view(feedback) },
                    ),
                Err(e) => e == StoreError::NotFound && !has_place(old(self)@, place_id) && final(self)@ == old(self)@,
            },
    {
        let voter = caller_account();
        let ghost c = voter@;
        let r = self.vote_as(voter, place_id, vote, feedback);
        assert(r.is_ok() ==> self@ == with_vote(
            old(self)@,
            place_id,
            VoteView { account_id: c, vote_value: vote, feedback: opt_text_view(feedback) },
        ));
        r
    }

    /// Appends `pictures` to those of the place with `place_id`, when `caller`
    /// is the owner or an admin. Fails with `AuthorizationDenied` otherwise, and
    /// with `NotFound` when no stored place carries the id; a failure changes nothing.
    pub fn add_picture_to_place_as(&mut self, caller: &String, place_id: u64, pictures: Vec<String>) -> (r:
        Result<(), StoreError>)
        requires
            old(self).wf(),
        ensures
            final(self).wf(),
            match r {
                Ok(()) => authorized(old(self)@, caller@) && has_place(old(self)@, place_id) && final(self)@ == with_pictures(old(self)@, place_id, texts_view(pictures@)),
                Err(e) => final(self)@ == old(self)@ && if !authorized(old(self)@, caller@) {
                    e == StoreError::AuthorizationDenied
                } else {
                    e == StoreError::NotFound && !has_place(old(self)@, place_id)
                },
            },
    {
        if !self.is_owner_or_admin_as(caller) {
            return Err(StoreError::AuthorizationDenied);
        }
        let ghost s = self@;
        let ghost added = texts_view(pictures@);
        match self.position_of(place_id) {
            None => Err(StoreError::NotFound),
            Some(i) => {
                let mut place = self.places[i].duplicate();
                let mut pictures = pictures;
                place.pictures.append(&mut pictures);
                assert(place@.pictures =~= s.places[i as int].pictures + added);
                self.places.set(i, place);
                assert forall|j: int| 0 <= j < s.places.len() && j != i implies #[trigger] s.places[j].id
                    != place_id by {
                    if j < i {
                        assert(s.places[j].id != s.places[i as int].id);
                    } else {
                        assert(s.places[i as int].id != s.places[j].id);
                    }
                }
                assert(self@.places =~= with_pictures(s, place_id, added).places);
                Ok(())
            },
        }
    }

    /// Appends pictures on behalf of the account making the current call; see
    /// `add_picture_to_place_as`.
    pub fn add_picture_to_place(&mut self, place_id: u64, pictures: Vec<String>) -> (r: Result<
        (),
        StoreError,
    >)
        requires
            old(self).wf(),
        ensures
            final(self).wf(),
            match r {
                Ok(()) => has_place(old(self)@, place_id) && final(self)@ == with_pictures(
                    old(self)@,
                    place_id,
                    texts_view(pictures@),
                ),
                Err(e) => final(self)@ == old(self)@ && (e == StoreError::AuthorizationDenied || (e
                    == StoreError::NotFound && !has_place(old(self)@, place_id))),
            },
    {
        let caller = caller_account();
        self.add_picture_to_place_as(&caller, place_id, pictures)
    }

    /// Swap-removes the place with `place_id`, when `caller` is the owner or an
    /// admin: the last place moves into its position. Fails with
    /// `AuthorizationDenied` otherwise, and with `NotFound` when no stored place
    /// carries the id; a failure changes nothing.
    pub fn remove_place_as(&mut self, caller: &String, place_id: u64) -> (r: Result<(), StoreError>)
        requires
            old(self).wf(),
        ensures
            final(self).wf(),
            match r {
                Ok(()) => authorized(old(self)@, caller@) && has_place(old(self)@, place_id) && final(self)@ == removed(old(self)@, place_id),
                Err(e) => final(self)@ == old(self)@ && if !authorized(old(self)@, caller@) {
                    e == StoreError::AuthorizationDenied
                } else {
                    e == StoreError::NotFound && !has_place(old(self)@, place_id)
                },
            },
    {
        if !self.is_owner_or_admin_as(caller) {
            return Err(StoreError::AuthorizationDenied);
        }
        let ghost s = self@;
        match self.position_of(place_id) {
            None => Err(StoreError::NotFound),
            Some(i) => {
                self.places.swap_remove(i);
                assert(self@.places =~= removed(s, place_id).places);
                assert forall|j: int| 0 <= j < self@.places.len() implies (j == i && #[trigger] self@.places[j]
                    == s.places.last()) || self@.places[j] == s.places[j] by {}
                Ok(())
            },
        }
    }

    /// Removes a place on behalf of the account making the current call; see
    /// `remove_place_as`.
    pub fn remove_place(&mut self, place_id: u64) -> (r: Result<(), StoreError>)
        requires
            old(self).wf(),
        ensures
            final(self).wf(),
            match r {
                Ok(()) => has_place(old(self)@, place_id) && final(self)@ == removed(old(self)@, place_id),
                Err(e) => final(self)@ == old(self)@ && (e == StoreError::AuthorizationDenied || (e
                    == StoreError::NotFound && !has_place(old(self)@, place_id))),
            },
    {
        let caller = caller_account();
        self.remove_place_as(&caller, place_id)
    }
}

/// The account that owns a store made by default.
pub const DEFAULT_OWNER: &'static str = "wendersonpires.testnet";

impl Default for Contract {
    fn default() -> (r: Contract)
        ensures
            r.wf(),
            r@ == initial(DEFAULT_OWNER@, Set::empty()),
    {
        Contract::new(DEFAULT_OWNER.to_owned(), None)
    }
}

} // verus!
