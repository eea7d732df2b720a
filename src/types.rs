use vstd::prelude::*;

verus! {

/// A postal address of a place.
#[derive(Debug)]
pub struct Address {
    pub address: String,
    pub country: String,
    pub state_or_province: String,
    pub city: String,
}

pub ghost struct AddressView {
    pub address: Seq<char>,
    pub country: Seq<char>,
    pub state_or_province: Seq<char>,
    pub city: Seq<char>,
}

impl View for Address {
    type V = AddressView;

    open spec fn view(&self) -> AddressView {
        AddressView {
            address: self.address@,
            country: self.country@,
            state_or_province: self.state_or_province@,
            city: self.city@,
        }
    }
}

impl Address {
    /// A field-by-field copy.
    pub fn duplicate(&self) -> (r: Address)
        ensures
            r@ == self@,
    {
        Address {
            address: self.address.clone(),
            country: self.country.clone(),
            state_or_province: self.state_or_province.clone(),
            city: self.city.clone(),
        }
    }
}

/// What a caller supplies to create a place.
pub struct PlaceInput {
    pub name: String,
    pub address: Address,
    pub description: String,
    pub pictures: Vec<String>,
    pub place_type: String,
}

/// One voter's current vote on a place.
#[derive(Debug)]
pub struct VoteMeta {
    pub account_id: String,
    pub vote_value: i8,
    pub feedback: Option<String>,
}

pub ghost struct VoteView {
    pub account_id: Seq<char>,
    pub vote_value: i8,
    pub feedback: Option<Seq<char>>,
}

pub open spec fn opt_text_view(o: Option<String>) -> Option<Seq<char>> {
    match o {
        Some(s) => Some(s@),
        None => None,
    }
}

impl View for VoteMeta {
    type V = VoteView;

    open spec fn view(&self) -> VoteView {
        VoteView {
            account_id: self.account_id@,
            vote_value: self.vote_value,
            feedback: opt_text_view(self.feedback),
        }
    }
}

impl VoteMeta {
    /// A field-by-field copy.
    pub fn duplicate(&self) -> (r: VoteMeta)
        ensures
            r@ == self@,
    {
        let feedback = match &self.feedback {
            Some(s) => Some(s.clone()),
            None => None,
        };
        VoteMeta { account_id: self.account_id.clone(), vote_value: self.vote_value, feedback }
    }
}

/// A catalog entry with its aggregate vote state.
#[derive(Debug)]
pub struct Place {
    pub id: u64,
    pub name: String,
    pub address: Address,
    pub description: String,
    pub place_type: String,
    pub avarage_votes: i8,
    pub votes_counter: i32,
    pub votes: Vec<VoteMeta>,
    pub pictures: Vec<String>,
}

pub ghost struct PlaceView {
    pub id: u64,
    pub name: Seq<char>,
    pub address: AddressView,
    pub description: Seq<char>,
    pub place_type: Seq<char>,
    pub avarage_votes: i8,
    pub votes_counter: i32,
    pub votes: Seq<VoteView>,
    pub pictures: Seq<Seq<char>>,
}

pub open spec fn texts_view(v: Seq<String>) -> Seq<Seq<char>> {
    v.map_values(|s: String| s@)
}

pub open spec fn votes_view(v: Seq<VoteMeta>) -> Seq<VoteView> {
    v.map_values(|m: VoteMeta| m@)
}

impl View for Place {
    type V = PlaceView;

    open spec fn view(&self) -> PlaceView {
        PlaceView {
            id: self.id,
            name: self.name@,
            address: self.address@,
            description: self.description@,
            place_type: self.place_type@,
            avarage_votes: self.avarage_votes,
            votes_counter: self.votes_counter,
            votes: votes_view(self.votes@),
            pictures: texts_view(self.pictures@),
        }
    }
}

/// Copies a list of texts.
pub fn duplicate_texts(v: &Vec<String>) -> (r: Vec<String>)
    ensures
        texts_view(r@) == texts_view(v@),
{
    let mut r: Vec<String> = Vec::new();
    let mut i: usize = 0;
    while i < v.len()
        invariant
            i <= v.len(),
            r@.len() == i,
            forall|j: int| 0 <= j < i ==> #[trigger] r@[j]@ == v@[j]@,
        decreases v.len() - i,
    {
        r.push(v[i].clone());
        i = i + 1;
    }
    assert(texts_view(r@) =~= texts_view(v@));
    r
}

/// Copies a list of votes.
pub fn duplicate_votes(v: &Vec<VoteMeta>) -> (r: Vec<VoteMeta>)
    ensures
        votes_view(r@) == votes_view(v@),
{
    let mut r: Vec<VoteMeta> = Vec::new();
    let mut i: usize = 0;
    while i < v.len()
        invariant
            i <= v.len(),
            r@.len() == i,
            forall|j: int| 0 <= j < i ==> #[trigger] r@[j]@ == v@[j]@,
        decreases v.len() - i,
    {
        r.push(v[i].duplicate());
        i = i + 1;
    }
    assert(votes_view(r@) =~= votes_view(v@));
    r
}

impl Place {
    /// A field-by-field copy.
    pub fn duplicate(&self) -> (r: Place)
        ensures
            r@ == self@,
    {
        Place {
            id: self.id,
            name: self.name.clone(),
            address: self.address.duplicate(),
            description: self.description.clone(),
            place_type: self.place_type.clone(),
            avarage_votes: self.avarage_votes,
            votes_counter: self.votes_counter,
            votes: duplicate_votes(&self.votes),
            pictures: duplicate_texts(&self.pictures),
        }
    }
}

} // verus!
