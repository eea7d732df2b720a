use vstd::prelude::*;

pub mod contract;
pub mod host;
pub mod laws;
pub mod types;
pub mod utils;
pub mod votes;

pub use contract::{Contract, StoreError};
pub use types::{Address, Place, PlaceInput, VoteMeta};
pub use utils::account_vec_to_set;

verus! {

} // verus!
