use places_store::{account_vec_to_set, Address, Contract, PlaceInput, StoreError};

fn input(name: &str, pictures: Vec<String>) -> PlaceInput {
    PlaceInput {
        name: name.to_string(),
        address: Address {
            address: "Savassi".to_string(),
            country: "Brazil".to_string(),
            state_or_province: "Minas Gerais".to_string(),
            city: "Belo Horizonte".to_string(),
        },
        description: format!("about {name}"),
        pictures,
        place_type: "food".to_string(),
    }
}

fn store_with(n: usize) -> Contract {
    let mut c = Contract::new("owner.near".to_string(), Some(vec!["admin.near".to_string()]));
    for k in 0..n {
        c.add_place(input(&format!("place {k}"), vec![]));
    }
    c
}

fn ids(c: &Contract) -> Vec<u64> {
    c.get_places().iter().map(|p| p.id).collect()
}

#[test]
fn ids_keep_increasing_after_removals() {
    let mut c = store_with(3);
    assert_eq!(ids(&c), vec![0, 1, 2]);
    c.remove_place_as(&"owner.near".to_string(), 2).unwrap();
    c.add_place(input("late", vec![]));
    assert_eq!(ids(&c), vec![0, 1, 3]);
    c.remove_place_as(&"owner.near".to_string(), 0).unwrap();
    c.add_place(input("later", vec![]));
    let got = ids(&c);
    assert_eq!(got, vec![3, 1, 4]);
    assert!(c.get_places_by_id(2).is_none());
}

#[test]
fn same_voter_twice_keeps_only_latest() {
    let mut c = store_with(1);
    c.vote_as("ana.near".to_string(), 0, 2, None).unwrap();
    let p = c.get_places_by_id(0).unwrap();
    assert_eq!((p.avarage_votes, p.votes_counter, p.votes.len()), (2, 1, 1));
    c.vote_as("ana.near".to_string(), 0, 5, Some("better".to_string())).unwrap();
    let p = c.get_places_by_id(0).unwrap();
    assert_eq!((p.avarage_votes, p.votes_counter, p.votes.len()), (5, 1, 1));
    assert_eq!(p.votes[0].feedback, Some("better".to_string()));
}

#[test]
fn distinct_voters_average_truncates() {
    let mut c = store_with(1);
    for (who, v) in [("a.near", 5i8), ("b.near", 1), ("c.near", 3), ("d.near", 4)] {
        c.vote_as(who.to_string(), 0, v, None).unwrap();
    }
    let p = c.get_places_by_id(0).unwrap();
    assert_eq!(p.avarage_votes, 3);
    assert_eq!(p.votes_counter, 4);
}

#[test]
fn negative_average_truncates_toward_zero() {
    let mut c = store_with(1);
    c.vote_as("a.near".to_string(), 0, -3, None).unwrap();
    c.vote_as("b.near".to_string(), 0, -4, None).unwrap();
    assert_eq!(c.get_places_by_id(0).unwrap().avarage_votes, -3);
}

#[test]
fn extreme_votes_do_not_overflow() {
    let mut c = store_with(1);
    c.vote_as("a.near".to_string(), 0, 127, None).unwrap();
    c.vote_as("b.near".to_string(), 0, 127, None).unwrap();
    c.vote_as("c.near".to_string(), 0, 126, None).unwrap();
    assert_eq!(c.get_places_by_id(0).unwrap().avarage_votes, 126);
    c.vote_as("a.near".to_string(), 0, -128, None).unwrap();
    c.vote_as("b.near".to_string(), 0, -128, None).unwrap();
    c.vote_as("c.near".to_string(), 0, -128, None).unwrap();
    assert_eq!(c.get_places_by_id(0).unwrap().avarage_votes, -128);
}

#[test]
fn removal_drops_exactly_one() {
    let mut c = store_with(4);
    c.vote_as("a.near".to_string(), 3, 4, None).unwrap();
    c.remove_place_as(&"admin.near".to_string(), 1).unwrap();
    let places = c.get_places();
    assert_eq!(places.len(), 3);
    assert!(c.get_places_by_id(1).is_none());
    for id in [0u64, 2, 3] {
        let p = c.get_places_by_id(id).unwrap();
        assert_eq!(p.name, format!("place {id}"));
    }
    assert_eq!(c.get_places_by_id(3).unwrap().avarage_votes, 4);
    assert_eq!(ids(&c), vec![0, 3, 2]);
}

#[test]
fn pictures_are_appended_in_order() {
    let mut c = Contract::new("owner.near".to_string(), None);
    c.add_place(input("p", vec!["a".to_string(), "b".to_string()]));
    c.add_picture_to_place_as(&"owner.near".to_string(), 0, vec!["c".to_string(), "d".to_string()])
        .unwrap();
    let p = c.get_places_by_id(0).unwrap();
    assert_eq!(p.pictures, vec!["a", "b", "c", "d"]);
}

#[test]
fn gated_operations_deny_strangers() {
    let mut c = store_with(2);
    let before = ids(&c);
    let eve = "eve.near".to_string();
    assert_eq!(c.remove_place_as(&eve, 0), Err(StoreError::AuthorizationDenied));
    assert_eq!(
        c.add_picture_to_place_as(&eve, 0, vec!["x".to_string()]),
        Err(StoreError::AuthorizationDenied)
    );
    assert_eq!(ids(&c), before);
    assert!(c.get_places_by_id(0).unwrap().pictures.is_empty());
}

#[test]
fn gated_operations_deny_default_caller_when_not_owner() {
    let mut c = store_with(1);
    assert!(!c.is_owner());
    assert!(!c.is_owner_or_admin());
    assert_eq!(c.remove_place(0), Err(StoreError::AuthorizationDenied));
    assert_eq!(c.get_places().len(), 1);
}

#[test]
fn missing_ids_are_reported() {
    let mut c = store_with(1);
    let owner = "owner.near".to_string();
    assert!(c.get_places_by_id(7).is_none());
    assert_eq!(c.vote_as("a.near".to_string(), 7, 1, None), Err(StoreError::NotFound));
    assert_eq!(c.remove_place_as(&owner, 7), Err(StoreError::NotFound));
    assert_eq!(c.add_picture_to_place_as(&owner, 7, vec![]), Err(StoreError::NotFound));
    c.remove_place_as(&owner, 0).unwrap();
    assert!(c.get_places_by_id(0).is_none());
    assert!(c.get_places().is_empty());
}

#[test]
fn owner_and_admins_are_recognised() {
    let c = Contract::new(
        "owner.near".to_string(),
        Some(vec!["a.near".to_string(), "b.near".to_string()]),
    );
    assert!(c.is_owner_as(&"owner.near".to_string()));
    assert!(!c.is_owner_as(&"a.near".to_string()));
    assert!(c.is_admin_as(&"b.near".to_string()));
    assert!(!c.is_admin_as(&"owner.near".to_string()));
    assert!(c.is_owner_or_admin_as(&"a.near".to_string()));
    assert!(!c.is_owner_or_admin_as(&"c.near".to_string()));
}

#[test]
fn caller_from_host_is_checked() {
    let c = Contract::new("bob.near".to_string(), None);
    assert!(c.is_owner());
    assert!(!c.is_admin());
    assert!(c.is_owner_or_admin());
}

#[test]
fn account_list_becomes_a_set() {
    let set = account_vec_to_set(vec![
        "x.near".to_string(),
        "y.near".to_string(),
        "x.near".to_string(),
    ]);
    assert_eq!(set, vec!["x.near".to_string(), "y.near".to_string()]);
}

#[test]
fn init_refuses_existing_state() {
    near_sdk::env::state_write(&0u8);
    assert!(matches!(
        Contract::init("bob.near".to_string(), None),
        Err(StoreError::AlreadyInitialized)
    ));
}

#[test]
fn default_store_is_empty() {
    let c = Contract::default();
    assert!(c.get_places().is_empty());
    assert!(c.is_owner_as(&"wendersonpires.testnet".to_string()));
}

#[test]
fn created_place_has_no_votes() {
    let c = store_with(1);
    let p = c.get_places_by_id(0).unwrap();
    assert_eq!((p.avarage_votes, p.votes_counter), (0, 0));
    assert_eq!(p.description, "about place 0");
    assert_eq!(p.address.city, "Belo Horizonte");
}

#[test]
fn second_store_does_not_share_admins() {
    let first = Contract::new("owner.near".to_string(), Some(vec!["a.near".to_string()]));
    let second = Contract::new("owner.near".to_string(), None);
    assert!(first.is_admin_as(&"a.near".to_string()));
    assert!(!second.is_admin_as(&"a.near".to_string()));
}

#[test]
fn parts_round_trip_keeps_the_store() {
    let mut c = store_with(3);
    c.vote_as("a.near".to_string(), 2, 4, None).unwrap();
    c.remove_place_as(&"owner.near".to_string(), 0).unwrap();
    assert_eq!(c.owner(), "owner.near");
    assert_eq!(c.admins(), vec!["admin.near".to_string()]);
    let (owner, admins, places, last_id) = c.into_parts();
    assert_eq!(last_id, 3);
    let mut back = Contract::from_parts(owner, admins, places, last_id);
    assert_eq!(back.next_id(), 3);
    assert_eq!(ids(&back), vec![2, 1]);
    assert_eq!(back.get_places_by_id(2).unwrap().avarage_votes, 4);
    assert!(back.is_admin_as(&"admin.near".to_string()));
    back.add_place(input("next", vec![]));
    assert_eq!(ids(&back), vec![2, 1, 3]);
}
