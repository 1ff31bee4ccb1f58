use subnets::uids::{Error, Event, Pallet as UidsPallet};

#[test]
fn test_generate_uid() {
    let mut pallet = UidsPallet::new();
    let user: u64 = 1;

    assert!(pallet.generate_uid(user).is_ok());

    let uid = pallet.get_uid(user).unwrap();
    assert!(uid > 0); // Ensure UID is non-zero
}

#[test]
fn test_uid_uniqueness() {
    let mut pallet = UidsPallet::new();
    let user1: u64 = 1;
    let user2: u64 = 2;

    assert!(pallet.generate_uid(user1).is_ok());
    assert!(pallet.generate_uid(user2).is_ok());

    let uid1 = pallet.get_uid(user1).unwrap();
    let uid2 = pallet.get_uid(user2).unwrap();

    assert_ne!(uid1, uid2); // Ensure UIDs are unique
}

#[test]
fn generated_ids_follow_the_counter() {
    let mut pallet = UidsPallet::new();
    assert_eq!(pallet.get_last_uid(), 0);
    assert_eq!(pallet.generate_uid(7), Ok(1));
    assert_eq!(pallet.generate_uid(8), Ok(2));
    assert_eq!(pallet.get_last_uid(), 2);
    assert!(pallet.is_active(1));
    assert!(pallet.is_active(2));
    assert!(!pallet.is_active(3));
    assert_eq!(
        pallet.events(),
        &vec![Event::UidGenerated(7, 1), Event::UidGenerated(8, 2)]
    );
}

#[test]
fn second_generation_rebinds_and_keeps_old_id_active() {
    let mut pallet = UidsPallet::new();
    assert_eq!(pallet.generate_uid(5), Ok(1));
    assert_eq!(pallet.generate_uid(5), Ok(2));
    assert_eq!(pallet.get_uid(5), Some(2));
    assert!(pallet.is_active(1));
    assert!(pallet.is_active(2));
}

#[test]
fn revoke_frees_the_id_but_not_the_counter() {
    let mut pallet = UidsPallet::new();
    assert_eq!(pallet.generate_uid(3), Ok(1));
    assert_eq!(pallet.revoke_uid(3), Ok(()));
    assert_eq!(pallet.get_uid(3), None);
    assert!(!pallet.is_active(1));
    assert_eq!(pallet.get_last_uid(), 1);
    assert_eq!(pallet.generate_uid(4), Ok(2));
    assert_eq!(pallet.events().last(), Some(&Event::UidGenerated(4, 2)));
    assert_eq!(pallet.events()[1], Event::UidRevoked(3, 1));
}

#[test]
fn revoke_without_id_fails() {
    let mut pallet = UidsPallet::new();
    assert_eq!(pallet.revoke_uid(9), Err(Error::UidNotFound));
    assert!(pallet.events().is_empty());
    assert_eq!(pallet.generate_uid(9), Ok(1));
    assert_eq!(pallet.revoke_uid(9), Ok(()));
    assert_eq!(pallet.revoke_uid(9), Err(Error::UidNotFound));
}
