use subnets::hashing::{account_id_digest, encode_account};
use subnets::registration::{
    aggregate_results, DrillMechanism, DrillTestResult, DrillTestType, Error, Event, Metric,
    Pallet as RegistrationPallet, MIN_STAKE,
};

const KING: u64 = 1;
const QUEEN: u64 = 2;
const STRANGER: u64 = 3;

fn mechanism() -> DrillMechanism {
    DrillMechanism {
        test_name: b"MLPerf".to_vec(),
        test_type: DrillTestType::Training,
        performance_metrics: vec![Metric { name: b"Accuracy".to_vec(), target_value_bits: 0.9f64.to_bits() }],
    }
}

fn result(success: bool) -> DrillTestResult {
    DrillTestResult { success, metrics: vec![("Accuracy".to_string(), 95.0f64.to_bits())] }
}

fn registry_with_subnet() -> (RegistrationPallet, (u128, u128)) {
    let mut pallet = RegistrationPallet::new();
    let id = pallet
        .create_subnet(KING, MIN_STAKE, b"vision".to_vec(), b"mission".to_vec(), mechanism())
        .unwrap();
    (pallet, id)
}

fn digest_of(who: u64) -> (u128, u128) {
    let d = sp_crypto_hashing::blake2_256(&who.to_le_bytes());
    let mut hi = [0u8; 16];
    let mut lo = [0u8; 16];
    hi.copy_from_slice(&d[..16]);
    lo.copy_from_slice(&d[16..]);
    (u128::from_be_bytes(hi), u128::from_be_bytes(lo))
}

#[test]
fn account_encoding_is_little_endian() {
    assert_eq!(encode_account(0x0102030405060708), vec![8, 7, 6, 5, 4, 3, 2, 1]);
}

#[test]
fn subnet_id_is_the_digest_of_the_coordinator() {
    assert_eq!(account_id_digest(KING), digest_of(KING));
    assert_ne!(account_id_digest(KING), account_id_digest(QUEEN));
    let (_pallet, id) = registry_with_subnet();
    assert_eq!(id, digest_of(KING));
}

#[test]
fn create_subnet_stores_an_active_empty_subnet() {
    let (pallet, id) = registry_with_subnet();
    let subnet = pallet.subnets(id).unwrap();
    assert_eq!(subnet.king, KING);
    assert_eq!(subnet.vision, b"vision".to_vec());
    assert_eq!(subnet.mission, b"mission".to_vec());
    assert!(subnet.queens.is_empty());
    assert!(subnet.providers.is_empty());
    assert_eq!(subnet.drill_mechanism, mechanism());
    assert!(subnet.active);
    assert_eq!(
        pallet.events(),
        &vec![Event::SubnetCreated(KING, id), Event::DrillMechanismSpecified(id, mechanism())]
    );
}

#[test]
fn create_subnet_needs_the_minimum_stake() {
    let mut pallet = RegistrationPallet::new();
    let r = pallet.create_subnet(KING, MIN_STAKE - 1, vec![], vec![], mechanism());
    assert_eq!(r, Err(Error::InsufficientStake));
    assert!(pallet.subnets(account_id_digest(KING)).is_none());
    assert!(pallet.events().is_empty());
}

#[test]
fn create_subnet_twice_fails() {
    let (mut pallet, id) = registry_with_subnet();
    let r = pallet.create_subnet(KING, MIN_STAKE, b"other".to_vec(), vec![], mechanism());
    assert_eq!(r, Err(Error::SubnetAlreadyExists));
    assert_eq!(pallet.subnets(id).unwrap().vision, b"vision".to_vec());
    assert_eq!(pallet.events().len(), 2);
}

#[test]
fn coordinator_adds_queens_and_providers_with_repeats() {
    let (mut pallet, id) = registry_with_subnet();
    assert_eq!(pallet.add_queen(KING, id, QUEEN), Ok(()));
    assert_eq!(pallet.add_queen(KING, id, QUEEN), Ok(()));
    assert_eq!(pallet.add_provider(KING, id, 10), Ok(()));
    let subnet = pallet.subnets(id).unwrap();
    assert_eq!(subnet.queens, vec![QUEEN, QUEEN]);
    assert_eq!(subnet.providers, vec![10]);
    assert_eq!(pallet.events()[2], Event::QueenAdded(id, QUEEN));
    assert_eq!(pallet.events()[4], Event::ProviderAdded(id, 10));
}

#[test]
fn unauthorized_add_queen_changes_nothing() {
    let (mut pallet, id) = registry_with_subnet();
    assert_eq!(pallet.add_queen(STRANGER, id, STRANGER), Err(Error::Unauthorized));
    assert!(pallet.subnets(id).unwrap().queens.is_empty());
    assert_eq!(pallet.events().len(), 2);
    assert_eq!(pallet.add_provider(QUEEN, id, 10), Err(Error::Unauthorized));
    assert!(pallet.subnets(id).unwrap().providers.is_empty());
}

#[test]
fn roles_on_unknown_subnet_fail() {
    let mut pallet = RegistrationPallet::new();
    let id = account_id_digest(KING);
    assert_eq!(pallet.add_queen(KING, id, QUEEN), Err(Error::SubnetNotFound));
    assert_eq!(pallet.add_provider(KING, id, 10), Err(Error::SubnetNotFound));
    assert_eq!(pallet.validate_subnet(KING, id, &vec![]), Err(Error::SubnetNotFound));
}

fn validate_with(outcomes: &[bool], by: u64) -> (Result<(), Error>, bool) {
    let (mut pallet, id) = registry_with_subnet();
    pallet.add_queen(KING, id, QUEEN).unwrap();
    for (i, _) in outcomes.iter().enumerate() {
        pallet.add_provider(KING, id, 100 + i as u64).unwrap();
    }
    let results: Vec<(u64, DrillTestResult)> =
        outcomes.iter().enumerate().map(|(i, s)| (100 + i as u64, result(*s))).collect();
    let r = pallet.validate_subnet(by, id, &results);
    (r, pallet.subnets(id).unwrap().active)
}

#[test]
fn three_of_four_passing_keeps_subnet_active() {
    assert_eq!(validate_with(&[true, true, false, true], KING), (Ok(()), true));
}

#[test]
fn two_of_three_passing_makes_subnet_inactive() {
    assert_eq!(validate_with(&[true, false, true], QUEEN), (Ok(()), false));
}

#[test]
fn no_providers_makes_subnet_inactive() {
    assert_eq!(validate_with(&[], KING), (Ok(()), false));
}

#[test]
fn stranger_cannot_validate() {
    assert_eq!(validate_with(&[false], STRANGER), (Err(Error::Unauthorized), true));
}

#[test]
fn validation_is_announced() {
    let (mut pallet, id) = registry_with_subnet();
    assert_eq!(pallet.validate_subnet(KING, id, &vec![]), Ok(()));
    assert_eq!(pallet.events().last(), Some(&Event::SubnetValidated(id)));
}

#[test]
fn aggregate_results_thresholds() {
    let pairs = |v: &[bool]| -> Vec<(u64, DrillTestResult)> {
        v.iter().map(|s| (0, result(*s))).collect()
    };
    assert!(aggregate_results(&pairs(&[true, true, true, false])));
    assert!(!aggregate_results(&pairs(&[true, true, false])));
    assert!(aggregate_results(&pairs(&[true])));
    assert!(!aggregate_results(&pairs(&[])));
    assert!(!aggregate_results(&pairs(&[false, false, false, true])));
}
