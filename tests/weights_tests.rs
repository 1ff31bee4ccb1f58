use subnets::weights::{RuntimeDbWeight, Weight, WeightInfo};

fn info() -> WeightInfo {
    WeightInfo { db_weight: RuntimeDbWeight { read: 25_000_000, write: 100_000_000 } }
}

#[test]
fn whitelist_call_weight() {
    let w = info().whitelist_call();
    assert_eq!(w, Weight { ref_time: 16_200_000 + 2 * 25_000_000 + 2 * 100_000_000, proof_size: 3556 });
}

#[test]
fn remove_whitelisted_call_weight() {
    let w = info().remove_whitelisted_call();
    assert_eq!(w, Weight { ref_time: 14_266_000 + 50_000_000 + 200_000_000, proof_size: 3556 });
}

#[test]
fn dispatch_whitelisted_call_weight_grows_with_length() {
    let w = info().dispatch_whitelisted_call(10);
    assert_eq!(
        w,
        Weight { ref_time: 23_284_000 + 12_040 + 75_000_000 + 300_000_000, proof_size: 3858 + 10 }
    );
}

#[test]
fn dispatch_with_preimage_weight() {
    let w = info().dispatch_whitelisted_call_with_preimage(100);
    assert_eq!(
        w,
        Weight { ref_time: 17_191_619 + 109_400 + 50_000_000 + 200_000_000, proof_size: 3556 }
    );
}

#[test]
fn weights_saturate() {
    let big = WeightInfo { db_weight: RuntimeDbWeight { read: u64::MAX, write: 1 } };
    assert_eq!(big.whitelist_call().ref_time, u64::MAX);
    let w = Weight::from_parts(u64::MAX - 1, 5).saturating_add(Weight::from_parts(10, 5));
    assert_eq!(w, Weight { ref_time: u64::MAX, proof_size: 10 });
    assert_eq!(Weight::from_parts(3, u64::MAX).saturating_mul(2), Weight { ref_time: 6, proof_size: u64::MAX });
}
