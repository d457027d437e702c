use gwyneth_revm::gas::Gas;
use gwyneth_revm::specification::SpecId;
use gwyneth_revm::taiko_specification::{HeklaSpec, OntakeSpec, TaikoProtocolSpec, TaikoProtocolSpecId};
use std::collections::HashMap;

#[test]
fn gas_new_has_nothing_spent() {
    let g = Gas::new(1000);
    assert_eq!(g.limit(), 1000);
    assert_eq!(g.remaining(), 1000);
    assert_eq!(g.spent(), 0);
    assert_eq!(g.refunded(), 0);
    assert_eq!(g.memory(), 0);
    assert!(g.used_per_chain().is_empty());
}

#[test]
fn gas_new_spent_has_nothing_remaining() {
    let g = Gas::new_spent(700);
    assert_eq!(g.limit(), 700);
    assert_eq!(g.remaining(), 0);
    assert_eq!(g.spent(), 700);
}

#[test]
fn gas_record_cost_takes_cost_and_counts_it_per_chain() {
    let mut g = Gas::new(100);
    assert!(g.record_cost(7, 30));
    assert_eq!(g.remaining(), 70);
    assert_eq!(g.spent(), 30);
    assert_eq!(g.used_per_chain().get(&7), Some(&30));
    assert!(g.record_cost(8, 20));
    assert!(g.record_cost(7, 50));
    assert_eq!(g.remaining(), 0);
    assert_eq!(g.used_per_chain().get(&7), Some(&80));
    assert_eq!(g.used_per_chain().get(&8), Some(&20));
}

#[test]
fn gas_record_cost_over_remaining_changes_nothing() {
    let mut g = Gas::new(100);
    assert!(!g.record_cost(1, 101));
    assert_eq!(g.remaining(), 100);
    assert!(g.used_per_chain().is_empty());
}

#[test]
fn gas_erase_cost_undoes_record_cost() {
    let mut g = Gas::new(100);
    assert!(g.record_cost(1, 40));
    g.erase_cost(40);
    assert_eq!(g.remaining(), 100);
    assert_eq!(g.spent(), 0);
}

#[test]
fn gas_spend_all_spends_the_limit() {
    let mut g = Gas::new(123);
    g.spend_all();
    assert_eq!(g.remaining(), 0);
    assert_eq!(g.spent(), 123);
}

#[test]
fn gas_remaining_63_of_64_parts_value() {
    let g = Gas::new(6400);
    assert_eq!(g.remaining_63_of_64_parts(), 6300);
    let g = Gas::new(63);
    assert_eq!(g.remaining_63_of_64_parts(), 63);
}

#[test]
fn gas_refund_records_and_sets() {
    let mut g = Gas::new(100);
    g.record_refund(10);
    g.record_refund(-3);
    assert_eq!(g.refunded(), 7);
    g.set_refund(42);
    assert_eq!(g.refunded(), 42);
}

#[test]
fn gas_final_refund_capped_by_quotient() {
    // London: cap is spent / 5.
    let mut g = Gas::new(1000);
    assert!(g.record_cost(1, 500));
    g.record_refund(300);
    g.set_final_refund(true);
    assert_eq!(g.refunded(), 100);

    // Before London: cap is spent / 2.
    let mut g = Gas::new(1000);
    assert!(g.record_cost(1, 500));
    g.record_refund(300);
    g.set_final_refund(false);
    assert_eq!(g.refunded(), 250);

    // Below the cap the refund stays.
    let mut g = Gas::new(1000);
    assert!(g.record_cost(1, 500));
    g.record_refund(20);
    g.set_final_refund(true);
    assert_eq!(g.refunded(), 20);
}

#[test]
fn gas_final_refund_of_negative_refund_is_the_cap() {
    let mut g = Gas::new(1000);
    assert!(g.record_cost(1, 500));
    g.record_refund(-1);
    g.set_final_refund(true);
    assert_eq!(g.refunded(), 100);
}

#[test]
fn gas_track_used_per_chain_replaces_record() {
    let mut g = Gas::new(10);
    let mut used = HashMap::new();
    used.insert(3u64, 9u64);
    g.track_used_per_chain(used);
    assert_eq!(g.used_per_chain().get(&3), Some(&9));
    assert_eq!(g.used_per_chain().len(), 1);
    assert!(g.record_cost(3, 4));
    assert_eq!(g.used_per_chain().get(&3), Some(&13));
}

#[test]
fn gas_clone_and_default() {
    let mut g = Gas::new(10);
    assert!(g.record_cost(2, 4));
    let c = g.clone();
    assert_eq!(c.remaining(), 6);
    assert_eq!(c.limit(), 10);
    let d = Gas::default();
    assert_eq!(d.limit(), 0);
    assert_eq!(d.remaining(), 0);
}

#[test]
fn spec_id_order() {
    assert!(SpecId::PRAGUE.is_enabled_in(SpecId::CANCUN));
    assert!(!SpecId::CANCUN.is_enabled_in(SpecId::PRAGUE));
    assert!(SpecId::LATEST.is_enabled_in(SpecId::PRAGUE_EOF));
    assert!(SpecId::enabled(SpecId::SHANGHAI, SpecId::SHANGHAI));
    assert_eq!(SpecId::PRAGUE_EOF.to_u8(), 19);
    assert_eq!(SpecId::LATEST.to_u8(), 255);
}

#[test]
fn taiko_spec_names_round_trip() {
    for id in [TaikoProtocolSpecId::HEKLA, TaikoProtocolSpecId::ONTAKE, TaikoProtocolSpecId::TAIKOLATEST] {
        assert_eq!(TaikoProtocolSpecId::from_name(id.name()), id);
    }
    assert_eq!(TaikoProtocolSpecId::from_name("Hekla"), TaikoProtocolSpecId::HEKLA);
    assert_eq!(TaikoProtocolSpecId::from_name("Ontake"), TaikoProtocolSpecId::ONTAKE);
    assert_eq!(TaikoProtocolSpecId::from_name("Something"), TaikoProtocolSpecId::TAIKOLATEST);
    assert_eq!(TaikoProtocolSpecId::HEKLA.name(), "Hekla");
    assert_eq!(TaikoProtocolSpecId::TAIKOLATEST.name(), "TaikoLatest");
}

#[test]
fn taiko_spec_numbers_round_trip() {
    assert_eq!(TaikoProtocolSpecId::try_from_u8(0), Some(TaikoProtocolSpecId::HEKLA));
    assert_eq!(TaikoProtocolSpecId::try_from_u8(1), Some(TaikoProtocolSpecId::ONTAKE));
    assert_eq!(TaikoProtocolSpecId::try_from_u8(255), Some(TaikoProtocolSpecId::TAIKOLATEST));
    assert_eq!(TaikoProtocolSpecId::try_from_u8(2), None);
    assert_eq!(TaikoProtocolSpecId::ONTAKE.to_u8(), 1);
    assert_eq!(TaikoProtocolSpecId::default(), TaikoProtocolSpecId::TAIKOLATEST);
}

#[test]
fn taiko_spec_activation_order() {
    assert!(TaikoProtocolSpecId::ONTAKE.is_enabled_in(TaikoProtocolSpecId::HEKLA));
    assert!(!TaikoProtocolSpecId::HEKLA.is_enabled_in(TaikoProtocolSpecId::ONTAKE));
    assert!(TaikoProtocolSpecId::enabled(TaikoProtocolSpecId::TAIKOLATEST, TaikoProtocolSpecId::ONTAKE));
    assert!(OntakeSpec::enabled(TaikoProtocolSpecId::HEKLA));
    assert!(OntakeSpec::enabled(TaikoProtocolSpecId::ONTAKE));
    assert!(!HeklaSpec::enabled(TaikoProtocolSpecId::ONTAKE));
    assert_eq!(HeklaSpec::protocol_spec_id(), TaikoProtocolSpecId::HEKLA);
}
