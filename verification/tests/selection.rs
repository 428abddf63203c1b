use blindbox::inventory::InventoryLedger;
use blindbox::selector::matched_tier;
use blindbox::selector::check_winner;
use blindbox::selector::Tier;
use blindbox::BlindBoxType;

fn ledger(
    ksm: u32,
    nuum: u32,
    collectable: u32,
    hat: u32,
    jacket: u32,
    pant: u32,
    shoes: u32,
) -> InventoryLedger {
    InventoryLedger {
        available_ksm: ksm,
        available_nuum: nuum,
        available_collectable_nft: collectable,
        available_nft_hat: hat,
        available_nft_jacket: jacket,
        available_nft_pant: pant,
        available_nft_shoes: shoes,
    }
}

#[test]
fn tier_partition_is_exhaustive_over_the_full_range() {
    // For every second-stage draw value, exactly one or zero of the five
    // tier residue classes holds, and the selector agrees with it.
    for r in 0u32..=10000 {
        let collectable = r % 10000 == 0;
        let shoes = r % 20 == 0 && r % 10000 != 0;
        let split = r % 10 == 0 && r % 20 != 0;
        let hat = r % 5 == 0 && r % 10 != 0;
        let nuum = r % 4 == 0 && r % 5 != 0;
        let hits =
            [collectable, shoes, split, hat, nuum].iter().filter(|b| **b).count();
        assert!(hits <= 1);
        let expected = if collectable {
            Some(Tier::CollectableNft)
        } else if shoes {
            Some(Tier::Shoes)
        } else if split {
            Some(Tier::ThreeWaySplit)
        } else if hat {
            Some(Tier::Hat)
        } else if nuum {
            Some(Tier::Nuum)
        } else {
            None
        };
        assert_eq!(matched_tier(r, 10000), expected);
    }
}

#[test]
fn no_win_rate_is_exactly_one_fifth() {
    // Deterministic arithmetic property over a range divisible by five.
    let over_half_open = (0u32..10000).filter(|r| r % 5 == 0).count();
    assert_eq!(over_half_open, 2000);
    assert_eq!(over_half_open * 5, 10000);
    // Over the inclusive range both ends are multiples of five.
    let over_inclusive = (0u32..=10000).filter(|r| r % 5 == 0).count();
    assert_eq!(over_inclusive, 2001);
}

#[test]
fn check_winner_awards_the_rarest_tier_exactly_once() {
    let mut l = ledger(0, 0, 1, 0, 0, 0, 0);
    let (won, item) = check_winner(&mut l, 9, 42, 10000, 0, 0, 0);
    assert!(won);
    assert_eq!(item.recipient, 9);
    assert_eq!(item.blindbox_id, 42);
    assert_eq!(item.blindbox_type, BlindBoxType::CollectableNFT);
    assert_eq!(item.amount, 1);
    assert_eq!(l.available_collectable_nft, 0);
    // Same draw again: the tier matches but the inventory is gone.
    let (won2, _) = check_winner(&mut l, 9, 43, 10000, 0, 0, 0);
    assert!(!won2);
    assert_eq!(l.available_collectable_nft, 0);
}

#[test]
fn check_winner_without_any_matching_residue_is_no_win() {
    let mut l = ledger(10, 10, 10, 10, 10, 10, 10);
    let (won, _) = check_winner(&mut l, 9, 42, 10000, 7, 0, 0);
    assert!(!won);
    assert_eq!(l, ledger(10, 10, 10, 10, 10, 10, 10));
}

#[test]
fn check_and_deduct_fails_closed() {
    let mut l = ledger(100, 0, 0, 0, 0, 0, 0);
    assert!(!l.check_and_deduct(BlindBoxType::KSM, 500));
    assert_eq!(l.available_ksm, 100);
    assert!(l.check_and_deduct(BlindBoxType::KSM, 100));
    assert_eq!(l.available_ksm, 0);
}

#[test]
fn cumulative_deductions_never_exceed_the_ceiling() {
    // Four award attempts against a ceiling of three events: exactly three
    // are granted and the counter ends at zero, never below.
    let mut l = ledger(0, 3, 0, 0, 0, 0, 0);
    let mut granted = 0u32;
    for _ in 0..4 {
        if l.check_and_deduct(BlindBoxType::NUUM, 1) {
            granted += 1;
        }
    }
    assert_eq!(granted, 3);
    assert_eq!(l.available_nuum, 0);
}

#[test]
fn garment_variants_share_one_counter() {
    let mut l = ledger(0, 0, 0, 2, 0, 0, 0);
    assert!(l.check_and_deduct(BlindBoxType::MainnetNFTHat1, 1));
    assert!(l.check_and_deduct(BlindBoxType::MainnetNFTHat2, 1));
    assert!(!l.check_and_deduct(BlindBoxType::MainnetNFTHat1, 1));
    assert_eq!(l.available_nft_hat, 0);
}
