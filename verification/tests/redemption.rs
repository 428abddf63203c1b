use blindbox::BlindBoxRewardItem;
use blindbox::BlindBoxType;
use blindbox::Config;
use blindbox::Error;
use blindbox::Event;
use blindbox::Origin;
use blindbox::Pallet;
use blindbox::RandomDraws;

const CREATOR: u64 = 77;
const USER: u64 = 8;

fn engine() -> Pallet {
    let mut p = Pallet::new(Config {
        max_number_of_blindbox: 100,
        max_ksm_allowed: 200000,
        max_nuum_box_allowed: 100,
        max_collectable_nft_allowed: 10,
        max_nft_hat_allowed: 10,
        max_nft_jacket_allowed: 10,
        max_nft_pant_allowed: 10,
        max_nft_shoes_allowed: 10,
    });
    p.set_blindbox_caller(Origin::Root, CREATOR).unwrap();
    p
}

fn engine_with_boxes(ids: &[u32]) -> Pallet {
    let mut p = engine();
    let draws: Vec<u32> = ids.to_vec();
    p.generate_blindbox_ids(Origin::Signed(CREATOR), ids.len() as u32, &draws).unwrap();
    p
}

// first = 1 misses the no-win residue; `second` then selects the tier.
fn draws(second: u32, third: u32, fourth: u32) -> RandomDraws {
    RandomDraws { first: 1, second, third, fourth }
}

#[test]
fn open_unknown_box_is_rejected() {
    let mut p = engine();
    assert_eq!(
        p.open_blind_box(Origin::Signed(USER), 42, true, draws(0, 0, 0)),
        Err(Error::BlindBoxDoesNotExist)
    );
}

#[test]
fn open_needs_a_signed_origin() {
    let mut p = engine_with_boxes(&[1]);
    assert_eq!(
        p.open_blind_box(Origin::Root, 1, true, draws(0, 0, 0)),
        Err(Error::NoPermission)
    );
    assert!(p.get_blindboxes(1));
}

#[test]
fn failed_fee_transfer_aborts_without_consuming_the_box() {
    let mut p = engine_with_boxes(&[1]);
    assert_eq!(
        p.open_blind_box(Origin::Signed(USER), 1, false, draws(0, 0, 0)),
        Err(Error::PaymentFailed)
    );
    assert!(p.get_blindboxes(1));
    assert_eq!(p.all_blindboxes_count(), 1);
}

#[test]
fn blacklisted_account_is_rejected_after_the_fee() {
    let mut p = engine_with_boxes(&[1]);
    p.add_new_blacklist(Origin::Root, USER).unwrap();
    assert_eq!(
        p.open_blind_box(Origin::Signed(USER), 1, true, draws(0, 0, 0)),
        Err(Error::BlacklistReported)
    );
    // The box survives; only the externally charged fee is lost.
    assert!(p.get_blindboxes(1));
}

#[test]
fn first_stage_no_win_consumes_the_box() {
    let mut p = engine_with_boxes(&[1]);
    // first = 0 hits the no-win residue: no inventory is touched.
    let d = RandomDraws { first: 0, second: 10000, third: 0, fourth: 0 };
    assert_eq!(
        p.open_blind_box(Origin::Signed(USER), 1, true, d),
        Ok(Event::BlindBoxGoodLuckNextTime(USER, 1))
    );
    assert!(!p.get_blindboxes(1));
    assert_eq!(p.all_blindboxes_count(), 0);
    assert_eq!(p.get_blindbox_rewards(1, USER), None);
}

#[test]
fn a_box_cannot_be_redeemed_twice() {
    let mut p = engine_with_boxes(&[1, 2]);
    assert_eq!(
        p.open_blind_box(Origin::Signed(USER), 1, true, draws(3, 0, 0)),
        Ok(Event::BlindBoxGoodLuckNextTime(USER, 1))
    );
    assert_eq!(
        p.open_blind_box(Origin::Signed(USER), 1, true, draws(3, 0, 0)),
        Err(Error::BlindBoxDoesNotExist)
    );
    assert_eq!(p.all_blindboxes_count(), 1);
}

#[test]
fn scarce_collectable_is_never_awarded_twice() {
    let mut p = engine_with_boxes(&[1, 2]);
    p.set_available_collectable_nft(Origin::Root, 1).unwrap();
    // second = 10000 hits the rarest tier: second % 10000 == 0.
    let d = draws(10000, 0, 0);
    assert_eq!(
        p.open_blind_box(Origin::Signed(USER), 1, true, d),
        Ok(Event::BlindBoxOpened(USER, 1, BlindBoxType::CollectableNFT, 1))
    );
    assert_eq!(p.get_available_collectablenft(), 0);
    assert_eq!(
        p.get_blindbox_rewards(1, USER),
        Some(BlindBoxRewardItem {
            recipient: USER,
            amount: 1,
            blindbox_type: BlindBoxType::CollectableNFT,
            blindbox_id: 1,
        })
    );
    // The second redemption hits the same tier, but the inventory is
    // exhausted: a silent pass to "no win", never a second award.
    assert_eq!(
        p.open_blind_box(Origin::Signed(USER), 2, true, d),
        Ok(Event::BlindBoxGoodLuckNextTime(USER, 2))
    );
    assert_eq!(p.get_available_collectablenft(), 0);
    assert_eq!(p.get_blindbox_rewards(2, USER), None);
}

#[test]
fn nuum_win_deducts_one_event_but_records_the_scaled_quantity() {
    let mut p = engine_with_boxes(&[3]);
    p.set_available_nuum(Origin::Root, 1).unwrap();
    // second = 4 reaches the NUUM tier (4 % 4 == 0, no earlier residue);
    // third = 7 draws a quantity of 7 units, scaled by 10000.
    assert_eq!(
        p.open_blind_box(Origin::Signed(USER), 3, true, draws(4, 7, 0)),
        Ok(Event::BlindBoxOpened(USER, 3, BlindBoxType::NUUM, 70000))
    );
    // Exactly 1 unit left the ceiling counter, not 7.
    assert_eq!(p.get_available_nuum(), 0);
    assert_eq!(
        p.get_blindbox_rewards(3, USER),
        Some(BlindBoxRewardItem {
            recipient: USER,
            amount: 70000,
            blindbox_type: BlindBoxType::NUUM,
            blindbox_id: 3,
        })
    );
}

#[test]
fn hat_tier_variant_follows_the_parity_draw() {
    let mut p = engine_with_boxes(&[1, 2]);
    p.set_available_nft_hat(Origin::Root, 10).unwrap();
    // second = 5 reaches the hat tier (5 % 5 == 0, no earlier residue).
    assert_eq!(
        p.open_blind_box(Origin::Signed(USER), 1, true, draws(5, 2, 0)),
        Ok(Event::BlindBoxOpened(USER, 1, BlindBoxType::MainnetNFTHat1, 1))
    );
    assert_eq!(
        p.open_blind_box(Origin::Signed(USER), 2, true, draws(5, 3, 0)),
        Ok(Event::BlindBoxOpened(USER, 2, BlindBoxType::MainnetNFTHat2, 1))
    );
    assert_eq!(p.get_available_nft_hat(), 8);
}

#[test]
fn shoes_tier_variant_follows_the_parity_draw() {
    let mut p = engine_with_boxes(&[1, 2]);
    p.set_available_nft_shoes(Origin::Root, 2).unwrap();
    // second = 20 reaches the shoes tier (20 % 20 == 0, not the rarest).
    assert_eq!(
        p.open_blind_box(Origin::Signed(USER), 1, true, draws(20, 0, 0)),
        Ok(Event::BlindBoxOpened(USER, 1, BlindBoxType::MainnetNFTShoes1, 1))
    );
    assert_eq!(
        p.open_blind_box(Origin::Signed(USER), 2, true, draws(20, 1, 0)),
        Ok(Event::BlindBoxOpened(USER, 2, BlindBoxType::MainnetNFTShoes2, 1))
    );
    assert_eq!(p.get_available_nft_shoes(), 0);
}

#[test]
fn three_way_split_awards_ksm_jacket_or_pants() {
    let mut p = engine_with_boxes(&[1, 2, 3]);
    p.set_available_ksm(Origin::Root, 200000).unwrap();
    p.set_available_nft_jacket(Origin::Root, 5).unwrap();
    p.set_available_nft_pant(Origin::Root, 5).unwrap();
    // second = 10 reaches the three-way split (10 % 10 == 0, no earlier
    // residue); third % 3 picks the branch.
    assert_eq!(
        p.open_blind_box(Origin::Signed(USER), 1, true, draws(10, 3, 0)),
        Ok(Event::BlindBoxOpened(USER, 1, BlindBoxType::KSM, 500))
    );
    assert_eq!(p.get_available_ksm(), 199500);
    assert_eq!(
        p.open_blind_box(Origin::Signed(USER), 2, true, draws(10, 4, 1)),
        Ok(Event::BlindBoxOpened(USER, 2, BlindBoxType::MainnetNFTJacket2, 1))
    );
    assert_eq!(p.get_available_nft_jacket(), 4);
    assert_eq!(
        p.open_blind_box(Origin::Signed(USER), 3, true, draws(10, 5, 0)),
        Ok(Event::BlindBoxOpened(USER, 3, BlindBoxType::MainnetNFTPants1, 1))
    );
    assert_eq!(p.get_available_nft_pant(), 4);
}

#[test]
fn matched_tier_with_empty_inventory_passes_silently() {
    let mut p = engine_with_boxes(&[1]);
    // Hat tier matched, but the hat counter was never funded.
    assert_eq!(
        p.open_blind_box(Origin::Signed(USER), 1, true, draws(5, 0, 0)),
        Ok(Event::BlindBoxGoodLuckNextTime(USER, 1))
    );
    assert_eq!(p.get_blindbox_rewards(1, USER), None);
    assert!(!p.get_blindboxes(1));
}

#[test]
fn special_boxes_follow_the_same_algorithm_on_their_own_pool() {
    let mut p = engine();
    p.set_available_nft_hat(Origin::Root, 1).unwrap();
    p.generate_special_blindbox_ids(Origin::Signed(CREATOR), 1, &vec![6]).unwrap();
    assert_eq!(p.all_special_blindboxes_count(), 1);
    assert_eq!(
        p.open_blind_box(Origin::Signed(USER), 6, true, draws(5, 0, 0)),
        Ok(Event::BlindBoxOpened(USER, 6, BlindBoxType::MainnetNFTHat1, 1))
    );
    assert_eq!(p.all_special_blindboxes_count(), 0);
    assert!(!p.get_special_blindboxes(6));
    assert_eq!(
        p.open_blind_box(Origin::Signed(USER), 6, true, draws(5, 0, 0)),
        Err(Error::BlindBoxDoesNotExist)
    );
}
