use blindbox::Config;
use blindbox::Error;
use blindbox::Event;
use blindbox::Origin;
use blindbox::Pallet;
use blindbox::RandomDraws;

const CREATOR: u64 = 77;

fn engine_with_cap(cap: u32) -> Pallet {
    let mut p = Pallet::new(Config {
        max_number_of_blindbox: cap,
        max_ksm_allowed: 200000,
        max_nuum_box_allowed: 100,
        max_collectable_nft_allowed: 10,
        max_nft_hat_allowed: 10,
        max_nft_jacket_allowed: 10,
        max_nft_pant_allowed: 10,
        max_nft_shoes_allowed: 10,
    });
    p.set_blindbox_caller(Origin::Root, CREATOR).unwrap();
    p
}

// A first-stage draw of 0 hits the no-win residue, so the box is consumed
// without touching any inventory.
fn no_win_draws() -> RandomDraws {
    RandomDraws { first: 0, second: 0, third: 0, fourth: 0 }
}

#[test]
fn generate_requires_the_designated_caller() {
    let mut p = engine_with_cap(100);
    let draws = vec![1, 2, 3];
    assert_eq!(
        p.generate_blindbox_ids(Origin::Signed(5), 3, &draws),
        Err(Error::NoPermission)
    );
    assert_eq!(p.generate_blindbox_ids(Origin::Root, 3, &draws), Err(Error::NoPermission));
    assert_eq!(p.all_blindboxes_count(), 0);
}

#[test]
fn generate_skips_collisions_and_keeps_ids_unique() {
    let mut p = engine_with_cap(100);
    let draws = vec![7, 7, 8, 9, 9, 10];
    assert_eq!(
        p.generate_blindbox_ids(Origin::Signed(CREATOR), 3, &draws),
        Ok(Event::BlindBoxIdGenerated(vec![7, 8, 9]))
    );
    assert_eq!(p.all_blindboxes_count(), 3);
    assert!(p.get_blindboxes(7));
    assert!(p.get_blindboxes(8));
    assert!(p.get_blindboxes(9));
    assert!(!p.get_blindboxes(10));
}

#[test]
fn generate_halts_at_the_iteration_cap() {
    let mut p = engine_with_cap(2);
    let draws = vec![1, 2, 3, 4, 5];
    assert_eq!(
        p.generate_blindbox_ids(Origin::Signed(CREATOR), 5, &draws),
        Ok(Event::BlindBoxIdGenerated(vec![1, 2]))
    );
    assert_eq!(p.all_blindboxes_count(), 2);
}

#[test]
fn standard_reseed_needs_full_depletion() {
    let mut p = engine_with_cap(100);
    let draws = vec![1, 2, 3];
    p.generate_blindbox_ids(Origin::Signed(CREATOR), 3, &draws).unwrap();
    assert_eq!(p.all_blindboxes_count(), 3);
    // Reseed requested while count = 3 (not zero): rejected.
    assert_eq!(
        p.generate_blindbox_ids(Origin::Signed(CREATOR), 3, &vec![4, 5, 6]),
        Err(Error::BlindBoxesStillAvailable)
    );
    // After those 3 boxes are redeemed (count reaches 0), reseed succeeds.
    for id in [1u32, 2, 3] {
        p.open_blind_box(Origin::Signed(8), id, true, no_win_draws()).unwrap();
    }
    assert_eq!(p.all_blindboxes_count(), 0);
    assert_eq!(
        p.generate_blindbox_ids(Origin::Signed(CREATOR), 3, &vec![4, 5, 6]),
        Ok(Event::BlindBoxIdGenerated(vec![4, 5, 6]))
    );
    assert_eq!(p.all_blindboxes_count(), 3);
}

#[test]
fn special_generation_needs_the_designated_caller() {
    let mut p = engine_with_cap(100);
    assert_eq!(
        p.generate_special_blindbox_ids(Origin::Signed(5), 1, &vec![1]),
        Err(Error::NoPermission)
    );
}

#[test]
fn special_pool_tops_up_without_depletion() {
    let mut p = engine_with_cap(100);
    assert_eq!(
        p.generate_special_blindbox_ids(Origin::Signed(CREATOR), 2, &vec![1, 2]),
        Ok(Event::BlindBoxIdGenerated(vec![1, 2]))
    );
    assert_eq!(p.all_special_blindboxes_count(), 2);
    // No depletion precondition: topping up while boxes remain succeeds, and
    // a draw colliding with a live special id is skipped.
    assert_eq!(
        p.generate_special_blindbox_ids(Origin::Signed(CREATOR), 2, &vec![2, 3, 4]),
        Ok(Event::BlindBoxIdGenerated(vec![3, 4]))
    );
    assert_eq!(p.all_special_blindboxes_count(), 4);
    assert!(p.get_special_blindboxes(1));
    assert!(p.get_special_blindboxes(4));
    // The standard pool is untouched.
    assert_eq!(p.all_blindboxes_count(), 0);
}

#[test]
fn special_generation_stops_when_the_draws_run_out() {
    let mut p = engine_with_cap(100);
    assert_eq!(
        p.generate_special_blindbox_ids(Origin::Signed(CREATOR), 5, &vec![1, 1, 2]),
        Ok(Event::BlindBoxIdGenerated(vec![1, 2]))
    );
    assert_eq!(p.all_special_blindboxes_count(), 2);
}
