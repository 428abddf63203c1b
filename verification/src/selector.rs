//! The two-stage tiered reward selection.

use vstd::prelude::*;

use crate::inventory::InventoryLedger;
use crate::types::BlindBoxRewardItem;
use crate::types::BlindBoxType;
use vstd::arithmetic::div_mod::lemma_mod_mod;
use vstd::arithmetic::div_mod::lemma_mod_multiples_vanish;

verus! {

/// Upper bound of both probability ranges: draws are reduced modulo
/// `MAX_RANGE + 1`.
pub const MAX_RANGE: u32 = 10000;

/// Highest NUUM quantity (in raw units) one win can draw.
pub const MAX_NUUM_AMOUNT: u32 = 20;

/// Scale factor from a drawn NUUM quantity to the recorded amount.
pub const NUUM_UNIT_MULTIPLIER: u32 = 10000;

/// KSM budget units consumed and awarded by one KSM win.
pub const DISTRIBUTE_KSM_AMOUNT: u32 = 500;

/// One ordered probability bracket of the second-stage selection.
#[derive(Clone, Copy, PartialEq, Eq, Structural, Debug)]
pub enum Tier {
    CollectableNft,
    Shoes,
    ThreeWaySplit,
    Hat,
    Nuum,
}

/// The ordered, mutually exclusive tier checks: each test is reached only if
/// every earlier one failed, so at most one tier fires per draw.
pub open spec fn spec_tier_of(r: u32, max_number: u32) -> Option<Tier> {
    if r % max_number == 0 {
        Some(Tier::CollectableNft)
    } else if r % 20 == 0 {
        Some(Tier::Shoes)
    } else if r % 10 == 0 {
        Some(Tier::ThreeWaySplit)
    } else if r % 5 == 0 {
        Some(Tier::Hat)
    } else if r % 4 == 0 {
        Some(Tier::Nuum)
    } else {
        None
    }
}

/// Which tier a second-stage draw falls in, if any.
pub fn matched_tier(r: u32, max_number: u32) -> (t: Option<Tier>)
    requires
        max_number > 0,
    ensures
        t == spec_tier_of(r, max_number),
{
    if r % max_number == 0 {
        Some(Tier::CollectableNft)
    } else if r % 20 == 0 {
        Some(Tier::Shoes)
    } else if r % 10 == 0 {
        Some(Tier::ThreeWaySplit)
    } else if r % 5 == 0 {
        Some(Tier::Hat)
    } else if r % 4 == 0 {
        Some(Tier::Nuum)
    } else {
        None
    }
}

/// Exhaustive partition: with the full range of 10000, the five ordered tier
/// checks carve the draw values into disjoint residue classes — for every
/// draw, exactly one tier fires or none does, and each tier is exactly the
/// residue class stated here.
pub proof fn lemma_tier_partition(r: u32)
    ensures
        (spec_tier_of(r, MAX_RANGE) == Some(Tier::CollectableNft)) <==> (r % 10000 == 0),
        (spec_tier_of(r, MAX_RANGE) == Some(Tier::Shoes)) <==> (r % 20 == 0 && r % 10000 != 0),
        (spec_tier_of(r, MAX_RANGE) == Some(Tier::ThreeWaySplit)) <==> (r % 10 == 0 && r % 20 != 0),
        (spec_tier_of(r, MAX_RANGE) == Some(Tier::Hat)) <==> (r % 5 == 0 && r % 10 != 0),
        (spec_tier_of(r, MAX_RANGE) == Some(Tier::Nuum)) <==> (r % 4 == 0 && r % 5 != 0),
        (spec_tier_of(r, MAX_RANGE) is None) <==> (r % 4 != 0 && r % 5 != 0),
{
    lemma_mod_mod(r as int, 20, 500);
    lemma_mod_mod(r as int, 10, 1000);
    lemma_mod_mod(r as int, 5, 2000);
    lemma_mod_mod(r as int, 10, 2);
    lemma_mod_mod(r as int, 5, 4);
    lemma_mod_mod(r as int, 5, 2);
    assert(r % 10000 == 0 ==> r % 20 == 0);
    assert(r % 20 == 0 ==> r % 10 == 0);
    assert(r % 10 == 0 ==> r % 5 == 0);
}

/// How many draw values in `[0, n)` hit the first-stage no-win residue.
pub open spec fn no_win_count(n: nat) -> nat
    decreases n,
{
    if n == 0 {
        0
    } else {
        no_win_count((n - 1) as nat) + if ((n - 1) as nat) % 5 == 0 {
            1nat
        } else {
            0nat
        }
    }
}

/// No-win rate: over any range `[0, 5k)` of first-stage draw values, exactly
/// one fifth hit the no-win residue `draw % 5 == 0`. (Over the inclusive
/// range `[0, MAX_RANGE]` the count is `MAX_RANGE / 5 + 1`, since both ends
/// are multiples of five.)
pub proof fn lemma_no_win_rate(k: nat)
    ensures
        no_win_count(5 * k) == k,
    decreases k,
{
    if k == 0 {
    } else {
        let m = (k - 1) as nat;
        lemma_no_win_rate(m);
        let b = 5 * m;
        lemma_mod_multiples_vanish(m as int, 0, 5);
        lemma_mod_multiples_vanish(m as int, 1, 5);
        lemma_mod_multiples_vanish(m as int, 2, 5);
        lemma_mod_multiples_vanish(m as int, 3, 5);
        lemma_mod_multiples_vanish(m as int, 4, 5);
        assert(b % 5 == 0 && (b + 1) % 5 == 1 && (b + 2) % 5 == 2 && (b + 3) % 5 == 3 && (b + 4)
            % 5 == 4);
        assert(no_win_count((b + 1) as nat) == no_win_count(b) + 1);
        assert(no_win_count((b + 2) as nat) == no_win_count((b + 1) as nat));
        assert(no_win_count((b + 3) as nat) == no_win_count((b + 2) as nat));
        assert(no_win_count((b + 4) as nat) == no_win_count((b + 3) as nat));
        assert(no_win_count((b + 5) as nat) == no_win_count((b + 4) as nat));
        assert(5 * k == b + 5);
    }
}

/// One run of the second-stage selection, as a mathematical function of the
/// ledger and the raw draws: the ledger afterwards, whether the redemption
/// won, and the receipt describing the award (meaningful only on a win).
pub open spec fn spec_check_winner(
    l: InventoryLedger,
    owner: u64,
    blindbox_id: u32,
    max_number: u32,
    random_number: u32,
    extra1: u32,
    extra2: u32,
) -> (InventoryLedger, bool, BlindBoxRewardItem) {
    let base = BlindBoxRewardItem {
        recipient: owner,
        amount: 0,
        blindbox_type: BlindBoxType::NUUM,
        blindbox_id,
    };
    match spec_tier_of(random_number, max_number) {
        Some(Tier::CollectableNft) => {
            let step = l.spec_check_and_deduct(BlindBoxType::CollectableNFT, 1);
            if step.1 {
                (
                    step.0,
                    true,
                    (BlindBoxRewardItem {
                        amount: 1,
                        blindbox_type: BlindBoxType::CollectableNFT,
                        ..base
                    }),
                )
            } else {
                (step.0, false, base)
            }
        },
        Some(Tier::Shoes) => {
            let step = l.spec_check_and_deduct(BlindBoxType::MainnetNFTShoes1, 1);
            if step.1 {
                let ty = if extra1 % 2 == 0 {
                    BlindBoxType::MainnetNFTShoes1
                } else {
                    BlindBoxType::MainnetNFTShoes2
                };
                (step.0, true, (BlindBoxRewardItem { amount: 1, blindbox_type: ty, ..base }))
            } else {
                (step.0, false, base)
            }
        },
        Some(Tier::ThreeWaySplit) => {
            if extra1 % 3 == 0 {
                let step = l.spec_check_and_deduct(BlindBoxType::KSM, DISTRIBUTE_KSM_AMOUNT);
                if step.1 {
                    (
                        step.0,
                        true,
                        (BlindBoxRewardItem {
                            amount: DISTRIBUTE_KSM_AMOUNT,
                            blindbox_type: BlindBoxType::KSM,
                            ..base
                        }),
                    )
                } else {
                    (step.0, false, base)
                }
            } else if extra1 % 3 == 1 {
                let step = l.spec_check_and_deduct(BlindBoxType::MainnetNFTJacket1, 1);
                if step.1 {
                    let ty = if extra2 % 2 == 0 {
                        BlindBoxType::MainnetNFTJacket1
                    } else {
                        BlindBoxType::MainnetNFTJacket2
                    };
                    (step.0, true, (BlindBoxRewardItem { amount: 1, blindbox_type: ty, ..base }))
                } else {
                    (step.0, false, base)
                }
            } else {
                let step = l.spec_check_and_deduct(BlindBoxType::MainnetNFTPants1, 1);
                if step.1 {
                    let ty = if extra2 % 2 == 0 {
                        BlindBoxType::MainnetNFTPants1
                    } else {
                        BlindBoxType::MainnetNFTPants2
                    };
                    (step.0, true, (BlindBoxRewardItem { amount: 1, blindbox_type: ty, ..base }))
                } else {
                    (step.0, false, base)
                }
            }
        },
        Some(Tier::Hat) => {
            let step = l.spec_check_and_deduct(BlindBoxType::MainnetNFTHat1, 1);
            if step.1 {
                let ty = if extra1 % 2 == 0 {
                    BlindBoxType::MainnetNFTHat1
                } else {
                    BlindBoxType::MainnetNFTHat2
                };
                (step.0, true, (BlindBoxRewardItem { amount: 1, blindbox_type: ty, ..base }))
            } else {
                (step.0, false, base)
            }
        },
        Some(Tier::Nuum) => {
            let nuum_amount = extra1 % ((MAX_NUUM_AMOUNT + 1) as u32);
            let step = l.spec_check_and_deduct(BlindBoxType::NUUM, 1);
            if step.1 {
                (
                    step.0,
                    true,
                    (BlindBoxRewardItem {
                        amount: ((nuum_amount * NUUM_UNIT_MULTIPLIER) as u32),
                        blindbox_type: BlindBoxType::NUUM,
                        ..base
                    }),
                )
            } else {
                (step.0, false, base)
            }
        },
        None => (l, false, base),
    }
}

/// Runs the second-stage selection against the live ledger. A matched tier
/// whose inventory is exhausted is a silent pass to "no win", never a
/// fallback to a later tier. A NUUM win records the scaled quantity
/// `(extra1 % (MAX_NUUM_AMOUNT + 1)) * NUUM_UNIT_MULTIPLIER` but consumes
/// exactly one unit of the NUUM counter.
pub fn check_winner(
    ledger: &mut InventoryLedger,
    owner: u64,
    blindbox_id: u32,
    max_number: u32,
    random_number: u32,
    extra1: u32,
    extra2: u32,
) -> (r: (bool, BlindBoxRewardItem))
    requires
        max_number > 0,
    ensures
        ({
            let (l2, won, item) = spec_check_winner(
                *old(ledger),
                owner,
                blindbox_id,
                max_number,
                random_number,
                extra1,
                extra2,
            );
            *final(ledger) == l2 && r.0 == won && r.1 == item
        }),
{
    let mut blindbox_reward_item = BlindBoxRewardItem {
        recipient: owner,
        amount: 0,
        blindbox_type: BlindBoxType::NUUM,
        blindbox_id,
    };
    let mut is_winning = false;

    match matched_tier(random_number, max_number) {
        Some(Tier::CollectableNft) => {
            let available = ledger.check_and_deduct(BlindBoxType::CollectableNFT, 1);
            if available {
                blindbox_reward_item.blindbox_type = BlindBoxType::CollectableNFT;
                blindbox_reward_item.amount = 1;
                is_winning = true;
            }
        },
        Some(Tier::Shoes) => {
            let available = ledger.check_and_deduct(BlindBoxType::MainnetNFTShoes1, 1);
            if available {
                if extra1 % 2 == 0 {
                    blindbox_reward_item.blindbox_type = BlindBoxType::MainnetNFTShoes1;
                } else {
                    blindbox_reward_item.blindbox_type = BlindBoxType::MainnetNFTShoes2;
                }
                blindbox_reward_item.amount = 1;
                is_winning = true;
            }
        },
        Some(Tier::ThreeWaySplit) => {
            let reminder = extra1 % 3;
            if reminder == 0 {
                let available = ledger.check_and_deduct(BlindBoxType::KSM, DISTRIBUTE_KSM_AMOUNT);
                if available {
                    blindbox_reward_item.amount = DISTRIBUTE_KSM_AMOUNT;
                    blindbox_reward_item.blindbox_type = BlindBoxType::KSM;
                    is_winning = true;
                }
            } else if reminder == 1 {
                let available = ledger.check_and_deduct(BlindBoxType::MainnetNFTJacket1, 1);
                if available {
                    if extra2 % 2 == 0 {
                        blindbox_reward_item.blindbox_type = BlindBoxType::MainnetNFTJacket1;
                    } else {
                        blindbox_reward_item.blindbox_type = BlindBoxType::MainnetNFTJacket2;
                    }
                    blindbox_reward_item.amount = 1;
                    is_winning = true;
                }
            } else {
                let available = ledger.check_and_deduct(BlindBoxType::MainnetNFTPants1, 1);
                if available {
                    if extra2 % 2 == 0 {
                        blindbox_reward_item.blindbox_type = BlindBoxType::MainnetNFTPants1;
                    } else {
                        blindbox_reward_item.blindbox_type = BlindBoxType::MainnetNFTPants2;
                    }
                    blindbox_reward_item.amount = 1;
                    is_winning = true;
                }
            }
        },
        Some(Tier::Hat) => {
            let available = ledger.check_and_deduct(BlindBoxType::MainnetNFTHat1, 1);
            if available {
                if extra1 % 2 == 0 {
                    blindbox_reward_item.blindbox_type = BlindBoxType::MainnetNFTHat1;
                } else {
                    blindbox_reward_item.blindbox_type = BlindBoxType::MainnetNFTHat2;
                }
                blindbox_reward_item.amount = 1;
                is_winning = true;
            }
        },
        Some(Tier::Nuum) => {
            let nuum_amount = extra1 % (MAX_NUUM_AMOUNT + 1);
            let distributed_amount = nuum_amount * NUUM_UNIT_MULTIPLIER;
            let available = ledger.check_and_deduct(BlindBoxType::NUUM, 1);
            if available {
                blindbox_reward_item.amount = distributed_amount;
                blindbox_reward_item.blindbox_type = BlindBoxType::NUUM;
                is_winning = true;
            }
        },
        None => {},
    }

    (is_winning, blindbox_reward_item)
}

} // verus!
