//! Per-category inventory counters with atomic check-and-deduct.

use vstd::prelude::*;

use crate::types::BlindBoxType;

verus! {

/// The inventory slot a reward category draws from. The two cosmetic
/// variants of each garment resolve to the same slot.
#[derive(Clone, Copy, PartialEq, Eq, Structural, Debug)]
pub enum CounterKey {
    Ksm,
    Nuum,
    CollectableNft,
    NftHat,
    NftJacket,
    NftPant,
    NftShoes,
}

/// The mapping table from reward category to inventory slot.
pub open spec fn counter_of(t: BlindBoxType) -> CounterKey {
    match t {
        BlindBoxType::KSM => CounterKey::Ksm,
        BlindBoxType::NUUM => CounterKey::Nuum,
        BlindBoxType::CollectableNFT => CounterKey::CollectableNft,
        BlindBoxType::MainnetNFTHat1 | BlindBoxType::MainnetNFTHat2 => CounterKey::NftHat,
        BlindBoxType::MainnetNFTJacket1 | BlindBoxType::MainnetNFTJacket2 => CounterKey::NftJacket,
        BlindBoxType::MainnetNFTPants1 | BlindBoxType::MainnetNFTPants2 => CounterKey::NftPant,
        BlindBoxType::MainnetNFTShoes1 | BlindBoxType::MainnetNFTShoes2 => CounterKey::NftShoes,
    }
}

/// The remaining-quantity counters, one per inventory slot. Counters are
/// mutated only by administrators (set to a fresh ceiling) or by a granted
/// deduction; a deduction that would underflow fails closed and changes
/// nothing.
#[derive(Clone, Copy, PartialEq, Eq, Structural, Debug)]
pub struct InventoryLedger {
    pub available_ksm: u32,
    pub available_nuum: u32,
    pub available_collectable_nft: u32,
    pub available_nft_hat: u32,
    pub available_nft_jacket: u32,
    pub available_nft_pant: u32,
    pub available_nft_shoes: u32,
}

impl InventoryLedger {
    /// What one slot currently holds.
    pub open spec fn remaining(self, c: CounterKey) -> u32 {
        match c {
            CounterKey::Ksm => self.available_ksm,
            CounterKey::Nuum => self.available_nuum,
            CounterKey::CollectableNft => self.available_collectable_nft,
            CounterKey::NftHat => self.available_nft_hat,
            CounterKey::NftJacket => self.available_nft_jacket,
            CounterKey::NftPant => self.available_nft_pant,
            CounterKey::NftShoes => self.available_nft_shoes,
        }
    }

    /// The ledger with one slot replaced.
    pub open spec fn with_counter(self, c: CounterKey, v: u32) -> InventoryLedger {
        match c {
            CounterKey::Ksm => InventoryLedger { available_ksm: v, ..self },
            CounterKey::Nuum => InventoryLedger { available_nuum: v, ..self },
            CounterKey::CollectableNft => InventoryLedger { available_collectable_nft: v, ..self },
            CounterKey::NftHat => InventoryLedger { available_nft_hat: v, ..self },
            CounterKey::NftJacket => InventoryLedger { available_nft_jacket: v, ..self },
            CounterKey::NftPant => InventoryLedger { available_nft_pant: v, ..self },
            CounterKey::NftShoes => InventoryLedger { available_nft_shoes: v, ..self },
        }
    }

    /// One atomic check-and-deduct step: the new ledger, and whether the
    /// deduction was granted.
    pub open spec fn spec_check_and_deduct(self, t: BlindBoxType, amount: u32) -> (InventoryLedger, bool) {
        let c = counter_of(t);
        if self.remaining(c) >= amount {
            (self.with_counter(c, (self.remaining(c) - amount) as u32), true)
        } else {
            (self, false)
        }
    }

    /// Reads the counter the category maps to; if it holds at least
    /// `distributed_amount`, deducts that much and reports availability,
    /// otherwise leaves every counter untouched and reports exhaustion.
    pub fn check_and_deduct(&mut self, blindbox_type: BlindBoxType, distributed_amount: u32) -> (available: bool)
        ensures
            (*final(self), available) == old(self).spec_check_and_deduct(blindbox_type, distributed_amount),
    {
        match blindbox_type {
            BlindBoxType::KSM => {
                let available_amount = self.available_ksm;
                if available_amount >= distributed_amount {
                    self.available_ksm = available_amount - distributed_amount;
                    return true;
                }
                false
            }
            BlindBoxType::NUUM => {
                let available_amount = self.available_nuum;
                if available_amount >= distributed_amount {
                    self.available_nuum = available_amount - distributed_amount;
                    return true;
                }
                false
            }
            BlindBoxType::CollectableNFT => {
                let available_amount = self.available_collectable_nft;
                if available_amount >= distributed_amount {
                    self.available_collectable_nft = available_amount - distributed_amount;
                    return true;
                }
                false
            }
            BlindBoxType::MainnetNFTHat1 | BlindBoxType::MainnetNFTHat2 => {
                let available_amount = self.available_nft_hat;
                if available_amount >= distributed_amount {
                    self.available_nft_hat = available_amount - distributed_amount;
                    return true;
                }
                false
            }
            BlindBoxType::MainnetNFTJacket1 | BlindBoxType::MainnetNFTJacket2 => {
                let available_amount = self.available_nft_jacket;
                if available_amount >= distributed_amount {
                    self.available_nft_jacket = available_amount - distributed_amount;
                    return true;
                }
                false
            }
            BlindBoxType::MainnetNFTPants1 | BlindBoxType::MainnetNFTPants2 => {
                let available_amount = self.available_nft_pant;
                if available_amount >= distributed_amount {
                    self.available_nft_pant = available_amount - distributed_amount;
                    return true;
                }
                false
            }
            BlindBoxType::MainnetNFTShoes1 | BlindBoxType::MainnetNFTShoes2 => {
                let available_amount = self.available_nft_shoes;
                if available_amount >= distributed_amount {
                    self.available_nft_shoes = available_amount - distributed_amount;
                    return true;
                }
                false
            }
        }
    }
}

/// The ledger after a whole sequence of deduction requests, each applied with
/// `spec_check_and_deduct` (refused requests change nothing).
pub open spec fn apply_deduct_requests(l: InventoryLedger, reqs: Seq<(BlindBoxType, u32)>) -> InventoryLedger
    decreases reqs.len(),
{
    if reqs.len() == 0 {
        l
    } else {
        apply_deduct_requests(l.spec_check_and_deduct(reqs[0].0, reqs[0].1).0, reqs.drop_first())
    }
}

/// The total amount granted against one slot over a sequence of deduction
/// requests.
pub open spec fn deducted_total(l: InventoryLedger, reqs: Seq<(BlindBoxType, u32)>, c: CounterKey) -> nat
    decreases reqs.len(),
{
    if reqs.len() == 0 {
        0
    } else {
        let step = l.spec_check_and_deduct(reqs[0].0, reqs[0].1);
        let here: nat = if step.1 && counter_of(reqs[0].0) == c {
            reqs[0].1 as nat
        } else {
            0
        };
        here + deducted_total(step.0, reqs.drop_first(), c)
    }
}

/// Conservation: over any sequence of deduction requests, what a slot grants
/// plus what it still holds is exactly what it held at the start — so the
/// cumulative deducted amount never exceeds the ceiling an administrator last
/// set, and no counter ever goes below zero.
pub proof fn lemma_conservation(l: InventoryLedger, reqs: Seq<(BlindBoxType, u32)>, c: CounterKey)
    ensures
        deducted_total(l, reqs, c) + apply_deduct_requests(l, reqs).remaining(c) == l.remaining(c),
        deducted_total(l, reqs, c) <= l.remaining(c),
    decreases reqs.len(),
{
    if reqs.len() == 0 {
    } else {
        let step = l.spec_check_and_deduct(reqs[0].0, reqs[0].1);
        lemma_conservation(step.0, reqs.drop_first(), c);
    }
}

} // verus!
