//! The redemption controller: the engine's full state and every operation on
//! it, each specified against the ghost model [`PalletModel`].

use vstd::prelude::*;

use crate::inventory::InventoryLedger;
use crate::pool::BoxPool;
use crate::pool::lemma_picked_ids_fresh;
use crate::pool::picked_ids;
use crate::selector::MAX_RANGE;
use crate::selector::check_winner;
use crate::selector::spec_check_winner;
use crate::seqs::distinct;
use crate::seqs::lemma_distinct_append;
use crate::seqs::lemma_remove_value_distinct;
use crate::seqs::lemma_to_set_contains;
use crate::types::BlindBoxRewardItem;
use crate::types::Config;
use crate::types::Error;
use crate::types::Event;
use crate::types::Origin;
use crate::types::RandomDraws;

verus! {

/// The ghost model of the whole engine: both pools with their cached counts,
/// the inventory ledger, the designated issuer, the blacklist, and every
/// redemption receipt in the order it was written.
#[verifier::ext_equal]
pub struct PalletModel {
    pub normal_ids: Seq<u32>,
    pub normal_count: u32,
    pub special_ids: Seq<u32>,
    pub special_count: u32,
    pub ledger: InventoryLedger,
    pub creator: u64,
    pub blacklist: Seq<u64>,
    pub rewards: Seq<BlindBoxRewardItem>,
    pub config: Config,
}

/// No two receipts share the key `(blindbox_id, recipient)`.
pub open spec fn reward_keys_distinct(rs: Seq<BlindBoxRewardItem>) -> bool {
    forall|i: int, j: int|
        0 <= i < j < rs.len() ==> !(rs[i].blindbox_id == rs[j].blindbox_id && rs[i].recipient
            == rs[j].recipient)
}

/// Index of the first receipt with the given key, or -1 if there is none.
pub open spec fn find_reward_index(rs: Seq<BlindBoxRewardItem>, blindbox_id: u32, recipient: u64) -> int
    decreases rs.len(),
{
    if rs.len() == 0 {
        -1
    } else if rs[0].blindbox_id == blindbox_id && rs[0].recipient == recipient {
        0
    } else {
        let r = find_reward_index(rs.drop_first(), blindbox_id, recipient);
        if r == -1 {
            -1
        } else {
            r + 1
        }
    }
}

/// What `find_reward_index` finds: the first receipt with the key, if any.
pub proof fn lemma_find_reward_index(rs: Seq<BlindBoxRewardItem>, blindbox_id: u32, recipient: u64)
    ensures
        ({
            let r = find_reward_index(rs, blindbox_id, recipient);
            &&& -1 <= r < rs.len()
            &&& r >= 0 ==> rs[r].blindbox_id == blindbox_id && rs[r].recipient == recipient
            &&& forall|k: int|
                0 <= k < rs.len() && (r == -1 || k < r) ==> !(rs[k].blindbox_id == blindbox_id
                    && rs[k].recipient == recipient)
        }),
    decreases rs.len(),
{
    if rs.len() == 0 {
    } else if rs[0].blindbox_id == blindbox_id && rs[0].recipient == recipient {
    } else {
        lemma_find_reward_index(rs.drop_first(), blindbox_id, recipient);
        let t = rs.drop_first();
        assert forall|k: int|
            0 <= k < rs.len() && (find_reward_index(rs, blindbox_id, recipient) == -1 || k
                < find_reward_index(rs, blindbox_id, recipient)) implies !(rs[k].blindbox_id
            == blindbox_id && rs[k].recipient == recipient) by {
            if k > 0 {
                assert(t[k - 1] == rs[k]);
            }
        }
    }
}

/// Writing one receipt: overwrite the receipt with the same key if one
/// exists, append otherwise.
pub open spec fn spec_save_reward(rs: Seq<BlindBoxRewardItem>, item: BlindBoxRewardItem) -> Seq<BlindBoxRewardItem> {
    let r = find_reward_index(rs, item.blindbox_id, item.recipient);
    if r >= 0 {
        rs.update(r, item)
    } else {
        rs.push(item)
    }
}

/// Writing a receipt keeps the keys unique.
pub proof fn lemma_spec_save_reward_distinct(rs: Seq<BlindBoxRewardItem>, item: BlindBoxRewardItem)
    requires
        reward_keys_distinct(rs),
    ensures
        reward_keys_distinct(spec_save_reward(rs, item)),
{
    lemma_find_reward_index(rs, item.blindbox_id, item.recipient);
    let r = find_reward_index(rs, item.blindbox_id, item.recipient);
    let out = spec_save_reward(rs, item);
    if r >= 0 {
        assert forall|i: int, j: int| 0 <= i < j < out.len() implies !(out[i].blindbox_id
            == out[j].blindbox_id && out[i].recipient == out[j].recipient) by {
            if i != r && j != r {
                assert(out[i] == rs[i] && out[j] == rs[j]);
            } else if i == r {
                assert(out[j] == rs[j]);
                assert(!(rs[j].blindbox_id == item.blindbox_id && rs[j].recipient
                    == item.recipient));
            } else {
                assert(out[i] == rs[i]);
                assert(!(rs[i].blindbox_id == item.blindbox_id && rs[i].recipient
                    == item.recipient));
            }
        }
    } else {
        assert forall|i: int, j: int| 0 <= i < j < out.len() implies !(out[i].blindbox_id
            == out[j].blindbox_id && out[i].recipient == out[j].recipient) by {
            if j == rs.len() {
                assert(out[i] == rs[i]);
                assert(out[j] == item);
            } else {
                assert(out[i] == rs[i] && out[j] == rs[j]);
            }
        }
    }
}

/// The draw stage of one redemption, after the box has already been removed
/// from its pool: the ledger and receipts afterwards, and the notification.
/// A first-stage draw hitting the no-win residue ends immediately; otherwise
/// the second-stage selection runs, a win writes a receipt, and a matched
/// tier with exhausted inventory falls through to "no win".
pub open spec fn spec_handle_open_box(
    l: InventoryLedger,
    rewards: Seq<BlindBoxRewardItem>,
    owner: u64,
    blindbox_id: u32,
    draws: RandomDraws,
) -> (InventoryLedger, Seq<BlindBoxRewardItem>, Event) {
    let random_number = draws.first % ((MAX_RANGE + 1) as u32);
    if random_number % 5 == 0 {
        (l, rewards, Event::BlindBoxGoodLuckNextTime(owner, blindbox_id))
    } else {
        let random_number2 = draws.second % ((MAX_RANGE + 1) as u32);
        let step = spec_check_winner(
            l,
            owner,
            blindbox_id,
            MAX_RANGE,
            random_number2,
            draws.third,
            draws.fourth,
        );
        if step.1 {
            (
                step.0,
                spec_save_reward(rewards, step.2),
                Event::BlindBoxOpened(owner, blindbox_id, step.2.blindbox_type, step.2.amount),
            )
        } else {
            (step.0, rewards, Event::BlindBoxGoodLuckNextTime(owner, blindbox_id))
        }
    }
}

/// One whole redemption as a mathematical state transition. `payment_ok`
/// reports whether the external fee transfer, attempted after the existence
/// check, went through; the blacklist is consulted only after the fee, so a
/// barred account loses the fee without a refund.
pub open spec fn spec_open_blind_box(
    m: PalletModel,
    origin: Origin,
    blindbox_id: u32,
    payment_ok: bool,
    draws: RandomDraws,
) -> (PalletModel, Result<Event, Error>) {
    match origin {
        Origin::Root => (m, Err(Error::NoPermission)),
        Origin::Signed(owner) => {
            if !m.normal_ids.contains(blindbox_id) && !m.special_ids.contains(blindbox_id) {
                (m, Err(Error::BlindBoxDoesNotExist))
            } else if !payment_ok {
                (m, Err(Error::PaymentFailed))
            } else if m.blacklist.contains(owner) {
                (m, Err(Error::BlacklistReported))
            } else if m.normal_ids.contains(blindbox_id) {
                let step = spec_handle_open_box(m.ledger, m.rewards, owner, blindbox_id, draws);
                (
                    (PalletModel {
                        normal_ids: m.normal_ids.remove_value(blindbox_id),
                        normal_count: (m.normal_count - 1) as u32,
                        ledger: step.0,
                        rewards: step.1,
                        ..m
                    }),
                    Ok(step.2),
                )
            } else {
                let step = spec_handle_open_box(m.ledger, m.rewards, owner, blindbox_id, draws);
                (
                    (PalletModel {
                        special_ids: m.special_ids.remove_value(blindbox_id),
                        special_count: (m.special_count - 1) as u32,
                        ledger: step.0,
                        rewards: step.1,
                        ..m
                    }),
                    Ok(step.2),
                )
            }
        },
    }
}

/// The draw stage preserves receipt-key uniqueness.
pub proof fn lemma_spec_handle_distinct(
    l: InventoryLedger,
    rewards: Seq<BlindBoxRewardItem>,
    owner: u64,
    blindbox_id: u32,
    draws: RandomDraws,
)
    requires
        reward_keys_distinct(rewards),
    ensures
        reward_keys_distinct(spec_handle_open_box(l, rewards, owner, blindbox_id, draws).1),
{
    let random_number = draws.first % ((MAX_RANGE + 1) as u32);
    if random_number % 5 == 0 {
    } else {
        let random_number2 = draws.second % ((MAX_RANGE + 1) as u32);
        let step = spec_check_winner(
            l,
            owner,
            blindbox_id,
            MAX_RANGE,
            random_number2,
            draws.third,
            draws.fourth,
        );
        if step.1 {
            lemma_spec_save_reward_distinct(rewards, step.2);
        }
    }
}

impl PalletModel {
    /// Well-formedness: every cached count equals its pool's size, no pool
    /// holds an identifier twice, the blacklist holds no account twice, and
    /// receipt keys are unique.
    pub open spec fn wf(self) -> bool {
        &&& self.normal_count as int == self.normal_ids.len()
        &&& distinct(self.normal_ids)
        &&& self.special_count as int == self.special_ids.len()
        &&& distinct(self.special_ids)
        &&& distinct(self.blacklist)
        &&& reward_keys_distinct(self.rewards)
    }
}

/// The engine. All state lives here; nothing is ambient.
pub struct Pallet {
    config: Config,
    normal: BoxPool,
    special: BoxPool,
    ledger: InventoryLedger,
    creator: u64,
    blacklist: Vec<u64>,
    rewards: Vec<BlindBoxRewardItem>,
}

impl View for Pallet {
    type V = PalletModel;

    closed spec fn view(&self) -> PalletModel {
        PalletModel {
            normal_ids: self.normal.ids@,
            normal_count: self.normal.count,
            special_ids: self.special.ids@,
            special_count: self.special.count,
            ledger: self.ledger,
            creator: self.creator,
            blacklist: self.blacklist@,
            rewards: self.rewards@,
            config: self.config,
        }
    }
}

impl Pallet {
    /// A fresh engine: both pools empty, every counter zero, nobody
    /// designated, nobody blacklisted, no receipts.
    pub fn new(config: Config) -> (p: Pallet)
        ensures
            p@.wf(),
            p@.normal_ids == Seq::<u32>::empty(),
            p@.normal_count == 0,
            p@.special_ids == Seq::<u32>::empty(),
            p@.special_count == 0,
            p@.ledger == (InventoryLedger {
                available_ksm: 0,
                available_nuum: 0,
                available_collectable_nft: 0,
                available_nft_hat: 0,
                available_nft_jacket: 0,
                available_nft_pant: 0,
                available_nft_shoes: 0,
            }),
            p@.creator == 0,
            p@.blacklist == Seq::<u64>::empty(),
            p@.rewards == Seq::<BlindBoxRewardItem>::empty(),
            p@.config == config,
    {
        Pallet {
            config,
            normal: BoxPool::new(),
            special: BoxPool::new(),
            ledger: InventoryLedger {
                available_ksm: 0,
                available_nuum: 0,
                available_collectable_nft: 0,
                available_nft_hat: 0,
                available_nft_jacket: 0,
                available_nft_pant: 0,
                available_nft_shoes: 0,
            },
            creator: 0,
            blacklist: Vec::new(),
            rewards: Vec::new(),
        }
    }

    /// Sets the remaining KSM budget. Root only; bounded by the configured
    /// maximum; on rejection nothing changes.
    pub fn set_available_ksm(&mut self, origin: Origin, available_ksm: u32) -> (res: Result<(), Error>)
        ensures
            origin != Origin::Root ==> res == Err::<(), Error>(Error::NoPermission) && final(self)@
                == old(self)@,
            origin == Origin::Root && available_ksm > old(self)@.config.max_ksm_allowed ==> res
                == Err::<(), Error>(Error::ExceedsMaxKSMAllowed) && final(self)@ == old(self)@,
            origin == Origin::Root && available_ksm <= old(self)@.config.max_ksm_allowed ==> res
                == Ok::<(), Error>(()) && final(self)@ == (PalletModel {
                ledger: (InventoryLedger { available_ksm, ..old(self)@.ledger }),
                ..old(self)@
            }),
            old(self)@.wf() ==> final(self)@.wf(),
    {
        match origin {
            Origin::Root => {},
            Origin::Signed(_) => {
                return Err(Error::NoPermission);
            },
        }
        if available_ksm > self.config.max_ksm_allowed {
            return Err(Error::ExceedsMaxKSMAllowed);
        }
        self.ledger.available_ksm = available_ksm;
        Ok(())
    }

    /// Sets the remaining NUUM award-event budget. Root only; bounded; on
    /// rejection nothing changes.
    pub fn set_available_nuum(&mut self, origin: Origin, proposed_amount: u32) -> (res: Result<(), Error>)
        ensures
            origin != Origin::Root ==> res == Err::<(), Error>(Error::NoPermission) && final(self)@
                == old(self)@,
            origin == Origin::Root && proposed_amount > old(self)@.config.max_nuum_box_allowed
                ==> res == Err::<(), Error>(Error::ExceedsMaxNUUMAllowed) && final(self)@ == old(self)@,
            origin == Origin::Root && proposed_amount <= old(self)@.config.max_nuum_box_allowed
                ==> res == Ok::<(), Error>(()) && final(self)@ == (PalletModel {
                ledger: (InventoryLedger { available_nuum: proposed_amount, ..old(self)@.ledger }),
                ..old(self)@
            }),
            old(self)@.wf() ==> final(self)@.wf(),
    {
        match origin {
            Origin::Root => {},
            Origin::Signed(_) => {
                return Err(Error::NoPermission);
            },
        }
        if proposed_amount > self.config.max_nuum_box_allowed {
            return Err(Error::ExceedsMaxNUUMAllowed);
        }
        self.ledger.available_nuum = proposed_amount;
        Ok(())
    }

    /// Sets the remaining collectable-NFT count. Root only; bounded; on
    /// rejection nothing changes.
    pub fn set_available_collectable_nft(&mut self, origin: Origin, proposed_amount: u32) -> (res: Result<(), Error>)
        ensures
            origin != Origin::Root ==> res == Err::<(), Error>(Error::NoPermission) && final(self)@
                == old(self)@,
            origin == Origin::Root && proposed_amount
                > old(self)@.config.max_collectable_nft_allowed ==> res == Err::<(), Error>(
                Error::ExceedsMaxCollectableNFTAllowed,
            ) && final(self)@ == old(self)@,
            origin == Origin::Root && proposed_amount
                <= old(self)@.config.max_collectable_nft_allowed ==> res == Ok::<(), Error>(())
                && final(self)@ == (PalletModel {
                ledger: (InventoryLedger {
                    available_collectable_nft: proposed_amount,
                    ..old(self)@.ledger
                }),
                ..old(self)@
            }),
            old(self)@.wf() ==> final(self)@.wf(),
    {
        match origin {
            Origin::Root => {},
            Origin::Signed(_) => {
                return Err(Error::NoPermission);
            },
        }
        if proposed_amount > self.config.max_collectable_nft_allowed {
            return Err(Error::ExceedsMaxCollectableNFTAllowed);
        }
        self.ledger.available_collectable_nft = proposed_amount;
        Ok(())
    }

    /// Sets the remaining hat count. Root only; bounded; on rejection
    /// nothing changes.
    pub fn set_available_nft_hat(&mut self, origin: Origin, proposed_amount: u32) -> (res: Result<(), Error>)
        ensures
            origin != Origin::Root ==> res == Err::<(), Error>(Error::NoPermission) && final(self)@
                == old(self)@,
            origin == Origin::Root && proposed_amount > old(self)@.config.max_nft_hat_allowed
                ==> res == Err::<(), Error>(Error::ExceedsMaxNFTHatAllowed) && final(self)@ == old(self)@,
            origin == Origin::Root && proposed_amount <= old(self)@.config.max_nft_hat_allowed
                ==> res == Ok::<(), Error>(()) && final(self)@ == (PalletModel {
                ledger: (InventoryLedger { available_nft_hat: proposed_amount, ..old(self)@.ledger }),
                ..old(self)@
            }),
            old(self)@.wf() ==> final(self)@.wf(),
    {
        match origin {
            Origin::Root => {},
            Origin::Signed(_) => {
                return Err(Error::NoPermission);
            },
        }
        if proposed_amount > self.config.max_nft_hat_allowed {
            return Err(Error::ExceedsMaxNFTHatAllowed);
        }
        self.ledger.available_nft_hat = proposed_amount;
        Ok(())
    }

    /// Sets the remaining jacket count. Root only; bounded; on rejection
    /// nothing changes.
    pub fn set_available_nft_jacket(&mut self, origin: Origin, proposed_amount: u32) -> (res: Result<(), Error>)
        ensures
            origin != Origin::Root ==> res == Err::<(), Error>(Error::NoPermission) && final(self)@
                == old(self)@,
            origin == Origin::Root && proposed_amount > old(self)@.config.max_nft_jacket_allowed
                ==> res == Err::<(), Error>(Error::ExceedsMaxNFTJacketAllowed) && final(self)@
                == old(self)@,
            origin == Origin::Root && proposed_amount <= old(self)@.config.max_nft_jacket_allowed
                ==> res == Ok::<(), Error>(()) && final(self)@ == (PalletModel {
                ledger: (InventoryLedger {
                    available_nft_jacket: proposed_amount,
                    ..old(self)@.ledger
                }),
                ..old(self)@
            }),
            old(self)@.wf() ==> final(self)@.wf(),
    {
        match origin {
            Origin::Root => {},
            Origin::Signed(_) => {
                return Err(Error::NoPermission);
            },
        }
        if proposed_amount > self.config.max_nft_jacket_allowed {
            return Err(Error::ExceedsMaxNFTJacketAllowed);
        }
        self.ledger.available_nft_jacket = proposed_amount;
        Ok(())
    }

    /// Sets the remaining pants count. Root only; bounded; on rejection
    /// nothing changes.
    pub fn set_available_nft_pant(&mut self, origin: Origin, proposed_amount: u32) -> (res: Result<(), Error>)
        ensures
            origin != Origin::Root ==> res == Err::<(), Error>(Error::NoPermission) && final(self)@
                == old(self)@,
            origin == Origin::Root && proposed_amount > old(self)@.config.max_nft_pant_allowed
                ==> res == Err::<(), Error>(Error::ExceedsMaxNFTPantAllowed) && final(self)@
                == old(self)@,
            origin == Origin::Root && proposed_amount <= old(self)@.config.max_nft_pant_allowed
                ==> res == Ok::<(), Error>(()) && final(self)@ == (PalletModel {
                ledger: (InventoryLedger { available_nft_pant: proposed_amount, ..old(self)@.ledger }),
                ..old(self)@
            }),
            old(self)@.wf() ==> final(self)@.wf(),
    {
        match origin {
            Origin::Root => {},
            Origin::Signed(_) => {
                return Err(Error::NoPermission);
            },
        }
        if proposed_amount > self.config.max_nft_pant_allowed {
            return Err(Error::ExceedsMaxNFTPantAllowed);
        }
        self.ledger.available_nft_pant = proposed_amount;
        Ok(())
    }

    /// Sets the remaining shoes count. Root only; bounded; on rejection
    /// nothing changes.
    pub fn set_available_nft_shoes(&mut self, origin: Origin, proposed_amount: u32) -> (res: Result<(), Error>)
        ensures
            origin != Origin::Root ==> res == Err::<(), Error>(Error::NoPermission) && final(self)@
                == old(self)@,
            origin == Origin::Root && proposed_amount > old(self)@.config.max_nft_shoes_allowed
                ==> res == Err::<(), Error>(Error::ExceedsMaxNFTShoesAllowed) && final(self)@
                == old(self)@,
            origin == Origin::Root && proposed_amount <= old(self)@.config.max_nft_shoes_allowed
                ==> res == Ok::<(), Error>(()) && final(self)@ == (PalletModel {
                ledger: (InventoryLedger {
                    available_nft_shoes: proposed_amount,
                    ..old(self)@.ledger
                }),
                ..old(self)@
            }),
            old(self)@.wf() ==> final(self)@.wf(),
    {
        match origin {
            Origin::Root => {},
            Origin::Signed(_) => {
                return Err(Error::NoPermission);
            },
        }
        if proposed_amount > self.config.max_nft_shoes_allowed {
            return Err(Error::ExceedsMaxNFTShoesAllowed);
        }
        self.ledger.available_nft_shoes = proposed_amount;
        Ok(())
    }

    /// Designates the sole account allowed to mint boxes. Root only.
    pub fn set_blindbox_caller(&mut self, origin: Origin, account_id: u64) -> (res: Result<(), Error>)
        ensures
            origin != Origin::Root ==> res == Err::<(), Error>(Error::NoPermission) && final(self)@
                == old(self)@,
            origin == Origin::Root ==> res == Ok::<(), Error>(()) && final(self)@ == (PalletModel {
                creator: account_id,
                ..old(self)@
            }),
            old(self)@.wf() ==> final(self)@.wf(),
    {
        match origin {
            Origin::Root => {},
            Origin::Signed(_) => {
                return Err(Error::NoPermission);
            },
        }
        self.creator = account_id;
        Ok(())
    }

    /// Reseeds the standard pool from a stream of random draws, one candidate
    /// identifier per draw. Only the designated issuer may call, and only
    /// once the pool is fully depleted. A draw that collides with a present
    /// identifier is skipped; every draw consumes one unit of the configured
    /// iteration cap, so a pathological run of collisions yields fewer
    /// identifiers than requested — a degraded outcome, not an error.
    pub fn generate_blindbox_ids(&mut self, origin: Origin, number_blindboxes: u32, draws: &Vec<u32>) -> (res: Result<Event, Error>)
        requires
            old(self)@.wf(),
        ensures
            final(self)@.wf(),
            origin != Origin::Signed(old(self)@.creator) ==> res == Err::<Event, Error>(
                Error::NoPermission,
            ) && final(self)@ == old(self)@,
            origin == Origin::Signed(old(self)@.creator) && old(self)@.normal_count != 0 ==> res
                == Err::<Event, Error>(Error::BlindBoxesStillAvailable) && final(self)@ == old(self)@,
            origin == Origin::Signed(old(self)@.creator) && old(self)@.normal_count == 0 ==> ({
                let ids = picked_ids(
                    old(self)@.normal_ids.to_set(),
                    draws@,
                    number_blindboxes as nat,
                    old(self)@.config.max_number_of_blindbox as nat,
                );
                &&& res matches Ok(Event::BlindBoxIdGenerated(v)) && v@ == ids
                &&& final(self)@ == (PalletModel {
                    normal_ids: old(self)@.normal_ids + ids,
                    normal_count: ids.len() as u32,
                    ..old(self)@
                })
            }),
    {
        let caller: u64;
        match origin {
            Origin::Signed(a) => {
                caller = a;
            },
            Origin::Root => {
                return Err(Error::NoPermission);
            },
        }
        if caller != self.creator {
            return Err(Error::NoPermission);
        }
        if self.normal.count != 0 {
            return Err(Error::BlindBoxesStillAvailable);
        }

        let ghost p0 = self.normal.ids@.to_set();
        let ghost want = number_blindboxes as nat;
        let cap = self.config.max_number_of_blindbox;
        let mut blindbox_vec: Vec<u32> = Vec::new();
        let mut number_blindboxes_generated: u32 = 0;
        let mut i: u32 = 0;
        proof {
            assert(draws@.skip(0) =~= draws@);
            assert(blindbox_vec@ + picked_ids(p0, draws@, want, cap as nat) =~= picked_ids(
                p0,
                draws@,
                want,
                cap as nat,
            ));
        }
        while number_blindboxes_generated < number_blindboxes && i < cap && (i as usize)
            < draws.len()
            invariant
                old(self)@.wf(),
                old(self)@.normal_count == 0,
                want == number_blindboxes as nat,
                cap == old(self)@.config.max_number_of_blindbox,
                p0 == old(self)@.normal_ids.to_set(),
                self.config == old(self).config,
                self.special == old(self).special,
                self.ledger == old(self).ledger,
                self.creator == old(self).creator,
                self.blacklist == old(self).blacklist,
                self.rewards == old(self).rewards,
                self.normal.wf(),
                self.normal.ids@ == old(self)@.normal_ids + blindbox_vec@,
                number_blindboxes_generated as int == blindbox_vec@.len(),
                number_blindboxes_generated <= number_blindboxes,
                i <= cap,
                i as int <= draws@.len(),
                picked_ids(p0, draws@, want, cap as nat) == blindbox_vec@ + picked_ids(
                    self.normal.ids@.to_set(),
                    draws@.skip(i as int),
                    (number_blindboxes - number_blindboxes_generated) as nat,
                    (cap - i) as nat,
                ),
            decreases cap - i,
        {
            let blindbox_id = draws[i as usize];
            let ghost cur = self.normal.ids@.to_set();
            let ghost w1 = (number_blindboxes - number_blindboxes_generated) as nat;
            let ghost c1 = (cap - i) as nat;
            proof {
                assert(draws@.skip(i as int)[0] == draws@[i as int]);
                assert(draws@.skip(i as int).drop_first() =~= draws@.skip(i as int + 1));
            }
            if !self.normal.contains(blindbox_id) {
                proof {
                    lemma_to_set_contains(self.normal.ids@, blindbox_id);
                    assert(old(self)@.normal_ids.len() == 0);
                    assert(picked_ids(cur, draws@.skip(i as int), w1, c1) == seq![blindbox_id]
                        + picked_ids(
                        cur.insert(blindbox_id),
                        draws@.skip(i as int + 1),
                        (w1 - 1) as nat,
                        (c1 - 1) as nat,
                    ));
                }
                let ghost prev_ids = self.normal.ids@;
                let ghost prev_vec = blindbox_vec@;
                self.normal.insert(blindbox_id);
                blindbox_vec.push(blindbox_id);
                number_blindboxes_generated = number_blindboxes_generated + 1;
                proof {
                    prev_ids.lemma_push_to_set_commute(blindbox_id);
                    assert(self.normal.ids@.to_set() == cur.insert(blindbox_id));
                    assert(prev_ids.push(blindbox_id) =~= old(self)@.normal_ids + blindbox_vec@);
                    assert(blindbox_vec@ + picked_ids(
                        cur.insert(blindbox_id),
                        draws@.skip(i as int + 1),
                        (w1 - 1) as nat,
                        (c1 - 1) as nat,
                    ) =~= prev_vec + picked_ids(cur, draws@.skip(i as int), w1, c1));
                }
            } else {
                proof {
                    lemma_to_set_contains(self.normal.ids@, blindbox_id);
                    assert(picked_ids(cur, draws@.skip(i as int), w1, c1) == picked_ids(
                        cur,
                        draws@.skip(i as int + 1),
                        w1,
                        (c1 - 1) as nat,
                    ));
                }
            }
            i = i + 1;
        }
        proof {
            let rest = picked_ids(
                self.normal.ids@.to_set(),
                draws@.skip(i as int),
                (number_blindboxes - number_blindboxes_generated) as nat,
                (cap - i) as nat,
            );
            assert(rest == Seq::<u32>::empty());
            assert(blindbox_vec@ + rest =~= blindbox_vec@);
            let ids = picked_ids(p0, draws@, want, cap as nat);
            assert(ids == blindbox_vec@);
            lemma_picked_ids_fresh(p0, draws@, want, cap as nat);
            assert(self@ =~= (PalletModel {
                normal_ids: old(self)@.normal_ids + ids,
                normal_count: ids.len() as u32,
                ..old(self)@
            }));
        }
        Ok(Event::BlindBoxIdGenerated(blindbox_vec))
    }

    /// Tops up the special pool from a stream of random draws. Only the
    /// designated issuer may call; there is no depletion precondition and no
    /// iteration cap beyond the end of the draw stream, whose length bounds
    /// the work done.
    pub fn generate_special_blindbox_ids(&mut self, origin: Origin, number_blindboxes: u32, draws: &Vec<u32>) -> (res: Result<Event, Error>)
        requires
            old(self)@.wf(),
            old(self)@.special_count as int + draws@.len() <= u32::MAX as int,
        ensures
            final(self)@.wf(),
            origin != Origin::Signed(old(self)@.creator) ==> res == Err::<Event, Error>(
                Error::NoPermission,
            ) && final(self)@ == old(self)@,
            origin == Origin::Signed(old(self)@.creator) ==> ({
                let ids = picked_ids(
                    old(self)@.special_ids.to_set(),
                    draws@,
                    number_blindboxes as nat,
                    draws@.len(),
                );
                &&& res matches Ok(Event::BlindBoxIdGenerated(v)) && v@ == ids
                &&& final(self)@ == (PalletModel {
                    special_ids: old(self)@.special_ids + ids,
                    special_count: (old(self)@.special_count + ids.len()) as u32,
                    ..old(self)@
                })
            }),
    {
        let caller: u64;
        match origin {
            Origin::Signed(a) => {
                caller = a;
            },
            Origin::Root => {
                return Err(Error::NoPermission);
            },
        }
        if caller != self.creator {
            return Err(Error::NoPermission);
        }

        let ghost p0 = self.special.ids@.to_set();
        let ghost want = number_blindboxes as nat;
        let ghost cap = draws@.len();
        let n = draws.len();
        let mut blindbox_vec: Vec<u32> = Vec::new();
        let mut number_blindboxes_generated: u32 = 0;
        let mut i: usize = 0;
        proof {
            assert(draws@.skip(0) =~= draws@);
            assert(blindbox_vec@ + picked_ids(p0, draws@, want, cap) =~= picked_ids(
                p0,
                draws@,
                want,
                cap,
            ));
        }
        while number_blindboxes_generated < number_blindboxes && i < n
            invariant
                old(self)@.wf(),
                want == number_blindboxes as nat,
                cap == draws@.len(),
                n == draws@.len(),
                old(self)@.special_count as int + draws@.len() <= u32::MAX as int,
                p0 == old(self)@.special_ids.to_set(),
                self.config == old(self).config,
                self.normal == old(self).normal,
                self.ledger == old(self).ledger,
                self.creator == old(self).creator,
                self.blacklist == old(self).blacklist,
                self.rewards == old(self).rewards,
                self.special.wf(),
                self.special.ids@ == old(self)@.special_ids + blindbox_vec@,
                number_blindboxes_generated as int == blindbox_vec@.len(),
                number_blindboxes_generated <= number_blindboxes,
                number_blindboxes_generated as int <= i as int,
                i <= n,
                picked_ids(p0, draws@, want, cap) == blindbox_vec@ + picked_ids(
                    self.special.ids@.to_set(),
                    draws@.skip(i as int),
                    (number_blindboxes - number_blindboxes_generated) as nat,
                    (cap - i) as nat,
                ),
            decreases n - i,
        {
            let blindbox_id = draws[i];
            let ghost cur = self.special.ids@.to_set();
            let ghost w1 = (number_blindboxes - number_blindboxes_generated) as nat;
            let ghost c1 = (cap - i) as nat;
            proof {
                assert(draws@.skip(i as int)[0] == draws@[i as int]);
                assert(draws@.skip(i as int).drop_first() =~= draws@.skip(i as int + 1));
            }
            if !self.special.contains(blindbox_id) {
                proof {
                    lemma_to_set_contains(self.special.ids@, blindbox_id);
                    assert(picked_ids(cur, draws@.skip(i as int), w1, c1) == seq![blindbox_id]
                        + picked_ids(
                        cur.insert(blindbox_id),
                        draws@.skip(i as int + 1),
                        (w1 - 1) as nat,
                        (c1 - 1) as nat,
                    ));
                }
                let ghost prev_ids = self.special.ids@;
                let ghost prev_vec = blindbox_vec@;
                self.special.insert(blindbox_id);
                blindbox_vec.push(blindbox_id);
                number_blindboxes_generated = number_blindboxes_generated + 1;
                proof {
                    prev_ids.lemma_push_to_set_commute(blindbox_id);
                    assert(self.special.ids@.to_set() == cur.insert(blindbox_id));
                    assert(prev_ids.push(blindbox_id) =~= old(self)@.special_ids + blindbox_vec@);
                    assert(blindbox_vec@ + picked_ids(
                        cur.insert(blindbox_id),
                        draws@.skip(i as int + 1),
                        (w1 - 1) as nat,
                        (c1 - 1) as nat,
                    ) =~= prev_vec + picked_ids(cur, draws@.skip(i as int), w1, c1));
                }
            } else {
                proof {
                    lemma_to_set_contains(self.special.ids@, blindbox_id);
                    assert(picked_ids(cur, draws@.skip(i as int), w1, c1) == picked_ids(
                        cur,
                        draws@.skip(i as int + 1),
                        w1,
                        (c1 - 1) as nat,
                    ));
                }
            }
            i = i + 1;
        }
        proof {
            let rest = picked_ids(
                self.special.ids@.to_set(),
                draws@.skip(i as int),
                (number_blindboxes - number_blindboxes_generated) as nat,
                (cap - i) as nat,
            );
            assert(rest == Seq::<u32>::empty());
            assert(blindbox_vec@ + rest =~= blindbox_vec@);
            let ids = picked_ids(p0, draws@, want, cap);
            assert(ids == blindbox_vec@);
            lemma_picked_ids_fresh(p0, draws@, want, cap);
            assert forall|y: u32| #[trigger] ids.contains(y) implies !old(
                self,
            )@.special_ids.contains(y) by {
                lemma_to_set_contains(old(self)@.special_ids, y);
            }
            lemma_distinct_append(old(self)@.special_ids, ids);
            assert(self@ =~= (PalletModel {
                special_ids: old(self)@.special_ids + ids,
                special_count: (old(self)@.special_count + ids.len()) as u32,
                ..old(self)@
            }));
        }
        Ok(Event::BlindBoxIdGenerated(blindbox_vec))
    }

    /// Writes one redemption receipt, overwriting a receipt with the same
    /// key if one exists.
    fn save_blindbox_reward(&mut self, owner: u64, blindbox_id: u32, blindbox_reward_item: BlindBoxRewardItem) -> (res: Result<u32, Error>)
        requires
            blindbox_reward_item.recipient == owner,
            blindbox_reward_item.blindbox_id == blindbox_id,
        ensures
            res == Ok::<u32, Error>(blindbox_id),
            final(self)@ == (PalletModel {
                rewards: spec_save_reward(old(self)@.rewards, blindbox_reward_item),
                ..old(self)@
            }),
    {
        let n = self.rewards.len();
        let mut k: usize = 0;
        while k < n
            invariant
                *old(self) == *self,
                n == self.rewards@.len(),
                k <= n,
                blindbox_reward_item.recipient == owner,
                blindbox_reward_item.blindbox_id == blindbox_id,
                forall|m: int|
                    0 <= m < k ==> !(self.rewards@[m].blindbox_id == blindbox_id
                        && self.rewards@[m].recipient == owner),
            decreases n - k,
        {
            let it = self.rewards[k];
            if it.blindbox_id == blindbox_id && it.recipient == owner {
                proof {
                    lemma_find_reward_index_at(self.rewards@, blindbox_id, owner, k as int);
                }
                self.rewards.set(k, blindbox_reward_item);
                return Ok(blindbox_id);
            }
            k += 1;
        }
        proof {
            lemma_find_reward_index(self.rewards@, blindbox_id, owner);
            let r = find_reward_index(self.rewards@, blindbox_id, owner);
            if r >= 0 {
                assert(!(self.rewards@[r].blindbox_id == blindbox_id && self.rewards@[r].recipient
                    == owner));
            }
        }
        self.rewards.push(blindbox_reward_item);
        Ok(blindbox_id)
    }

    /// The draw stage of one redemption, run after the box has been removed
    /// from its pool: the first-stage no-win test, then the second-stage
    /// tier selection against the live inventory, a receipt on a win, and
    /// the notification either way.
    fn handle_open_box(&mut self, owner: u64, blindbox_id: u32, draws: RandomDraws) -> (ev: Event)
        ensures
            ({
                let step = spec_handle_open_box(
                    old(self)@.ledger,
                    old(self)@.rewards,
                    owner,
                    blindbox_id,
                    draws,
                );
                final(self)@ == (PalletModel { ledger: step.0, rewards: step.1, ..old(self)@ })
                    && ev == step.2
            }),
    {
        let max_range: u32 = MAX_RANGE;
        let random_number = draws.first % (max_range + 1);
        if random_number % 5 == 0 {
            Event::BlindBoxGoodLuckNextTime(owner, blindbox_id)
        } else {
            let random_number2 = draws.second % (max_range + 1);
            let (is_winning, blindbox_reward_item) = check_winner(
                &mut self.ledger,
                owner,
                blindbox_id,
                max_range,
                random_number2,
                draws.third,
                draws.fourth,
            );
            if is_winning {
                let _ = self.save_blindbox_reward(owner, blindbox_id, blindbox_reward_item);
                Event::BlindBoxOpened(
                    owner,
                    blindbox_id,
                    blindbox_reward_item.blindbox_type,
                    blindbox_reward_item.amount,
                )
            } else {
                Event::BlindBoxGoodLuckNextTime(owner, blindbox_id)
            }
        }
    }

    /// Redeems one box: the irrevocable act of consuming it and deciding its
    /// outcome. The caller performs the fixed-fee transfer through the
    /// external ledger after confirming existence and reports its outcome in
    /// `payment_ok`; `draws` are the values the randomness source supplied.
    /// Every behaviour, including each error and the exact new state, is
    /// pinned by [`spec_open_blind_box`].
    pub fn open_blind_box(&mut self, origin: Origin, blindbox_id: u32, payment_ok: bool, draws: RandomDraws) -> (res: Result<Event, Error>)
        requires
            old(self)@.wf(),
        ensures
            final(self)@.wf(),
            (final(self)@, res) == spec_open_blind_box(
                old(self)@,
                origin,
                blindbox_id,
                payment_ok,
                draws,
            ),
    {
        proof {
            lemma_open_preserves_wf(old(self)@, origin, blindbox_id, payment_ok, draws);
        }
        let owner: u64;
        match origin {
            Origin::Signed(a) => {
                owner = a;
            },
            Origin::Root => {
                return Err(Error::NoPermission);
            },
        }
        let in_normal = self.normal.contains(blindbox_id);
        let in_special = self.special.contains(blindbox_id);
        if !in_normal && !in_special {
            return Err(Error::BlindBoxDoesNotExist);
        }
        if !payment_ok {
            return Err(Error::PaymentFailed);
        }
        if blacklist_contains(&self.blacklist, owner) {
            return Err(Error::BlacklistReported);
        }
        if in_normal {
            self.normal.remove(blindbox_id);
            let ev = self.handle_open_box(owner, blindbox_id, draws);
            proof {
                assert(self@ =~= spec_open_blind_box(
                    old(self)@,
                    origin,
                    blindbox_id,
                    payment_ok,
                    draws,
                ).0);
            }
            Ok(ev)
        } else {
            self.special.remove(blindbox_id);
            let ev = self.handle_open_box(owner, blindbox_id, draws);
            proof {
                assert(self@ =~= spec_open_blind_box(
                    old(self)@,
                    origin,
                    blindbox_id,
                    payment_ok,
                    draws,
                ).0);
            }
            Ok(ev)
        }
    }

    /// Bars an account from redeeming. Root only; adding a present entry is
    /// rejected and changes nothing.
    pub fn add_new_blacklist(&mut self, origin: Origin, account_id: u64) -> (res: Result<Event, Error>)
        ensures
            origin != Origin::Root ==> res == Err::<Event, Error>(Error::NoPermission)
                && final(self)@ == old(self)@,
            origin == Origin::Root && old(self)@.blacklist.contains(account_id) ==> res
                == Err::<Event, Error>(Error::BlacklistAlreadyExist) && final(self)@ == old(self)@,
            origin == Origin::Root && !old(self)@.blacklist.contains(account_id) ==> res
                == Ok::<Event, Error>(Event::BlacklistAdded(account_id)) && final(self)@
                == (PalletModel { blacklist: old(self)@.blacklist.push(account_id), ..old(self)@ }),
            old(self)@.wf() ==> final(self)@.wf(),
    {
        match origin {
            Origin::Root => {},
            Origin::Signed(_) => {
                return Err(Error::NoPermission);
            },
        }
        if blacklist_contains(&self.blacklist, account_id) {
            return Err(Error::BlacklistAlreadyExist);
        }
        proof {
            if distinct(self.blacklist@) {
                crate::seqs::lemma_distinct_push(self.blacklist@, account_id);
            }
        }
        self.blacklist.push(account_id);
        Ok(Event::BlacklistAdded(account_id))
    }

    /// Lifts the bar from an account. Root only; removing an absent entry is
    /// rejected and changes nothing.
    pub fn remove_blacklist(&mut self, origin: Origin, account_id: u64) -> (res: Result<Event, Error>)
        ensures
            origin != Origin::Root ==> res == Err::<Event, Error>(Error::NoPermission)
                && final(self)@ == old(self)@,
            origin == Origin::Root && !old(self)@.blacklist.contains(account_id) ==> res
                == Err::<Event, Error>(Error::BlacklistIsNotExist) && final(self)@ == old(self)@,
            origin == Origin::Root && old(self)@.blacklist.contains(account_id) ==> res
                == Ok::<Event, Error>(Event::BlacklistRemoved(account_id)) && final(self)@
                == (PalletModel {
                blacklist: old(self)@.blacklist.remove_value(account_id),
                ..old(self)@
            }),
            old(self)@.wf() ==> final(self)@.wf(),
    {
        match origin {
            Origin::Root => {},
            Origin::Signed(_) => {
                return Err(Error::NoPermission);
            },
        }
        let n = self.blacklist.len();
        let mut k: usize = 0;
        while k < n
            invariant
                origin == Origin::Root,
                *old(self) == *self,
                n == self.blacklist@.len(),
                k <= n,
                forall|m: int| 0 <= m < k ==> self.blacklist@[m] != account_id,
            decreases n - k,
        {
            if self.blacklist[k] == account_id {
                proof {
                    crate::seqs::lemma_remove_value_is_remove_at(
                        self.blacklist@,
                        account_id,
                        k as int,
                    );
                    if distinct(self.blacklist@) {
                        lemma_remove_value_distinct(self.blacklist@, account_id);
                    }
                }
                self.blacklist.remove(k);
                return Ok(Event::BlacklistRemoved(account_id));
            }
            k += 1;
        }
        Err(Error::BlacklistIsNotExist)
    }

    /// Whether the account is currently barred from redeeming.
    pub fn get_blacklist(&self, account_id: u64) -> (b: bool)
        ensures
            b == self@.blacklist.contains(account_id),
    {
        blacklist_contains(&self.blacklist, account_id)
    }

    /// The designated issuer.
    pub fn get_blindboxescreator(&self) -> (a: u64)
        ensures
            a == self@.creator,
    {
        self.creator
    }

    /// Whether the identifier is an unopened standard-pool box.
    pub fn get_blindboxes(&self, blindbox_id: u32) -> (b: bool)
        ensures
            b == self@.normal_ids.contains(blindbox_id),
    {
        self.normal.contains(blindbox_id)
    }

    /// Whether the identifier is an unopened special-pool box.
    pub fn get_special_blindboxes(&self, blindbox_id: u32) -> (b: bool)
        ensures
            b == self@.special_ids.contains(blindbox_id),
    {
        self.special.contains(blindbox_id)
    }

    /// How many standard-pool boxes are still unopened.
    pub fn all_blindboxes_count(&self) -> (c: u32)
        ensures
            c == self@.normal_count,
    {
        self.normal.count
    }

    /// How many special-pool boxes are still unopened.
    pub fn all_special_blindboxes_count(&self) -> (c: u32)
        ensures
            c == self@.special_count,
    {
        self.special.count
    }

    /// The remaining KSM budget.
    pub fn get_available_ksm(&self) -> (v: u32)
        ensures
            v == self@.ledger.available_ksm,
    {
        self.ledger.available_ksm
    }

    /// The remaining NUUM award-event budget.
    pub fn get_available_nuum(&self) -> (v: u32)
        ensures
            v == self@.ledger.available_nuum,
    {
        self.ledger.available_nuum
    }

    /// The remaining collectable-NFT count.
    pub fn get_available_collectablenft(&self) -> (v: u32)
        ensures
            v == self@.ledger.available_collectable_nft,
    {
        self.ledger.available_collectable_nft
    }

    /// The remaining hat count.
    pub fn get_available_nft_hat(&self) -> (v: u32)
        ensures
            v == self@.ledger.available_nft_hat,
    {
        self.ledger.available_nft_hat
    }

    /// The remaining jacket count.
    pub fn get_available_nft_jacket(&self) -> (v: u32)
        ensures
            v == self@.ledger.available_nft_jacket,
    {
        self.ledger.available_nft_jacket
    }

    /// The remaining pants count.
    pub fn get_available_nft_pant(&self) -> (v: u32)
        ensures
            v == self@.ledger.available_nft_pant,
    {
        self.ledger.available_nft_pant
    }

    /// The remaining shoes count.
    pub fn get_available_nft_shoes(&self) -> (v: u32)
        ensures
            v == self@.ledger.available_nft_shoes,
    {
        self.ledger.available_nft_shoes
    }

    /// The receipt written for this box and winner, if any.
    pub fn get_blindbox_rewards(&self, blindbox_id: u32, account_id: u64) -> (r: Option<BlindBoxRewardItem>)
        ensures
            ({
                let i = find_reward_index(self@.rewards, blindbox_id, account_id);
                if i >= 0 {
                    r == Some(self@.rewards[i])
                } else {
                    r is None
                }
            }),
    {
        proof {
            lemma_find_reward_index(self@.rewards, blindbox_id, account_id);
        }
        let n = self.rewards.len();
        let mut k: usize = 0;
        while k < n
            invariant
                n == self.rewards@.len(),
                k <= n,
                forall|m: int|
                    0 <= m < k ==> !(self.rewards@[m].blindbox_id == blindbox_id
                        && self.rewards@[m].recipient == account_id),
            decreases n - k,
        {
            let item = self.rewards[k];
            if item.blindbox_id == blindbox_id && item.recipient == account_id {
                proof {
                    lemma_find_reward_index_at(self.rewards@, blindbox_id, account_id, k as int);
                }
                return Some(item);
            }
            k += 1;
        }
        None
    }
}

/// `find_reward_index` returns exactly the first matching position.
pub proof fn lemma_find_reward_index_at(rs: Seq<BlindBoxRewardItem>, blindbox_id: u32, recipient: u64, j: int)
    requires
        0 <= j < rs.len(),
        rs[j].blindbox_id == blindbox_id && rs[j].recipient == recipient,
        forall|k: int|
            0 <= k < j ==> !(rs[k].blindbox_id == blindbox_id && rs[k].recipient == recipient),
    ensures
        find_reward_index(rs, blindbox_id, recipient) == j,
{
    lemma_find_reward_index(rs, blindbox_id, recipient);
    let r = find_reward_index(rs, blindbox_id, recipient);
    if r == -1 || r > j {
        assert(!(rs[j].blindbox_id == blindbox_id && rs[j].recipient == recipient));
    }
    if 0 <= r < j {
        assert(!(rs[r].blindbox_id == blindbox_id && rs[r].recipient == recipient));
    }
}

/// Every redemption preserves well-formedness: counts stay in step with
/// their pools, pools and blacklist stay duplicate-free, and receipt keys
/// stay unique.
pub proof fn lemma_open_preserves_wf(
    m: PalletModel,
    origin: Origin,
    blindbox_id: u32,
    payment_ok: bool,
    draws: RandomDraws,
)
    requires
        m.wf(),
    ensures
        spec_open_blind_box(m, origin, blindbox_id, payment_ok, draws).0.wf(),
{
    match origin {
        Origin::Root => {},
        Origin::Signed(owner) => {
            if !m.normal_ids.contains(blindbox_id) && !m.special_ids.contains(blindbox_id) {
            } else if !payment_ok {
            } else if m.blacklist.contains(owner) {
            } else {
                lemma_spec_handle_distinct(m.ledger, m.rewards, owner, blindbox_id, draws);
                if m.normal_ids.contains(blindbox_id) {
                    lemma_remove_value_distinct(m.normal_ids, blindbox_id);
                } else {
                    lemma_remove_value_distinct(m.special_ids, blindbox_id);
                }
            }
        },
    }
}

/// Exactly-once: once a box that lived in exactly one pool has been
/// successfully redeemed, it is gone from both pools, and any further
/// attempt to redeem it — by any signed account, paid or not — is rejected
/// as nonexistent and changes nothing. (An identifier that the two
/// independent namespaces happen to share can still be redeemed once per
/// pool.)
pub proof fn lemma_exactly_once(
    m: PalletModel,
    origin1: Origin,
    ok1: bool,
    d1: RandomDraws,
    owner2: u64,
    ok2: bool,
    d2: RandomDraws,
    blindbox_id: u32,
)
    requires
        m.wf(),
        !(m.normal_ids.contains(blindbox_id) && m.special_ids.contains(blindbox_id)),
        spec_open_blind_box(m, origin1, blindbox_id, ok1, d1).1 is Ok,
    ensures
        ({
            let m1 = spec_open_blind_box(m, origin1, blindbox_id, ok1, d1).0;
            &&& !m1.normal_ids.contains(blindbox_id)
            &&& !m1.special_ids.contains(blindbox_id)
            &&& spec_open_blind_box(m1, Origin::Signed(owner2), blindbox_id, ok2, d2) == (
                m1,
                Err::<Event, Error>(Error::BlindBoxDoesNotExist),
            )
        }),
{
    match origin1 {
        Origin::Root => {
            assert(false);
        },
        Origin::Signed(owner1) => {
            if m.normal_ids.contains(blindbox_id) {
                lemma_remove_value_distinct(m.normal_ids, blindbox_id);
            } else {
                lemma_remove_value_distinct(m.special_ids, blindbox_id);
            }
        },
    }
}

/// A box never produces two receipts for one winner: in any well-formed
/// state, no two receipts share the key of box identifier and recipient.
pub proof fn lemma_records_unique(m: PalletModel, i: int, j: int)
    requires
        m.wf(),
        0 <= i < j < m.rewards.len(),
    ensures
        !(m.rewards[i].blindbox_id == m.rewards[j].blindbox_id && m.rewards[i].recipient
            == m.rewards[j].recipient),
{
}

/// Membership scan over the blacklist vector.
fn blacklist_contains(v: &Vec<u64>, account_id: u64) -> (b: bool)
    ensures
        b == v@.contains(account_id),
{
    let n = v.len();
    let mut k: usize = 0;
    while k < n
        invariant
            n == v@.len(),
            k <= n,
            forall|m: int| 0 <= m < k ==> v@[m] != account_id,
        decreases n - k,
    {
        if v[k] == account_id {
            return true;
        }
        k += 1;
    }
    false
}

} // verus!
