//! The plain data types that the engine's contracts speak of.

use vstd::prelude::*;

verus! {

/// One unit of the external currency, in the ledger's smallest denomination.
pub const DOLLARS: u128 = 1_000_000_000_000_000_000;

/// Which of the two independent box pools an identifier lives in. The two
/// pools are separate namespaces: the same numeric identifier may exist in
/// both at once.
#[derive(Clone, Copy, PartialEq, Eq, Structural, Debug)]
pub enum BoxType {
    NormalBox,
    SpecialBox,
}

/// A reward category. The two cosmetic variants of each garment share one
/// inventory counter; every other category has a counter of its own.
#[derive(Clone, Copy, PartialEq, Eq, Structural, Debug)]
pub enum BlindBoxType {
    KSM,
    NUUM,
    CollectableNFT,
    MainnetNFTHat1,
    MainnetNFTHat2,
    MainnetNFTJacket1,
    MainnetNFTJacket2,
    MainnetNFTPants1,
    MainnetNFTPants2,
    MainnetNFTShoes1,
    MainnetNFTShoes2,
}

/// The provenance of a call: the administrative root origin, or an ordinary
/// signed account.
#[derive(Clone, Copy, PartialEq, Eq, Structural, Debug)]
pub enum Origin {
    Root,
    Signed(u64),
}

/// Everything that can go wrong with a call into the engine.
#[derive(Clone, Copy, PartialEq, Eq, Structural, Debug)]
pub enum Error {
    /// The caller lacks the capability the call demands.
    NoPermission,
    /// The named box exists in neither pool.
    BlindBoxDoesNotExist,
    /// The standard pool may only be reseeded once fully depleted.
    BlindBoxesStillAvailable,
    /// A proposed KSM ceiling above the configured maximum.
    ExceedsMaxKSMAllowed,
    /// A proposed NUUM ceiling above the configured maximum.
    ExceedsMaxNUUMAllowed,
    /// A proposed collectable-NFT ceiling above the configured maximum.
    ExceedsMaxCollectableNFTAllowed,
    /// A proposed hat ceiling above the configured maximum.
    ExceedsMaxNFTHatAllowed,
    /// A proposed jacket ceiling above the configured maximum.
    ExceedsMaxNFTJacketAllowed,
    /// A proposed pants ceiling above the configured maximum.
    ExceedsMaxNFTPantAllowed,
    /// A proposed shoes ceiling above the configured maximum.
    ExceedsMaxNFTShoesAllowed,
    /// The account is already on the blacklist.
    BlacklistAlreadyExist,
    /// The account is not on the blacklist.
    BlacklistIsNotExist,
    /// A blacklisted account tried to redeem a box.
    BlacklistReported,
    /// The redemption fee transfer was refused by the external ledger.
    PaymentFailed,
}

/// An immutable receipt of one winning redemption, keyed by the pair of
/// `blindbox_id` and `recipient`.
#[derive(Clone, Copy, PartialEq, Eq, Structural, Debug)]
pub struct BlindBoxRewardItem {
    pub recipient: u64,
    pub amount: u32,
    pub blindbox_type: BlindBoxType,
    pub blindbox_id: u32,
}

/// A notification that an operation emits.
#[derive(PartialEq, Eq, Debug)]
pub enum Event {
    BlindBoxIdGenerated(Vec<u32>),
    BlindBoxOpened(u64, u32, BlindBoxType, u32),
    BlindBoxGoodLuckNextTime(u64, u32),
    BlacklistAdded(u64),
    BlacklistRemoved(u64),
}

/// The fixed administrative limits the engine is instantiated with.
#[derive(Clone, Copy, PartialEq, Eq, Structural, Debug)]
pub struct Config {
    /// Iteration cap for one standard-pool generation run.
    pub max_number_of_blindbox: u32,
    /// Highest KSM budget an administrator may set.
    pub max_ksm_allowed: u32,
    /// Highest NUUM award-event budget an administrator may set.
    pub max_nuum_box_allowed: u32,
    /// Highest collectable-NFT count an administrator may set.
    pub max_collectable_nft_allowed: u32,
    /// Highest hat count an administrator may set.
    pub max_nft_hat_allowed: u32,
    /// Highest jacket count an administrator may set.
    pub max_nft_jacket_allowed: u32,
    /// Highest pants count an administrator may set.
    pub max_nft_pant_allowed: u32,
    /// Highest shoes count an administrator may set.
    pub max_nft_shoes_allowed: u32,
}

/// The successive values obtained from the external randomness source for one
/// redemption. `first` seeds the first-stage draw, `second` the second-stage
/// draw; `third` and `fourth` decide variant parity, the three-way split and
/// the NUUM quantity, in the order the tiers consume them.
#[derive(Clone, Copy, PartialEq, Eq, Structural, Debug)]
pub struct RandomDraws {
    pub first: u32,
    pub second: u32,
    pub third: u32,
    pub fourth: u32,
}

} // verus!
