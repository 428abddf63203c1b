//! A scarce-inventory lottery engine.
//!
//! The engine issues uniquely identified box tokens and, when a holder redeems
//! one, atomically decides through a tiered weighted-probability scheme whether
//! the holder wins a reward, which category, and what quantity, subject to a
//! finite shared inventory pool per category that is never over-allocated.
//!
//! External collaborators (the value-transfer ledger, the randomness source,
//! identity and authorization, persistent storage) are kept outside the
//! library: random draws and payment outcomes enter as plain values, and every
//! notification leaves as a plain [`types::Event`].

pub mod inventory;
pub mod pallet;
pub mod pool;
pub mod selector;
pub mod seqs;
pub mod types;

pub use crate::pallet::Pallet;
pub use crate::pallet::PalletModel;
pub use crate::types::BlindBoxRewardItem;
pub use crate::types::BlindBoxType;
pub use crate::types::BoxType;
pub use crate::types::Config;
pub use crate::types::Error;
pub use crate::types::Event;
pub use crate::types::Origin;
pub use crate::types::RandomDraws;
pub use crate::types::DOLLARS;
