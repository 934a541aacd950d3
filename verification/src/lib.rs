//! The records of an NFT liquidity pool and the rules that admit them.
//!
//! A pool trades a fungible payment asset against non-fungible assets along
//! a price curve. This crate holds what is stored about a pool and about each
//! asset in its escrow, the predicates that say when such a record is
//! acceptable, and the fixed binary layout in which the records are kept.
//! Pricing, settlement and the matching of an asset against an allowlist
//! entry are the business of the programs that use these records.

pub mod allowlist;
pub mod codec;
pub mod error;
pub mod identifier;
pub mod pool;
pub mod sell_state;
pub mod tree_config;

pub use allowlist::{
    Allowlist, ALLOWLIST_KIND_ANY, ALLOWLIST_KIND_EMPTY, ALLOWLIST_KIND_FVCA,
    ALLOWLIST_KIND_GROUP, ALLOWLIST_KIND_MCC, ALLOWLIST_KIND_METADATA, ALLOWLIST_KIND_MINT,
    ALLOWLIST_KIND_MPL_CORE_COLLECTION,
};
pub use error::RecordError;
pub use identifier::Identifier;
pub use pool::{
    Pool, ALLOWLIST_MAX_LEN, CURVE_KIND_EXP, CURVE_KIND_LINEAR, MAX_BP, POOL_DISCRIMINATOR,
};
pub use sell_state::{SellState, SELL_STATE_DISCRIMINATOR};
pub use tree_config::{BubblegumProgram, TreeConfigAnchor, BUBBLEGUM_ID};
