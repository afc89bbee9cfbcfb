//! A parachain statement table meant to be shared with a message router and a consensus
//! proposer: which candidates the local validator has to validate, what it found of them, and
//! who waits for candidates to be includable.

pub mod admitted;
pub mod context;
pub mod crypto;
pub mod digest_map;
pub mod includable;
pub mod laws;
pub mod outcomes;
pub mod primitives;
pub mod statement;
pub mod table;
pub mod table_outcomes;
pub mod work;
pub mod work_outcomes;

pub use context::{GroupInfo, TableContext};
pub use statement::{GenericStatement, SignedStatement, Statement};
pub use table::{SharedTable, TableRouter};
pub use work::{ParachainWork, PrimedParachainWork, Validated};
