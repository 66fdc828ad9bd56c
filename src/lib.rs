//! A per-owner custodial vault: a state record and a value record whose
//! addresses are derived from the owner, and deposits and withdrawals that
//! are authorised by re-deriving those addresses from the stored bumps.
pub mod address;
pub mod anchor_vault;
pub mod ledger;
pub mod table;

pub use address::Address;
pub use anchor_vault::{deposit, initialize, withdraw};
pub use ledger::{Deposits, Initialize, Ledger, VaultError, VaultState, Withdraw, STATE_RECORD_SPACE};
