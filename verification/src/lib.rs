//! A wall of wishes: a keyed record store in which every record lives at an
//! address derived from its creator and its title, and only the creator may
//! remove it.

pub mod address;
pub mod error;
pub mod keys;
pub mod laws;
pub mod ledger;
pub mod record;
pub mod table;
pub mod wall;

pub use crate::error::ErrorCode;
pub use crate::keys::{Address, Identity};
pub use crate::ledger::Ledger;
pub use crate::record::AWish;
pub use crate::wall::{delete_wish, submit_wish, DeleteWish, SubmitWish};
