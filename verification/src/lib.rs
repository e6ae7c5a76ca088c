//! Mail and donation bookkeeping for a pair of NEAR contracts.

pub mod account_map;
pub mod donation;
pub mod error;
pub mod index;
pub mod mail;
pub mod mail_state;
pub mod message;
pub mod records;
pub mod storage_imp;
