//! A time-locked message vault: messages whose decryption key is released
//! to their creator only once a chosen unlock time has passed.
pub mod keys;
pub mod text;
pub mod timelock;
pub mod types;
