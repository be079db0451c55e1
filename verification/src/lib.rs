//! Shielded scanning for Zcash wallets: what a unified full viewing key received and spent in
//! a range of blocks, and whether one of its spends carries a challenge memo.
//!
//! The crate holds every rule of the scanner and performs no input or output. Work that needs
//! a lightwalletd server is described by state machines ([`scan::ScanRun`],
//! [`verify::VerifyRun`], [`lightwalletd::ConnectRun`]): each says what it waits for, takes the
//! reply, and moves on.

pub mod auth;
pub mod backend;
pub mod balance;
pub mod chain;
pub mod config;
pub mod encoding;
pub mod error;
pub mod history;
pub mod input_laws;
pub mod lightwalletd;
pub mod memo_laws;
pub mod protocol;
pub mod scan;
pub mod scan_laws;
pub mod service_laws;
pub mod step_laws;
pub mod text;
pub mod tree;
pub mod verify;
pub mod verify_laws;
