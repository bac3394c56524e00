use vstd::prelude::*;

pub mod context;
pub mod encoding;
pub mod crypto;
pub mod text;
pub mod error;
pub mod keys;
pub mod x3dh;
pub mod json;
pub mod serialization;
pub mod commands;
pub mod format;
pub mod replay;
pub mod reports;
pub mod plans;
pub mod checks;

pub use keys::{SyftPrivateKeys, SyftPublicKeyBundle, SyftRecoveryKey};

verus! {

} // verus!
