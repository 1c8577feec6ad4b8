//! Driver logic for Ledger hardware wallets: the chunked HID transport
//! framing, the Ethereum application's commands, and the registry of
//! attached devices. Everything here is pure computation on bytes and
//! plain values; the caller performs the actual USB reads and writes.
//!
//! - [`frame`] cuts commands into packets and puts responses together.
//! - [`command`] builds the application's commands and reads its responses.
//! - [`session`] sequences the commands of one conversation with a device.
//! - [`manager`] keeps the known devices and the derivation path in force.
//! - [`hotplug`] decides what follows a hotplug notification.

pub mod address;
pub mod command;
pub mod error;
pub mod frame;
pub mod hotplug;
pub mod manager;
pub mod session;
pub mod signature;

pub use crate::address::Address;
pub use crate::command::KeyPath;
pub use crate::error::Error;
pub use crate::manager::{Device, DeviceDirection, Manager, WalletInfo};
pub use crate::signature::Signature;
