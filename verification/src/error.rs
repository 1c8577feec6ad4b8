//! The error taxonomy shared by every layer of the driver.

use vstd::prelude::*;
use vstd::string::StringExecFns;

verus! {

/// Hardware wallet error.
#[derive(Debug, PartialEq, Eq)]
pub enum Error {
    /// Ethereum wallet protocol error, with the reason.
    Protocol(&'static str),
    /// HID transport failure, carried as the transport's own description.
    Usb(String),
    /// USB bus failure, carried as the bus library's own description.
    LibUsb(String),
    /// Device with request key is not available.
    KeyNotFound,
    /// Signing has been cancelled by user.
    UserCancel,
    /// Invalid device.
    InvalidDevice,
    /// Placeholder for a state that the address lookup can never reach.
    ImpossibleError,
    /// No device arrived.
    NoDeviceArrived,
    /// No device left.
    NoDeviceLeft,
}

impl Clone for Error {
    fn clone(&self) -> (copy: Error)
        ensures
            copy == *self,
    {
        match self {
            Error::Protocol(reason) => Error::Protocol(*reason),
            Error::Usb(cause) => Error::Usb(cause.clone()),
            Error::LibUsb(cause) => Error::LibUsb(cause.clone()),
            Error::KeyNotFound => Error::KeyNotFound,
            Error::UserCancel => Error::UserCancel,
            Error::InvalidDevice => Error::InvalidDevice,
            Error::ImpossibleError => Error::ImpossibleError,
            Error::NoDeviceArrived => Error::NoDeviceArrived,
            Error::NoDeviceLeft => Error::NoDeviceLeft,
        }
    }
}

impl Error {
    /// The human-readable description of an error.
    pub open spec fn spec_message(self) -> Seq<char> {
        match self {
            Error::Protocol(reason) => "Ledger protocol error: "@ + reason@,
            Error::Usb(cause) => "USB communication error: "@ + cause@,
            Error::LibUsb(cause) => "LibUSB communication error: "@ + cause@,
            Error::KeyNotFound => "Key not found"@,
            Error::UserCancel => "Operation has been cancelled"@,
            Error::InvalidDevice => "Unsupported product was entered"@,
            Error::ImpossibleError => "Placeholder error"@,
            Error::NoDeviceArrived => "No device arrived"@,
            Error::NoDeviceLeft => "No device left"@,
        }
    }

    /// Renders the error as text.
    pub fn message(&self) -> (text: String)
        ensures
            text@ == self.spec_message(),
    {
        match self {
            Error::Protocol(reason) => String::from_str("Ledger protocol error: ").concat(reason),
            Error::Usb(cause) => String::from_str("USB communication error: ").concat(
                cause.as_str(),
            ),
            Error::LibUsb(cause) => String::from_str("LibUSB communication error: ").concat(
                cause.as_str(),
            ),
            Error::KeyNotFound => String::from_str("Key not found"),
            Error::UserCancel => String::from_str("Operation has been cancelled"),
            Error::InvalidDevice => String::from_str("Unsupported product was entered"),
            Error::ImpossibleError => String::from_str("Placeholder error"),
            Error::NoDeviceArrived => String::from_str("No device arrived"),
            Error::NoDeviceLeft => String::from_str("No device left"),
        }
    }
}

} // verus!
