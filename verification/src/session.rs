//! The two conversations with a device, as state machines: each step takes
//! the device's last response and says what to send next, or how the
//! conversation ended. The caller carries the commands to the device.

use vstd::prelude::*;
use crate::address::Address;
use crate::command::{address_request, parse_address, parse_app_version, sign_requests};
use crate::command::{spec_address_request, spec_apdu_views, spec_derivation_path};
use crate::command::spec_is_mode_chunk_count;
use crate::command::{spec_parse_address, spec_parse_app_version, spec_sign_command};
use crate::command::{spec_sign_requests, spec_version_request, version_request};
use crate::command::{Apdu, ApduView, KeyPath, SignKind};
use crate::error::Error;
use crate::signature::{parse_signature, spec_parse_signature, Signature};

verus! {

/// How far the reading of a device's address has come.
#[derive(Debug, Clone, Copy, PartialEq, Eq, Structural)]
pub enum AddressQuery {
    /// Nothing was sent yet.
    Start,
    /// The application's version was asked for.
    VersionAsked,
    /// The address was asked for.
    AddressAsked,
}

/// What the reading of an address does next.
#[derive(Debug)]
pub enum QueryAction {
    /// Send this command and come back with the response.
    Send(Apdu),
    /// The address was read.
    Finish(Address),
}

impl AddressQuery {
    /// The start of the conversation.
    pub fn new() -> (query: AddressQuery)
        ensures
            query == AddressQuery::Start,
    {
        AddressQuery::Start
    }

    /// One step of reading a device's address.
    ///
    /// At the start the version is asked for, whatever `response` holds.
    /// The response to that must report version 1.0.3 or later; then the
    /// address is asked for, under the derivation path of the mode that is
    /// in force at that moment. The response to that holds the address. A
    /// response that is refused ends the conversation with its error and
    /// leaves the state as it was.
    pub fn advance(&mut self, key_path: KeyPath, response: &[u8]) -> (outcome: Result<
        QueryAction,
        Error,
    >)
        ensures
            spec_query_step(*old(self), *final(self), key_path, response@, outcome),
    {
        match *self {
            AddressQuery::Start => {
                *self = AddressQuery::VersionAsked;
                Ok(QueryAction::Send(version_request()))
            },
            AddressQuery::VersionAsked => match parse_app_version(response) {
                Ok(_) => {
                    *self = AddressQuery::AddressAsked;
                    Ok(QueryAction::Send(address_request(key_path)))
                },
                Err(error) => Err(error),
            },
            AddressQuery::AddressAsked => match parse_address(response) {
                Ok(address) => Ok(QueryAction::Finish(address)),
                Err(error) => Err(error),
            },
        }
    }

    /// One step of reading a device's address, after an exchange with the
    /// device that may have failed. A failed exchange ends the conversation
    /// with the failure and leaves the state as it was; the body of a
    /// successful one is taken as `advance` takes it. Before anything was
    /// sent, the caller hands in an empty body.
    pub fn advance_after(&mut self, key_path: KeyPath, exchange: Result<&[u8], Error>) -> (outcome:
        Result<QueryAction, Error>)
        ensures
            match exchange {
                Ok(response) => spec_query_step(
                    *old(self),
                    *final(self),
                    key_path,
                    response@,
                    outcome,
                ),
                Err(error) => outcome == Err::<QueryAction, Error>(error) && *final(self) == *old(
                    self,
                ),
            },
    {
        match exchange {
            Ok(response) => self.advance(key_path, response),
            Err(error) => Err(error),
        }
    }
}

/// What one step of reading an address does, from the state before it, the
/// mode in force and the response that came in: the state after it and the
/// outcome.
pub open spec fn spec_query_step(
    before: AddressQuery,
    after: AddressQuery,
    key_path: KeyPath,
    response: Seq<u8>,
    outcome: Result<QueryAction, Error>,
) -> bool {
    match before {
        AddressQuery::Start => {
            &&& outcome matches Ok(QueryAction::Send(request))
            &&& request@ == spec_version_request()
            &&& after == AddressQuery::VersionAsked
        },
        AddressQuery::VersionAsked => match spec_parse_app_version(response) {
            Ok(_) => {
                &&& outcome matches Ok(QueryAction::Send(request))
                &&& request@ == spec_address_request(key_path)
                &&& after == AddressQuery::AddressAsked
            },
            Err(error) => {
                &&& outcome matches Err(e)
                &&& e == error
                &&& after == before
            },
        },
        AddressQuery::AddressAsked => {
            &&& after == before
            &&& match spec_parse_address(response) {
                Ok(bytes) => outcome matches Ok(QueryAction::Finish(address)) && address@ == bytes,
                Err(error) => outcome matches Err(e) && e == error,
            }
        },
    }
}

/// What a signing operation holds: its commands, and how many were handed
/// out.
pub struct SigningView {
    pub requests: Seq<ApduView>,
    pub sent: nat,
}

/// A signing operation in progress.
#[derive(Debug)]
pub struct Signing {
    requests: Vec<Apdu>,
    sent: usize,
}

impl View for Signing {
    type V = SigningView;

    closed spec fn view(&self) -> SigningView {
        SigningView { requests: spec_apdu_views(self.requests@), sent: self.sent as nat }
    }
}

/// What a signing operation does next.
#[derive(Debug)]
pub enum SignAction {
    /// Send this command and come back with the response.
    Send(Apdu),
    /// The device signed.
    Finish(Signature),
}

impl Signing {
    /// Prepares the signing of a payload of the given kind under the
    /// derivation path of the given mode.
    pub fn new(kind: SignKind, key_path: KeyPath, payload: &[u8]) -> (signing: Signing)
        ensures
            signing@ == (SigningView {
                requests: spec_sign_requests(
                    spec_sign_command(kind),
                    spec_derivation_path(key_path),
                    payload@,
                ),
                sent: 0,
            }),
            spec_is_mode_chunk_count(key_path, payload@.len(), signing@.requests.len()),
    {
        Signing { requests: sign_requests(kind, key_path, payload), sent: 0 }
    }

    /// One step of a signing operation.
    ///
    /// While commands are left, the next one is handed out and `response`
    /// is not looked at: the device answers every chunk but the last with
    /// nothing of interest. Once all are sent, `response` is read as the
    /// signature; with no command at all, for an empty payload, that fails
    /// on any response but one of 65 bytes.
    pub fn advance(&mut self, response: &[u8]) -> (outcome: Result<SignAction, Error>)
        ensures
            spec_sign_step(old(self)@, final(self)@, response@, outcome),
    {
        if self.sent < self.requests.len() {
            let request = self.requests[self.sent].clone();
            self.sent = self.sent + 1;
            Ok(SignAction::Send(request))
        } else {
            match parse_signature(response) {
                Ok(signature) => Ok(SignAction::Finish(signature)),
                Err(error) => Err(error),
            }
        }
    }

    /// One step of a signing operation, after an exchange with the device
    /// that may have failed. A failed exchange aborts the whole operation:
    /// the failure is the outcome, no further command is handed out, and
    /// the state stays as it was. The body of a successful exchange is taken
    /// as `advance` takes it. Before anything was sent, the caller hands in
    /// an empty body.
    pub fn advance_after(&mut self, exchange: Result<&[u8], Error>) -> (outcome: Result<
        SignAction,
        Error,
    >)
        ensures
            match exchange {
                Ok(response) => spec_sign_step(old(self)@, final(self)@, response@, outcome),
                Err(error) => outcome == Err::<SignAction, Error>(error) && *final(self) == *old(
                    self,
                ),
            },
    {
        match exchange {
            Ok(response) => self.advance(response),
            Err(error) => Err(error),
        }
    }
}

/// What one step of a signing operation does, from the state before it and
/// the response that came in: the state after it and the outcome.
pub open spec fn spec_sign_step(
    before: SigningView,
    after: SigningView,
    response: Seq<u8>,
    outcome: Result<SignAction, Error>,
) -> bool {
    &&& after.requests == before.requests
    &&& if before.sent < before.requests.len() {
        &&& outcome matches Ok(SignAction::Send(request))
        &&& request@ == before.requests[before.sent as int]
        &&& after.sent == before.sent + 1
    } else {
        &&& after.sent == before.sent
        &&& match spec_parse_signature(response) {
            Ok(view) => outcome matches Ok(SignAction::Finish(signature)) && signature@ == view,
            Err(error) => outcome matches Err(e) && e == error,
        }
    }
}

} // verus!
