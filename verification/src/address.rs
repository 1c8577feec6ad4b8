//! The signing identity of a device: a 20-byte Ethereum address, and how it
//! is read from its hexadecimal text form.

use vstd::prelude::*;
use vstd::string::StringSliceAdditionalSpecFns;
use vstd::utf8::valid_utf8;
use std::str::FromStr;

verus! {

/// Number of bytes in an address.
pub const ADDRESS_SIZE: usize = 20;

/// Number of hexadecimal digits in the text form of an address.
pub const ADDRESS_TEXT_SIZE: usize = 40;

/// An Ethereum address.
#[derive(Debug, Clone, Copy, Eq, Hash)]
pub struct Address(pub [u8; 20]);

impl View for Address {
    type V = Seq<u8>;

    open spec fn view(&self) -> Seq<u8> {
        self.0@
    }
}

impl PartialEq for Address {
    fn eq(&self, other: &Self) -> (equal: bool) {
        let mut i: usize = 0;
        while i < ADDRESS_SIZE
            invariant
                i <= ADDRESS_SIZE,
                forall|j: int| 0 <= j < i ==> self.0[j] == other.0[j],
            decreases ADDRESS_SIZE - i,
        {
            if self.0[i] != other.0[i] {
                return false;
            }
            i += 1;
        }
        proof {
            assert(self.0 =~= other.0);
        }
        true
    }
}

impl vstd::std_specs::cmp::PartialEqSpecImpl for Address {
    open spec fn obeys_eq_spec() -> bool {
        true
    }

    open spec fn eq_spec(&self, other: &Self) -> bool {
        *self == *other
    }
}

/// Two addresses are the same exactly when their bytes are.
pub proof fn lemma_address_by_bytes(a: Address, b: Address)
    ensures
        a == b <==> a@ == b@,
{
    if a@ == b@ {
        assert(a.0 =~= b.0);
    }
}

/// The value of a hexadecimal digit given as an ASCII byte, of either case.
pub open spec fn spec_hex_value(digit: u8) -> Option<u8> {
    if 0x30 <= digit <= 0x39 {
        Some((digit - 0x30) as u8)
    } else if 0x61 <= digit <= 0x66 {
        Some((digit - 0x61 + 10) as u8)
    } else if 0x41 <= digit <= 0x46 {
        Some((digit - 0x41 + 10) as u8)
    } else {
        None
    }
}

/// Whether every byte of a text is a hexadecimal digit.
pub open spec fn spec_all_hex(text: Seq<u8>) -> bool {
    forall|i: int| 0 <= i < text.len() ==> (#[trigger] spec_hex_value(text[i])) is Some
}

/// The byte that two hexadecimal digits stand for, the high digit first.
pub open spec fn spec_hex_byte(high: u8, low: u8) -> u8 {
    (spec_hex_value(high).unwrap() * 16 + spec_hex_value(low).unwrap()) as u8
}

/// The address that 40 bytes of text stand for: each pair of hexadecimal
/// digits is one byte, in order. No address if the text has another length
/// or holds anything but digits.
pub open spec fn spec_address_of_hex(text: Seq<u8>) -> Option<Seq<u8>> {
    if text.len() == ADDRESS_TEXT_SIZE && spec_all_hex(text) {
        Some(Seq::new(ADDRESS_SIZE as nat, |i: int| spec_hex_byte(text[2 * i], text[2 * i + 1])))
    } else {
        None
    }
}

/// `core::str::from_utf8`: the bytes as text where they are well-formed
/// UTF-8, and nothing where they are not. The text has the same bytes.
#[verifier::external_body]
pub(crate) fn utf8_text(bytes: &[u8]) -> (text: Option<&str>)
    ensures
        text is Some <==> valid_utf8(bytes@),
        text matches Some(s) ==> s.spec_bytes() == bytes@,
{
    core::str::from_utf8(bytes).ok()
}

/// `ethereum_types::Address::from_str` on a text of 40 bytes: the address
/// whose bytes the 40 hexadecimal digits spell, big-endian, and nothing if
/// any of the bytes is not a hexadecimal digit. (A text of 40 bytes is too
/// short to hold a `0x` prefix or blanks beside 40 digits, which the
/// function would skip.)
#[verifier::external_body]
pub(crate) fn address_from_hex(text: &str) -> (address: Option<Address>)
    requires
        text.spec_bytes().len() == ADDRESS_TEXT_SIZE,
    ensures
        match spec_address_of_hex(text.spec_bytes()) {
            Some(bytes) => address matches Some(a) && a@ == bytes,
            None => address is None,
        },
{
    match ethereum_types::Address::from_str(text) {
        Ok(parsed) => Some(Address(parsed.0)),
        Err(_) => None,
    }
}

} // verus!
