//! External asset codes.

use vstd::prelude::*;
use vstd::utf8::{decode_utf8, valid_utf8};
use crate::error::BridgeError;

verus! {

/// The number of bytes in an external asset code.
pub const CODE_BYTES: usize = 12;

/// The twelve bytes that identify an asset on the external chain. The bytes
/// are derivation input only and are never interpreted.
#[derive(Clone, Copy, Debug, PartialEq, Eq, Hash)]
pub struct ExternalAssetCode {
    pub bytes: [u8; 12],
}

impl View for ExternalAssetCode {
    type V = Seq<u8>;

    open spec fn view(&self) -> Seq<u8> {
        self.bytes@
    }
}

/// Calls `String::from_utf8`. Trusted: the bytes are accepted exactly when
/// they are valid UTF-8, and the string then holds the text they encode.
#[verifier::external_body]
fn string_from_utf8(bytes: Vec<u8>) -> (text: Option<String>)
    ensures
        text is Some <==> valid_utf8(bytes@),
        text matches Some(s) ==> s@ == decode_utf8(bytes@),
{
    match String::from_utf8(bytes) {
        Ok(s) => Some(s),
        Err(_) => None,
    }
}

impl ExternalAssetCode {
    /// The code made of the given bytes.
    pub fn new(bytes: [u8; 12]) -> (c: ExternalAssetCode)
        ensures
            c.bytes == bytes,
            c@ == bytes@,
    {
        ExternalAssetCode { bytes }
    }

    /// Reads a code from raw input: accepted exactly when the input is twelve
    /// bytes long, and then the code holds those bytes.
    pub fn from_slice(raw: &[u8]) -> (r: Result<ExternalAssetCode, BridgeError>)
        ensures
            raw@.len() == 12 ==> r is Ok && r->Ok_0@ == raw@,
            raw@.len() != 12 ==> r == Err::<ExternalAssetCode, BridgeError>(
                BridgeError::InvalidCodeLength,
            ),
    {
        if raw.len() != 12 {
            return Err(BridgeError::InvalidCodeLength);
        }
        let mut bytes: [u8; 12] = [0u8; 12];
        let mut i: usize = 0;
        while i < 12
            invariant
                i <= 12,
                raw@.len() == 12,
                forall|j: int| 0 <= j < i ==> bytes[j] == raw@[j],
            decreases 12 - i,
        {
            bytes[i] = raw[i];
            i += 1;
        }
        proof {
            assert(bytes@ =~= raw@);
        }
        Ok(ExternalAssetCode { bytes })
    }

    /// The bytes of the code.
    pub fn to_bytes(&self) -> (b: [u8; 12])
        ensures
            b == self.bytes,
            b@ == self@,
    {
        self.bytes
    }

    /// The code as text, for diagnostics: present exactly when the bytes are
    /// valid UTF-8. A code that is no text is still a code, and no operation
    /// depends on this.
    pub fn text(&self) -> (t: Option<String>)
        ensures
            t is Some <==> valid_utf8(self@),
            t matches Some(s) ==> s@ == decode_utf8(self@),
    {
        let mut bytes: Vec<u8> = Vec::new();
        let mut i: usize = 0;
        while i < 12
            invariant
                i <= 12,
                bytes@.len() == i,
                forall|j: int| 0 <= j < i ==> bytes@[j] == self.bytes[j],
            decreases 12 - i,
        {
            bytes.push(self.bytes[i]);
            i += 1;
        }
        proof {
            assert(bytes@ =~= self@);
        }
        string_from_utf8(bytes)
    }

    /// Two codes with the same bytes are the same code.
    pub proof fn lemma_view_injective(a: ExternalAssetCode, b: ExternalAssetCode)
        ensures
            a@ == b@ <==> a == b,
            a@.len() == 12,
    {
        if a@ == b@ {
            assert(a.bytes =~= b.bytes);
        }
    }
}

} // verus!
