//! Operator-tooling types: binary command-line input, given as hex text.

use vstd::prelude::*;

use crate::encoding::decode_hex;
use crate::errors::InternalError;

verus! {

/// A byte string given on the command line as hex text.
#[derive(Debug, Clone)]
pub struct EncodedBytes(pub Vec<u8>);

impl EncodedBytes {
    /// Decodes hex text, with or without a leading `0x`, into bytes.
    /// `InvalidInput` exactly where the text is not an even string of hex
    /// digits.
    pub fn decode(s: &[u8]) -> (r: Result<EncodedBytes, InternalError>)
        ensures
            (s@.len() >= 2 && s@[0] == 48 && s@[1] == 120) ==> match r {
                Ok(v) => crate::encoding::hex_parse(s@.skip(2)) == Some(v.0@),
                Err(e) => crate::encoding::hex_parse(s@.skip(2)) is None
                    && e == InternalError::InvalidInput,
            },
            !(s@.len() >= 2 && s@[0] == 48 && s@[1] == 120) ==> match r {
                Ok(v) => crate::encoding::hex_parse(s@) == Some(v.0@),
                Err(e) => crate::encoding::hex_parse(s@) is None
                    && e == InternalError::InvalidInput,
            },
    {
        let stripped: &[u8] = if s.len() >= 2 && s[0] == 48 && s[1] == 120 {
            let t = vstd::slice::slice_subrange(s, 2, s.len());
            proof {
                assert(t@ =~= s@.skip(2));
            }
            t
        } else {
            s
        };
        match decode_hex(stripped) {
            Some(v) => Ok(EncodedBytes(v)),
            None => Err(InternalError::InvalidInput),
        }
    }
}

impl std::str::FromStr for EncodedBytes {
    type Err = InternalError;

    /// Decodes hex text into bytes.
    fn from_str(s: &str) -> Result<EncodedBytes, InternalError> {
        EncodedBytes::decode(s.as_bytes())
    }
}

} // verus!
