use vstd::prelude::*;

use base64::Engine;

use crate::errors::ConfigError;

verus! {

/// The standard, padded base64 text of a byte string. The encoding depends
/// on the input bytes alone.
pub uninterp spec fn base64_of(b: Seq<u8>) -> Seq<u8>;

/// Relies on base64's standard engine (canonical padding): encoding is a
/// pure function of the input; an empty input encodes to an empty text.
#[verifier::external_body]
fn b64_encode(b: &Vec<u8>) -> (r: Vec<u8>)
    ensures
        r@ == base64_of(b@),
        b@.len() == 0 ==> r@.len() == 0,
{
    base64::engine::general_purpose::STANDARD.encode(b).into_bytes()
}

/// Relies on base64's standard engine: its decode requires canonical
/// padding and rejects nonzero trailing bits, so decoding succeeds exactly
/// on encoder output and inverts it.
#[verifier::external_body]
fn b64_decode(s: &Vec<u8>) -> (r: Result<Vec<u8>, ConfigError>)
    ensures
        r matches Ok(v) ==> s@ == base64_of(v@) && (forall|b: Seq<u8>|
            s@ == base64_of(b) ==> b == v@),
        r is Err ==> !(exists|b: Seq<u8>| s@ == base64_of(b)),
{
    match base64::engine::general_purpose::STANDARD.decode(s) {
        Ok(v) => Ok(v),
        Err(_) => Err(ConfigError::BadEncoding),
    }
}

/// Exterior encoding of an invite credential: the JSON document bytes are
/// base64-encoded into one opaque text for out-of-band distribution.
pub fn envelope_encode(json: &Vec<u8>) -> (r: Vec<u8>)
    ensures
        r@ == base64_of(json@),
{
    b64_encode(json)
}

/// Decode the exterior encoding of an invite credential back to the JSON
/// document bytes. Exactly the encoder's outputs decode, and losslessly:
/// decoding what `envelope_encode` produced gives the original bytes back.
pub fn envelope_decode(s: &Vec<u8>) -> (r: Result<Vec<u8>, ConfigError>)
    ensures
        forall|b: Seq<u8>| s@ == base64_of(b) ==> (r matches Ok(v) && v@ == b),
        r matches Ok(v) ==> s@ == base64_of(v@),
        r is Err ==> r == Err::<Vec<u8>, _>(ConfigError::BadEncoding),
{
    match b64_decode(s) {
        Ok(v) => Ok(v),
        Err(_) => Err(ConfigError::BadEncoding),
    }
}

/// The text is the encoding of some 32-byte key.
pub open spec fn is_key_text(s: Seq<u8>) -> bool {
    exists|b: Seq<u8>| b.len() == 32 && s == base64_of(b)
}

/// Decode a base64 key text and insist on the 32-byte key length.
pub fn decode_key(s: &Vec<u8>) -> (r: Result<Vec<u8>, ConfigError>)
    ensures
        r matches Ok(v) ==> v@.len() == 32 && s@ == base64_of(v@),
        is_key_text(s@) ==> r is Ok,
        r is Err ==> r == Err::<Vec<u8>, _>(ConfigError::BadEncoding),
{
    let r = b64_decode(s);
    match r {
        Ok(v) => {
            if v.len() == 32 {
                Ok(v)
            } else {
                proof {
                    if is_key_text(s@) {
                        let b = choose|b: Seq<u8>| b.len() == 32 && s@ == base64_of(b);
                        assert(s@ == base64_of(b));
                    }
                }
                Err(ConfigError::BadEncoding)
            }
        },
        Err(_) => {
            proof {
                if is_key_text(s@) {
                    let b = choose|b: Seq<u8>| b.len() == 32 && s@ == base64_of(b);
                    assert(s@ == base64_of(b));
                }
            }
            Err(ConfigError::BadEncoding)
        },
    }
}

} // verus!
