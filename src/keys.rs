use vstd::prelude::*;

verus! {

#[verifier::external_type_specification]
#[verifier::external_body]
pub struct ExDecodeError(base64::DecodeError);

/// The bytes that URL-safe, unpadded base64 text stands for, if it is valid.
pub uninterp spec fn url_safe_decoded(text: Seq<char>) -> Option<Seq<u8>>;

/// The URL-safe, unpadded base64 text of some bytes.
pub uninterp spec fn url_safe_encoded(bytes: Seq<u8>) -> Seq<char>;

/// Length of the unpadded base64 text of `n` bytes: four characters for each
/// full group of three, and two or three for a trailing group of one or two.
pub open spec fn unpadded_len(n: nat) -> nat {
    4 * (n / 3) + if n % 3 == 0 {
        0
    } else {
        n % 3 + 1
    }
}

/// Relies on base64::decode_config with URL_SAFE_NO_PAD: the result depends on
/// the text alone, and it fails exactly where the text is not valid.
#[verifier::external_body]
fn decode_url_safe(text: &String) -> (r: Result<Vec<u8>, base64::DecodeError>)
    ensures
        match r {
            Ok(bytes) => url_safe_decoded(text@) == Some(bytes@),
            Err(_) => url_safe_decoded(text@) == None::<Seq<u8>>,
        },
{
    base64::decode_config(text, base64::URL_SAFE_NO_PAD)
}

/// Relies on base64::encode_config with URL_SAFE_NO_PAD: the text depends on
/// the bytes alone, and its length is what `encoded_size` computes. That
/// computation panics on overflow, which `requires` rules out.
#[verifier::external_body]
fn encode_url_safe(bytes: &Vec<u8>) -> (r: String)
    requires
        4 * (bytes@.len() / 3) + 3 <= usize::MAX,
    ensures
        r@ == url_safe_encoded(bytes@),
        r@.len() == unpadded_len(bytes@.len()),
{
    base64::encode_config(bytes, base64::URL_SAFE_NO_PAD)
}

/// One published signing key: its type and the base64 text of its RSA modulus
/// and exponent.
pub struct Jwk {
    pub kty: String,
    pub n: String,
    pub e: String,
}

/// Why no key material could be taken from a key set.
#[derive(Clone, Copy, Debug, PartialEq, Eq, Structural)]
pub enum KeyError {
    /// The key set is empty.
    NoKey,
    /// The modulus of the first key is not valid base64.
    BadModulus,
    /// The exponent of the first key is not valid base64.
    BadExponent,
}

/// Decodes the modulus and exponent of the first key of a key set.
pub fn rsa_components(keys: &Vec<Jwk>) -> (r: Result<(Vec<u8>, Vec<u8>), KeyError>)
    ensures
        keys@.len() == 0 ==> r == Err::<(Vec<u8>, Vec<u8>), KeyError>(KeyError::NoKey),
        keys@.len() > 0 ==> match r {
            Ok((n, e)) => url_safe_decoded(keys@[0].n@) == Some(n@) && url_safe_decoded(keys@[0].e@)
                == Some(e@),
            Err(KeyError::BadModulus) => url_safe_decoded(keys@[0].n@) == None::<Seq<u8>>,
            Err(KeyError::BadExponent) => url_safe_decoded(keys@[0].n@) != None::<Seq<u8>>
                && url_safe_decoded(keys@[0].e@) == None::<Seq<u8>>,
            Err(KeyError::NoKey) => false,
        },
{
    if keys.len() == 0 {
        return Err(KeyError::NoKey);
    }
    let key = &keys[0];
    let n = match decode_url_safe(&key.n) {
        Ok(n) => n,
        Err(_) => return Err(KeyError::BadModulus),
    };
    let e = match decode_url_safe(&key.e) {
        Ok(e) => e,
        Err(_) => return Err(KeyError::BadExponent),
    };
    Ok((n, e))
}

/// The URL-safe, unpadded base64 text of key material, or `None` where the
/// text would not fit in memory.
pub fn key_text(bytes: &Vec<u8>) -> (r: Option<String>)
    ensures
        match r {
            Some(t) => 4 * (bytes@.len() / 3) + 3 <= usize::MAX && t@ == url_safe_encoded(bytes@),
            None => 4 * (bytes@.len() / 3) + 3 > usize::MAX,
        },
{
    if bytes.len() / 3 > (usize::MAX - 3) / 4 {
        None
    } else {
        Some(encode_url_safe(bytes))
    }
}

} // verus!
