//! Device keys: the public key in SPKI form, the key ID derived from the
//! keychain's application label, and the identity that is enrolled.
use vstd::prelude::*;
use crate::error::Error;
use crate::outside::{
    base64_standard_encode, base64_url_decode, base64_url_encode, standard_base64,
    url_safe_base64, url_safe_base64_decoded,
};
use crate::relay::DEVICE_KEY_ALGORITHM;
use crate::text::{chars_of, push_str, string_from_chars, string_of, sub_chars};

verus! {

/// The public identity of a device key, as it is enrolled.
#[derive(Clone, Debug, PartialEq, Eq)]
pub struct DeviceKeyIdentity {
    pub algorithm: String,
    pub key_id: String,
    pub protection_class: String,
    pub public_key_spki_der_base64: String,
}

/// The DER header of a P-256 public key in SubjectPublicKeyInfo form, up to
/// the key's point.
pub open spec fn p256_spki_prefix() -> Seq<u8> {
    seq![
        0x30u8, 0x59, 0x30, 0x13, 0x06, 0x07, 0x2a, 0x86, 0x48, 0xce, 0x3d, 0x02, 0x01, 0x06, 0x08,
        0x2a, 0x86, 0x48, 0xce, 0x3d, 0x03, 0x01, 0x07, 0x03, 0x42, 0x00,
    ]
}

/// Whether bytes are an uncompressed P-256 point: 65 bytes starting with 4.
pub open spec fn is_uncompressed_p256(point: Seq<u8>) -> bool {
    point.len() == 65 && point[0] == 0x04
}

/// Wraps an uncompressed P-256 point in the SubjectPublicKeyInfo DER
/// structure.
pub fn p256_x963_to_spki_der(point: &[u8]) -> (r: Result<Vec<u8>, Error>)
    ensures
        match r {
            Ok(der) => is_uncompressed_p256(point@) && der@ == p256_spki_prefix() + point@,
            Err(e) => e == Error::InvalidPublicKey && !is_uncompressed_p256(point@),
        },
{
    if point.len() != 65 || point[0] != 0x04 {
        return Err(Error::InvalidPublicKey);
    }
    let mut der: Vec<u8> = vec![
        0x30, 0x59, 0x30, 0x13, 0x06, 0x07, 0x2a, 0x86, 0x48, 0xce, 0x3d, 0x02, 0x01, 0x06, 0x08,
        0x2a, 0x86, 0x48, 0xce, 0x3d, 0x03, 0x01, 0x07, 0x03, 0x42, 0x00,
    ];
    assert(der@ =~= p256_spki_prefix());
    let mut i: usize = 0;
    while i < point.len()
        invariant
            i <= point@.len(),
            der@ == p256_spki_prefix() + point@.take(i as int),
        decreases point@.len() - i,
    {
        der.push(point[i]);
        assert(point@.take(i + 1) =~= point@.take(i as int).push(point@[i as int]));
        assert(der@ =~= p256_spki_prefix() + point@.take(i + 1));
        i += 1;
    }
    assert(point@.take(i as int) =~= point@);
    Ok(der)
}

/// The prefix of every device key ID.
pub const DEVICE_KEY_ID_PREFIX: &'static str = "rcodex_osn_";

/// The protection class of a device key that the keychain will not export.
pub const DEVICE_KEY_PROTECTION_CLASS: &'static str = "os_protected_nonextractable";

/// The key ID of the keychain item with this application label.
pub open spec fn device_key_id_text(label: Seq<u8>) -> Seq<char> {
    DEVICE_KEY_ID_PREFIX@ + url_safe_base64(label)
}

pub fn device_key_id(label: &[u8]) -> (r: String)
    ensures
        r@ == device_key_id_text(label@),
{
    let mut s = string_of(DEVICE_KEY_ID_PREFIX);
    let encoded = base64_url_encode(label);
    push_str(&mut s, encoded.as_str());
    s
}

/// What `application_label` gives: the 20-byte application label in a key
/// ID.
pub open spec fn label_outcome(key_id: Seq<char>) -> Result<Seq<u8>, Error> {
    let p = DEVICE_KEY_ID_PREFIX@;
    if key_id.len() < p.len() || key_id.take(p.len() as int) != p {
        Err(Error::UnexpectedKeyId)
    } else {
        match url_safe_base64_decoded(key_id.skip(p.len() as int)) {
            None => Err(Error::KeyIdNotBase64),
            Some(label) => if label.len() != 20 {
                Err(Error::InvalidApplicationLabel)
            } else {
                Ok(label)
            },
        }
    }
}

/// The keychain application label that a device key ID names.
pub fn application_label(key_id: &str) -> (r: Result<Vec<u8>, Error>)
    ensures
        match r {
            Ok(l) => label_outcome(key_id@) == Ok::<Seq<u8>, Error>(l@),
            Err(e) => label_outcome(key_id@) == Err::<Seq<u8>, Error>(e),
        },
{
    proof {
        reveal_strlit("rcodex_osn_");
    }
    let chars = chars_of(key_id);
    let prefix = chars_of(DEVICE_KEY_ID_PREFIX);
    if chars.len() < prefix.len() {
        return Err(Error::UnexpectedKeyId);
    }
    let mut i: usize = 0;
    while i < prefix.len()
        invariant
            i <= prefix@.len() <= chars@.len(),
            prefix@ == DEVICE_KEY_ID_PREFIX@,
            chars@ == key_id@,
            forall|k: int| 0 <= k < i ==> chars@[k] == prefix@[k],
        decreases prefix@.len() - i,
    {
        if chars[i] != prefix[i] {
            assert(key_id@.take(prefix@.len() as int)[i as int] != prefix@[i as int]);
            return Err(Error::UnexpectedKeyId);
        }
        i += 1;
    }
    assert(key_id@.take(prefix@.len() as int) =~= prefix@);
    let rest = sub_chars(&chars, prefix.len(), chars.len());
    assert(rest@ =~= key_id@.skip(prefix@.len() as int));
    let encoded = string_from_chars(rest.as_slice());
    let label = match base64_url_decode(encoded.as_str()) {
        Some(l) => l,
        None => return Err(Error::KeyIdNotBase64),
    };
    if label.len() != 20 {
        return Err(Error::InvalidApplicationLabel);
    }
    Ok(label)
}

/// The identity of a new device key, from its application label and its
/// public point.
pub open spec fn identity_outcome(label: Seq<u8>, public_x963: Seq<u8>) -> Option<(Seq<char>, Seq<char>)> {
    if is_uncompressed_p256(public_x963) {
        Some((device_key_id_text(label), standard_base64(p256_spki_prefix() + public_x963)))
    } else {
        None
    }
}

/// The enrolled identity of a new non-exportable device key, given its
/// application label and its public point.
pub fn device_key_identity(label: &[u8], public_x963: &[u8]) -> (r: Result<DeviceKeyIdentity, Error>)
    ensures
        match r {
            Ok(id) => identity_outcome(label@, public_x963@) == Some((id.key_id@, id.public_key_spki_der_base64@))
                && id.algorithm@ == DEVICE_KEY_ALGORITHM@ && id.protection_class@
                == DEVICE_KEY_PROTECTION_CLASS@,
            Err(e) => e == Error::InvalidPublicKey && identity_outcome(label@, public_x963@) is None,
        },
{
    let key_id = device_key_id(label);
    let der = p256_x963_to_spki_der(public_x963)?;
    let public_key_spki_der_base64 = base64_standard_encode(der.as_slice());
    Ok(
        DeviceKeyIdentity {
            algorithm: string_of(DEVICE_KEY_ALGORITHM),
            key_id,
            protection_class: string_of(DEVICE_KEY_PROTECTION_CLASS),
            public_key_spki_der_base64,
        },
    )
}

/// Creating a device key needs the macOS Security framework.  This function
/// is the answer where that framework is missing: it always refuses.  The
/// keychain calls themselves are platform I/O outside this library; on macOS
/// the program around it makes them and builds the key's identity with
/// `device_key_identity` and `application_label`.
pub fn create_os_protected_device_key() -> (r: Result<DeviceKeyIdentity, Error>)
    ensures
        r matches Err(e) && e == Error::DeviceKeysNeedMacos,
{
    Err(Error::DeviceKeysNeedMacos)
}

/// Signing with a device key needs the macOS Security framework; where it is
/// missing this always refuses.
pub fn sign_with_os_protected_device_key(key_id: &str, payload: &[u8]) -> (r: Result<Vec<u8>, Error>)
    ensures
        r matches Err(e) && e == Error::DeviceKeysNeedMacos,
{
    Err(Error::DeviceKeysNeedMacos)
}

/// Deleting a device key needs the macOS Security framework; where it is
/// missing this always refuses.
pub fn delete_os_protected_device_key(key_id: &str) -> (r: Result<(), Error>)
    ensures
        r == Err::<(), Error>(Error::DeviceKeysNeedMacos),
{
    Err(Error::DeviceKeysNeedMacos)
}

} // verus!
