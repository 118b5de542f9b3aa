//! Relay sessions: device-key proofs, the enrollment and refresh bodies, and
//! the checks that bind a session and a websocket challenge to the local
//! enrollment.
use vstd::prelude::*;
use vstd::utf8::encode_utf8;
use crate::error::{same_error, Error};
use crate::json::{Json, JsonV, entries_view, lemma_object_view};
use crate::outside::{
    base64_standard_encode, base64_url_decode, rfc3339_seconds, rfc3339_timestamp, sha256,
    sha256_digest, standard_base64, url_safe_base64_decoded,
};
use crate::protocol::{
    ConnectionChallenge, EnrollmentChallenge, EnrollmentRecord, build_connection_signing_payload,
    connection_signing_outcome, is_session_scope_list, is_session_scopes, member, str_member,
};
use crate::text::{is_well_formed_secret, secret_well_formed, string_of};

verus! {

broadcast use vstd::string::group_string_axioms;

/// The relay's answer to the start of an enrollment or a session refresh.
pub struct EnrollmentStartResponse {
    pub account_user_id: String,
    pub client_id: String,
    pub device_key_challenge: EnrollmentChallenge,
}

/// A device key's answer to a challenge.
#[derive(Clone)]
pub struct DeviceKeyProof {
    pub algorithm: String,
    pub challenge_token: String,
    pub key_id: String,
    pub signature_der_base64: String,
    pub signed_payload_base64: String,
}

/// A relay session of this controller.
#[derive(Clone)]
pub struct RemoteControlSession {
    pub account_user_id: String,
    pub client_id: String,
    pub expires_at: String,
    pub remote_control_token: String,
    pub scopes: Vec<String>,
}

/// The signature algorithm of the device key.
pub const DEVICE_KEY_ALGORITHM: &'static str = "ecdsa_p256_sha256";

/// The proof that answers `challenge_token` with `signature_der` over
/// `signed_payload`, both in standard base64.
pub fn device_key_proof(
    challenge_token: &str,
    key_id: &str,
    signed_payload: &[u8],
    signature_der: &[u8],
) -> (r: DeviceKeyProof)
    ensures
        r.algorithm@ == DEVICE_KEY_ALGORITHM@,
        r.challenge_token@ == challenge_token@,
        r.key_id@ == key_id@,
        r.signature_der_base64@ == standard_base64(signature_der@),
        r.signed_payload_base64@ == standard_base64(signed_payload@),
{
    DeviceKeyProof {
        algorithm: string_of(DEVICE_KEY_ALGORITHM),
        challenge_token: string_of(challenge_token),
        key_id: string_of(key_id),
        signature_der_base64: base64_standard_encode(signature_der),
        signed_payload_base64: base64_standard_encode(signed_payload),
    }
}

/// A proof as JSON, members in key order.
pub open spec fn proof_value(proof: DeviceKeyProof) -> JsonV {
    JsonV::Obj(
        seq![
            str_member("algorithm"@, proof.algorithm@),
            str_member("challenge_token"@, proof.challenge_token@),
            str_member("key_id"@, proof.key_id@),
            str_member("signature_der_base64"@, proof.signature_der_base64@),
            str_member("signed_payload_base64"@, proof.signed_payload_base64@),
        ],
    )
}

fn proof_json(proof: &DeviceKeyProof) -> (r: Json)
    ensures
        r@ == proof_value(*proof),
{
    let mut e: Vec<(String, Json)> = Vec::new();
    e.push(member("algorithm", Json::string(proof.algorithm.as_str())));
    e.push(member("challenge_token", Json::string(proof.challenge_token.as_str())));
    e.push(member("key_id", Json::string(proof.key_id.as_str())));
    e.push(member("signature_der_base64", Json::string(proof.signature_der_base64.as_str())));
    e.push(member("signed_payload_base64", Json::string(proof.signed_payload_base64.as_str())));
    proof {
        lemma_object_view(e);
        assert(entries_view(e@) =~= proof_value(*proof)->Obj_0);
    }
    Json::Object(e)
}

/// The body that finishes an enrollment, members in key order.
pub open spec fn enroll_finish_value(
    enrollment: EnrollmentRecord,
    step_up_token: Seq<char>,
    proof: DeviceKeyProof,
) -> JsonV {
    JsonV::Obj(
        seq![
            str_member("client_id"@, enrollment.client_id@),
            (
                "device_identity"@,
                JsonV::Obj(
                    seq![
                        str_member("algorithm"@, enrollment.algorithm@),
                        str_member("key_id"@, enrollment.key_id@),
                        str_member("protection_class"@, enrollment.protection_class@),
                        str_member(
                            "public_key_spki_der_base64"@,
                            enrollment.public_key_spki_der_base64@,
                        ),
                    ],
                ),
            ),
            ("device_key_proof"@, proof_value(proof)),
            str_member("step_up_token"@, step_up_token),
        ],
    )
}

/// The body that finishes an enrollment: the new client, its device identity,
/// the step-up token and the device-key proof.
pub fn build_enroll_finish_body(
    enrollment: &EnrollmentRecord,
    step_up_token: &str,
    proof: DeviceKeyProof,
) -> (r: Json)
    ensures
        r@ == enroll_finish_value(*enrollment, step_up_token@, proof),
{
    let mut identity: Vec<(String, Json)> = Vec::new();
    identity.push(member("algorithm", Json::string(enrollment.algorithm.as_str())));
    identity.push(member("key_id", Json::string(enrollment.key_id.as_str())));
    identity.push(member("protection_class", Json::string(enrollment.protection_class.as_str())));
    identity.push(
        member(
            "public_key_spki_der_base64",
            Json::string(enrollment.public_key_spki_der_base64.as_str()),
        ),
    );
    let ghost iv = entries_view(identity@);
    proof {
        lemma_object_view(identity);
    }
    let mut e: Vec<(String, Json)> = Vec::new();
    e.push(member("client_id", Json::string(enrollment.client_id.as_str())));
    e.push(member("device_identity", Json::Object(identity)));
    e.push(member("device_key_proof", proof_json(&proof)));
    e.push(member("step_up_token", Json::string(step_up_token)));
    proof {
        lemma_object_view(e);
        assert(iv =~= enroll_finish_value(*enrollment, step_up_token@, proof)->Obj_0[1].1->Obj_0);
        assert(entries_view(e@) =~= enroll_finish_value(*enrollment, step_up_token@, proof)->Obj_0);
    }
    Json::Object(e)
}

/// The body that finishes a session refresh.
pub open spec fn refresh_finish_value(enrollment: EnrollmentRecord, proof: DeviceKeyProof) -> JsonV {
    JsonV::Obj(
        seq![
            str_member("client_id"@, enrollment.client_id@),
            ("device_key_proof"@, proof_value(proof)),
        ],
    )
}

/// The body that finishes a session refresh: the client and the proof, and
/// no device identity.
pub fn build_refresh_finish_body(enrollment: &EnrollmentRecord, proof: DeviceKeyProof) -> (r: Json)
    ensures
        r@ == refresh_finish_value(*enrollment, proof),
{
    let mut e: Vec<(String, Json)> = Vec::new();
    e.push(member("client_id", Json::string(enrollment.client_id.as_str())));
    e.push(member("device_key_proof", proof_json(&proof)));
    proof {
        lemma_object_view(e);
        assert(entries_view(e@) =~= refresh_finish_value(*enrollment, proof)->Obj_0);
    }
    Json::Object(e)
}

/// What `validate_remote_session` gives: the session's expiry, when the
/// session belongs to the enrollment, has exactly the websocket scope, a
/// well-formed token and an RFC 3339 expiry after `now_epoch`.
pub open spec fn session_outcome(
    enrollment: EnrollmentRecord,
    session: RemoteControlSession,
    now_epoch: i64,
) -> Result<i64, Error> {
    if session.client_id@ != enrollment.client_id@ || session.account_user_id@
        != enrollment.account_user_id@ {
        Err(Error::SessionMismatch)
    } else if !is_session_scope_list(session.scopes@) {
        Err(Error::UnexpectedSessionScopes)
    } else if !secret_well_formed(session.remote_control_token@) {
        Err(Error::MalformedSessionToken)
    } else {
        match rfc3339_seconds(session.expires_at@) {
            None => Err(Error::SessionExpirationNotRfc3339),
            Some(t) => if t <= now_epoch {
                Err(Error::SessionExpired)
            } else {
                Ok(t)
            },
        }
    }
}

/// Checks that a relay session belongs to the local enrollment and is still
/// valid, and gives its expiry as a UNIX timestamp.
pub fn validate_remote_session(
    enrollment: &EnrollmentRecord,
    session: &RemoteControlSession,
    now_epoch: i64,
) -> (r: Result<i64, Error>)
    ensures
        r == session_outcome(*enrollment, *session, now_epoch),
{
    if session.client_id != enrollment.client_id || session.account_user_id
        != enrollment.account_user_id {
        return Err(Error::SessionMismatch);
    }
    if !is_session_scopes(&session.scopes) {
        return Err(Error::UnexpectedSessionScopes);
    }
    validate_session_secret(session.remote_control_token.as_str())?;
    let expires_at = match rfc3339_timestamp(session.expires_at.as_str()) {
        Some(t) => t,
        None => return Err(Error::SessionExpirationNotRfc3339),
    };
    if expires_at <= now_epoch {
        return Err(Error::SessionExpired);
    }
    Ok(expires_at)
}

/// What `validate_and_build_connection_signing_payload` gives.
pub open spec fn connection_payload_outcome(
    enrollment: EnrollmentRecord,
    session: RemoteControlSession,
    challenge: ConnectionChallenge,
    now_epoch: i64,
) -> Result<Seq<u8>, Error> {
    match session_outcome(enrollment, session, now_epoch) {
        Err(e) => Err(e),
        Ok(expiry) => if challenge.client_id@ != enrollment.client_id@
            || challenge.account_user_id@ != enrollment.account_user_id@
            || challenge.token_expires_at != expiry || challenge.token_expires_at <= now_epoch {
            Err(Error::ChallengeSessionMismatch)
        } else {
            match url_safe_base64_decoded(challenge.token_sha256_base64url@) {
                None => Err(Error::ChallengeDigestInvalid),
                Some(supplied) => if sha256_digest(encode_utf8(session.remote_control_token@))
                    != supplied {
                    Err(Error::ChallengeTokenMismatch)
                } else {
                    connection_signing_outcome(challenge)
                },
            }
        },
    }
}

/// Checks a websocket challenge against the enrollment and the session it
/// must be bound to (the session's expiry and the SHA-256 of its token), and
/// gives the bytes that the device key signs.
pub fn validate_and_build_connection_signing_payload(
    enrollment: &EnrollmentRecord,
    session: &RemoteControlSession,
    challenge: &ConnectionChallenge,
    now_epoch: i64,
) -> (r: Result<Vec<u8>, Error>)
    ensures
        match r {
            Ok(b) => connection_payload_outcome(*enrollment, *session, *challenge, now_epoch)
                == Ok::<Seq<u8>, Error>(b@),
            Err(e) => connection_payload_outcome(*enrollment, *session, *challenge, now_epoch)
                is Err && same_error(
                e,
                connection_payload_outcome(*enrollment, *session, *challenge, now_epoch)->Err_0,
            ),
        },
{
    let session_expiration = validate_remote_session(enrollment, session, now_epoch)?;
    if challenge.client_id != enrollment.client_id || challenge.account_user_id
        != enrollment.account_user_id || challenge.token_expires_at != session_expiration
        || challenge.token_expires_at <= now_epoch {
        return Err(Error::ChallengeSessionMismatch);
    }
    let expected = sha256(session.remote_control_token.as_str().as_bytes());
    let supplied = match base64_url_decode(challenge.token_sha256_base64url.as_str()) {
        Some(s) => s,
        None => return Err(Error::ChallengeDigestInvalid),
    };
    if !constant_time_equal(expected.as_slice(), supplied.as_slice()) {
        return Err(Error::ChallengeTokenMismatch);
    }
    build_connection_signing_payload(challenge)
}

/// Refuses a session token that is empty or holds whitespace.
pub fn validate_session_secret(value: &str) -> (r: Result<(), Error>)
    ensures
        r is Ok <==> secret_well_formed(value@),
        r is Err ==> r == Err::<(), Error>(Error::MalformedSessionToken),
{
    if !is_well_formed_secret(value) {
        return Err(Error::MalformedSessionToken);
    }
    Ok(())
}

/// Compares two byte strings in time that depends only on their lengths.
pub fn constant_time_equal(left: &[u8], right: &[u8]) -> (r: bool)
    ensures
        r == (left@ == right@),
{
    if left.len() != right.len() {
        return false;
    }
    let mut difference: u8 = 0;
    let mut i: usize = 0;
    while i < left.len()
        invariant
            i <= left@.len() == right@.len(),
            (difference == 0) == (forall|k: int| 0 <= k < i ==> left@[k] == right@[k]),
        decreases left@.len() - i,
    {
        let a = left[i];
        let b = right[i];
        let d = difference;
        assert((d | (a ^ b)) == 0 <==> (d == 0 && a == b)) by (bit_vector);
        difference = d | (a ^ b);
        proof {
            if difference == 0 {
                assert forall|k: int| 0 <= k < i + 1 implies left@[k] == right@[k] by {
                    if k < i {
                    }
                }
            } else {
                if d == 0 {
                    assert(left@[i as int] != right@[i as int]);
                }
            }
        }
        i += 1;
    }
    if difference == 0 {
        assert(left@ =~= right@);
    }
    difference == 0
}

} // verus!
