//! The decisions of an enrollment and of a session refresh: which relay
//! answers are accepted and what is enrolled.
use vstd::prelude::*;
use crate::auth::{CodexAuth, CodexAuthV};
use crate::device_key::DeviceKeyIdentity;
use crate::error::Error;
use crate::json::{Json, JsonV, entries_view, lemma_object_view};
use crate::protocol::{EnrollmentRecord, device_identity_hash, member, spec_device_identity_hash, str_member};
use crate::relay::EnrollmentStartResponse;
use crate::text::str_eq;

verus! {

/// The relay path whose challenge an enrollment signs.
pub const ENROLL_FINISH_PATH: &'static str = "/codex/remote/control/client/enroll/finish";

/// The relay path whose challenge a session refresh signs.
pub const REFRESH_FINISH_PATH: &'static str = "/codex/remote/control/client/refresh/finish";

/// What `check_enrollment_start` gives: the enrollment must be for the
/// current ChatGPT account, its challenge for the same account user and
/// client, and the challenge not yet expired.
pub open spec fn enrollment_start_outcome(auth: CodexAuthV, start: EnrollmentStartResponse, now_epoch: i64) -> Result<(), Error> {
    let matches_account = start.account_user_id@ == auth.account_user_id || auth.auth_user_id
        == Some(start.account_user_id@);
    if !matches_account || start.device_key_challenge.account_user_id@ != start.account_user_id@
        || start.device_key_challenge.client_id@ != start.client_id@ {
        Err(Error::EnrollmentStartMismatch)
    } else if start.device_key_challenge.challenge_expires_at <= now_epoch {
        Err(Error::EnrollmentChallengeExpired)
    } else {
        Ok(())
    }
}

/// Checks the relay's answer to the start of an enrollment.
pub fn check_enrollment_start(auth: &CodexAuth, start: &EnrollmentStartResponse, now_epoch: i64) -> (r: Result<(), Error>)
    ensures
        r == enrollment_start_outcome(auth@, *start, now_epoch),
{
    if !auth.matches_relay_account_user_id(start.account_user_id.as_str()) || !str_eq(
        start.device_key_challenge.account_user_id.as_str(),
        start.account_user_id.as_str(),
    ) || !str_eq(start.device_key_challenge.client_id.as_str(), start.client_id.as_str()) {
        return Err(Error::EnrollmentStartMismatch);
    }
    if start.device_key_challenge.challenge_expires_at <= now_epoch {
        return Err(Error::EnrollmentChallengeExpired);
    }
    Ok(())
}

/// The enrollment of a new client with a new device key.
pub fn enrollment_record(start: &EnrollmentStartResponse, identity: DeviceKeyIdentity) -> (r: EnrollmentRecord)
    ensures
        r.account_user_id@ == start.account_user_id@,
        r.algorithm@ == identity.algorithm@,
        r.client_id@ == start.client_id@,
        r.key_id@ == identity.key_id@,
        r.protection_class@ == identity.protection_class@,
        r.public_key_spki_der_base64@ == identity.public_key_spki_der_base64@,
{
    EnrollmentRecord {
        account_user_id: start.account_user_id.clone(),
        algorithm: identity.algorithm,
        client_id: start.client_id.clone(),
        key_id: identity.key_id,
        protection_class: identity.protection_class,
        public_key_spki_der_base64: identity.public_key_spki_der_base64,
    }
}

/// What `check_refresh_start` gives: the refresh must be for the local
/// enrollment's account user and client, its challenge must carry the local
/// device identity hash, and it must not have expired.
pub open spec fn refresh_start_outcome(enrollment: EnrollmentRecord, start: EnrollmentStartResponse, now_epoch: i64) -> Result<(), Error> {
    if start.account_user_id@ != enrollment.account_user_id@ || start.client_id@
        != enrollment.client_id@ || start.device_key_challenge.account_user_id@
        != enrollment.account_user_id@ || start.device_key_challenge.client_id@
        != enrollment.client_id@ {
        Err(Error::RefreshChallengeMismatch)
    } else if !(start.device_key_challenge.device_identity_hash matches Some(h) && h@
        == spec_device_identity_hash(enrollment)) {
        Err(Error::RefreshDeviceIdentityMismatch)
    } else if start.device_key_challenge.challenge_expires_at <= now_epoch {
        Err(Error::RefreshChallengeExpired)
    } else {
        Ok(())
    }
}

/// Checks the relay's answer to the start of a session refresh.
pub fn check_refresh_start(enrollment: &EnrollmentRecord, start: &EnrollmentStartResponse, now_epoch: i64) -> (r: Result<(), Error>)
    ensures
        r == refresh_start_outcome(*enrollment, *start, now_epoch),
{
    if !str_eq(start.account_user_id.as_str(), enrollment.account_user_id.as_str()) || !str_eq(
        start.client_id.as_str(),
        enrollment.client_id.as_str(),
    ) || !str_eq(
        start.device_key_challenge.account_user_id.as_str(),
        enrollment.account_user_id.as_str(),
    ) || !str_eq(start.device_key_challenge.client_id.as_str(), enrollment.client_id.as_str()) {
        return Err(Error::RefreshChallengeMismatch);
    }
    let local = device_identity_hash(enrollment);
    let matches = match &start.device_key_challenge.device_identity_hash {
        Some(h) => str_eq(h.as_str(), local.as_str()),
        None => false,
    };
    if !matches {
        return Err(Error::RefreshDeviceIdentityMismatch);
    }
    if start.device_key_challenge.challenge_expires_at <= now_epoch {
        return Err(Error::RefreshChallengeExpired);
    }
    Ok(())
}

/// The body that starts a session refresh.
pub fn refresh_start_body(enrollment: &EnrollmentRecord) -> (r: Json)
    ensures
        r@ == JsonV::Obj(seq![str_member("client_id"@, enrollment.client_id@)]),
{
    let mut e: Vec<(String, Json)> = Vec::new();
    e.push(member("client_id", Json::string(enrollment.client_id.as_str())));
    proof {
        lemma_object_view(e);
        assert(entries_view(e@) =~= seq![str_member("client_id"@, enrollment.client_id@)]);
    }
    Json::Object(e)
}

/// The body that starts an enrollment: an empty object.
pub fn enroll_start_body() -> (r: Json)
    ensures
        r@ == JsonV::Obj(Seq::empty()),
{
    let e: Vec<(String, Json)> = Vec::new();
    proof {
        lemma_object_view(e);
        assert(entries_view(e@) =~= Seq::<(Seq<char>, JsonV)>::empty());
    }
    Json::Object(e)
}

} // verus!
