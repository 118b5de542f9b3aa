//! The reasons for which the library refuses an input.
use vstd::prelude::*;
use crate::outside::{status_reason, status_reason_phrase};
use crate::text::{decimal, push_str, string_of};

verus! {

/// A field of a relay envelope.
#[derive(Clone, Copy, Debug, PartialEq, Eq)]
pub enum RelayField {
    ClientId,
    EnvId,
    StreamId,
    SeqId,
    SegmentId,
    SegmentCount,
    MessageSizeBytes,
    MessageChunkBase64,
}

impl RelayField {
    /// The field's name in the envelope.
    pub open spec fn spec_name(self) -> Seq<char> {
        match self {
            RelayField::ClientId => "client_id"@,
            RelayField::EnvId => "env_id"@,
            RelayField::StreamId => "stream_id"@,
            RelayField::SeqId => "seq_id"@,
            RelayField::SegmentId => "segment_id"@,
            RelayField::SegmentCount => "segment_count"@,
            RelayField::MessageSizeBytes => "message_size_bytes"@,
            RelayField::MessageChunkBase64 => "message_chunk_base64"@,
        }
    }

    pub fn name(&self) -> (r: &'static str)
        ensures
            r@ == self.spec_name(),
    {
        match self {
            RelayField::ClientId => "client_id",
            RelayField::EnvId => "env_id",
            RelayField::StreamId => "stream_id",
            RelayField::SeqId => "seq_id",
            RelayField::SegmentId => "segment_id",
            RelayField::SegmentCount => "segment_count",
            RelayField::MessageSizeBytes => "message_size_bytes",
            RelayField::MessageChunkBase64 => "message_chunk_base64",
        }
    }
}

/// A secret read from the Codex authentication file or a refresh response.
#[derive(Clone, Copy, Debug, PartialEq, Eq)]
pub enum SecretKind {
    AccessToken,
    RefreshToken,
    RefreshedAccessToken,
    RefreshedIdToken,
    RotatedRefreshToken,
}

impl SecretKind {
    /// How the secret is called in messages.
    pub open spec fn spec_name(self) -> Seq<char> {
        match self {
            SecretKind::AccessToken => "access token"@,
            SecretKind::RefreshToken => "refresh token"@,
            SecretKind::RefreshedAccessToken => "refreshed access token"@,
            SecretKind::RefreshedIdToken => "refreshed ID token"@,
            SecretKind::RotatedRefreshToken => "rotated refresh token"@,
        }
    }

    pub fn name(&self) -> (r: &'static str)
        ensures
            r@ == self.spec_name(),
    {
        match self {
            SecretKind::AccessToken => "access token",
            SecretKind::RefreshToken => "refresh token",
            SecretKind::RefreshedAccessToken => "refreshed access token",
            SecretKind::RefreshedIdToken => "refreshed ID token",
            SecretKind::RotatedRefreshToken => "rotated refresh token",
        }
    }
}

/// The refusal of a URL that the `url` crate could not read, with the text of
/// its error: the error holds some string whose text is `text`.
pub open spec fn url_error(text: Seq<char>) -> Error {
    Error::InvalidUrl(choose|s: String| s@ == text)
}

/// Whether `e` is the refusal `expected`: the same one, and for a URL error
/// one with the same text.
pub open spec fn same_error(e: Error, expected: Error) -> bool {
    match (e, expected) {
        (Error::InvalidUrl(a), Error::InvalidUrl(b)) => a@ == b@,
        _ => e == expected,
    }
}

/// The URL error built from a string is the one its text names.
pub proof fn lemma_url_error(s: String)
    ensures
        same_error(Error::InvalidUrl(s), url_error(s@)),
{
    assert(exists|t: String| t@ == s@);
}

/// What `StatusCode`'s `Display` writes after a status number: its reason
/// phrase, or `<unknown status code>`.
pub open spec fn status_reason_text(status: u16) -> Seq<char> {
    match status_reason_phrase(status) {
        Some(t) => t,
        None => "<unknown status code>"@,
    }
}

/// Why an operation was refused.
#[derive(Clone, Debug, PartialEq, Eq)]
pub enum Error {
    // Relay contract
    NonceNotBase64,
    NonceTooShort,
    DigestNotBase64,
    DigestNotSha256,
    /// A URL that the `url` crate refused, with its error text.
    InvalidUrl(String),
    EnrollmentChallengeMismatch,
    MissingDeviceIdentityHash,
    DeviceIdentityMismatch,
    ConnectionChallengeMismatch,
    // Relay sessions
    SessionMismatch,
    UnexpectedSessionScopes,
    MalformedSessionToken,
    SessionExpirationNotRfc3339,
    SessionExpired,
    ChallengeSessionMismatch,
    ChallengeDigestInvalid,
    ChallengeTokenMismatch,
    // Relay API
    EmptyClientId,
    InvalidPairingCode,
    InvalidRevocationPath,
    RequestFailed(u16),
    // Enrollment and refresh
    EnrollmentStartMismatch,
    EnrollmentChallengeExpired,
    RefreshChallengeMismatch,
    RefreshDeviceIdentityMismatch,
    RefreshChallengeExpired,
    // Codex authentication
    NotChatGptAuth,
    AuthHasNoTokens,
    MalformedSecret(SecretKind),
    AccessTokenClaimsInvalid,
    AccessTokenNotJwt,
    AccessTokenNotBase64,
    NoAccountId,
    AccountIdMismatch,
    NoAccountUserId,
    AuthDocumentNotObject,
    AuthDocumentHasNoTokens,
    // OAuth step-up
    StepUpTokenNotJwt,
    StepUpTokenNotBase64,
    StepUpClaimsInvalid,
    StepUpNoAccountUserId,
    StepUpWrongAccount,
    StepUpNotFresh,
    StepUpNoFreshPassword,
    StepUpUnexpectedScopes,
    CallbackNotUtf8,
    CallbackMalformed,
    CallbackStateMismatch,
    CallbackAuthorizationFailed(String),
    CallbackNoCode,
    // Codex compatibility
    VersionHasControl,
    VersionEmpty,
    VersionMalformed,
    MalformedStockVersion,
    StockVersionPrefix,
    StockVersionMissing,
    StockVersionInvalid,
    MissingRemoteOptions(String),
    LocalVersionInvalid,
    RemoteVersionMissing(String),
    RemoteVersionInvalid(String),
    VersionMismatch(String, String, String),
    // Device keys
    InvalidPublicKey,
    UnexpectedKeyId,
    KeyIdNotBase64,
    InvalidApplicationLabel,
    DeviceKeysNeedMacos,
    // Host selection
    EnvironmentNotFound(String),
    EnvironmentOffline(String),
    NoHostOnline,
    SeveralHostsOnline,
    // Command line
    UnrecognisedCommandLine,
    // Relay transport
    InvalidWebsocketScheme,
    ChallengeNotDeviceKey,
    SegmentingNonClientMessage,
    ClientEnvelopeHasNoMessage,
    MessageTooLarge,
    SegmentMetadataTooLarge,
    SegmentTooLarge,
    SegmentNotObject,
    MissingStringField(RelayField),
    MissingNumberField(RelayField),
    InvalidSegmentMetadata,
    SegmentNotBase64,
    InvalidSegmentSize,
    TooManyAssemblies,
    SegmentMetadataChanged,
    SegmentChanged,
    ReassemblyLimit,
    ReassembledSizeWrong,
    ReassembledInvalid,
    ReassembledNotObject,
    EnvelopeNotObject,
    EnvelopeTargetsOtherClient,
    ServerMessageNoSequence,
    SequenceGap,
    ServerMessageNoPayload,
    ErrorWithoutPendingRequest,
    ErrorPayloadNotObject,
}

impl Error {
    /// The sentence that describes the refusal.
    /// The sentence that describes the refusal, as text.
    pub open spec fn message_text(&self) -> Seq<char> {
        match self {
            Error::NonceNotBase64 => "remote-control nonce is not base64url"@,
            Error::NonceTooShort => "remote-control nonce is too short"@,
            Error::DigestNotBase64 => "remote-control digest is not base64url"@,
            Error::DigestNotSha256 => "remote-control digest is not a SHA-256 value"@,
            Error::InvalidUrl(text) => text@,
            Error::EnrollmentChallengeMismatch => "remote-control enrollment challenge does not match the local enrollment"@,
            Error::MissingDeviceIdentityHash => "remote-control enrollment challenge is missing device identity hash"@,
            Error::DeviceIdentityMismatch => "remote-control enrollment challenge does not match local device identity"@,
            Error::ConnectionChallengeMismatch => "remote-control websocket challenge does not match the expected relay contract"@,
            Error::SessionMismatch => "remote-control session does not match the local enrollment"@,
            Error::UnexpectedSessionScopes => "remote-control session has unexpected scopes"@,
            Error::MalformedSessionToken => "remote-control session token is empty or malformed"@,
            Error::SessionExpirationNotRfc3339 => "remote-control session expiration is not RFC 3339"@,
            Error::SessionExpired => "remote-control session is already expired"@,
            Error::ChallengeSessionMismatch => "remote-control websocket challenge does not match the active session"@,
            Error::ChallengeDigestInvalid => "remote-control websocket challenge token digest is invalid"@,
            Error::ChallengeTokenMismatch => "remote-control websocket challenge is bound to a different session token"@,
            Error::EmptyClientId => "rcodex client ID is empty"@,
            Error::InvalidPairingCode => "manual pairing code must contain exactly eight letters or digits"@,
            Error::InvalidRevocationPath => "could not construct client revocation path"@,
            Error::RequestFailed(status) => "remote-control request failed ("@ + decimal(
                *status as nat,
            ) + " "@ + status_reason_text(*status) + ")"@,
            Error::EnrollmentStartMismatch => "remote-control enrollment start does not match the current ChatGPT account"@,
            Error::EnrollmentChallengeExpired => "remote-control enrollment challenge is already expired"@,
            Error::RefreshChallengeMismatch => "remote-control refresh challenge does not match the local enrollment"@,
            Error::RefreshDeviceIdentityMismatch => "remote-control refresh challenge has the wrong device identity"@,
            Error::RefreshChallengeExpired => "remote-control refresh challenge is already expired"@,
            Error::NotChatGptAuth => "rcodex requires Codex CLI ChatGPT subscription authentication"@,
            Error::AuthHasNoTokens => "Codex auth file has no tokens"@,
            Error::MalformedSecret(kind) => "Codex "@ + kind.spec_name() + " is empty or malformed"@,
            Error::AccessTokenNotJwt => "Codex access token is not a JWT"@,
            Error::AccessTokenNotBase64 => "Codex access token payload is not base64url"@,
            Error::AccessTokenClaimsInvalid => "Codex access token payload is invalid"@,
            Error::NoAccountId => "Codex access token has no ChatGPT account ID"@,
            Error::AccountIdMismatch => "Codex auth account ID does not match its access token"@,
            Error::NoAccountUserId => "Codex access token has no ChatGPT account user ID"@,
            Error::AuthDocumentNotObject => "Codex auth document is not an object"@,
            Error::AuthDocumentHasNoTokens => "Codex auth document has no token object"@,
            Error::StepUpTokenNotJwt => "remote-control step-up token is not a JWT"@,
            Error::StepUpTokenNotBase64 => "remote-control step-up token is not base64url"@,
            Error::StepUpClaimsInvalid => "remote-control step-up token payload is invalid"@,
            Error::StepUpNoAccountUserId => "remote-control step-up token has no account user ID"@,
            Error::StepUpWrongAccount => "remote-control step-up token belongs to a different account"@,
            Error::StepUpNotFresh => "remote-control step-up token is not fresh"@,
            Error::StepUpNoFreshPassword => "remote-control step-up token has no fresh password authentication"@,
            Error::StepUpUnexpectedScopes => "remote-control step-up token has unexpected authorization scopes"@,
            Error::CallbackNotUtf8 => "OAuth callback is not UTF-8"@,
            Error::CallbackMalformed => "OAuth callback request is malformed"@,
            Error::CallbackStateMismatch => "remote-control OAuth callback state did not match"@,
            Error::CallbackAuthorizationFailed(reason) => "remote-control authorization failed: "@ + reason@,
            Error::CallbackNoCode => "remote-control OAuth callback has no code"@,
            Error::VersionHasControl => "version contains control characters"@,
            Error::VersionEmpty => "version is empty"@,
            Error::VersionMalformed => "version token is malformed"@,
            Error::MalformedStockVersion => "stock Codex CLI reported a malformed version"@,
            Error::StockVersionPrefix => "stock Codex CLI version must start with `codex-cli`"@,
            Error::StockVersionMissing => "stock Codex CLI did not report a version"@,
            Error::StockVersionInvalid => "stock Codex CLI reported an invalid version"@,
            Error::MissingRemoteOptions(missing) => "stock Codex CLI does not expose the required remote terminal options: "@ + missing@,
            Error::LocalVersionInvalid => "local Codex CLI version is invalid"@,
            Error::RemoteVersionMissing(host) => "remote host "@ + host@ + " does not report a Codex App Server version"@,
            Error::RemoteVersionInvalid(host) => "remote host "@ + host@ + " reported an invalid Codex App Server version"@,
            Error::VersionMismatch(host, remote, local) => "remote host "@ + host@ + " runs remote Codex App Server "@ + remote@ + ", but PATH provides local Codex CLI "@ + local@
                + "; update the older installation so both versions match"@,
            Error::InvalidPublicKey => "expected a 65-byte uncompressed P-256 public key"@,
            Error::UnexpectedKeyId => "rcodex device key ID has an unexpected format"@,
            Error::KeyIdNotBase64 => "rcodex device key ID is not base64url"@,
            Error::InvalidApplicationLabel => "rcodex device key ID has an invalid application label"@,
            Error::DeviceKeysNeedMacos => "rcodex device keys currently require macOS Security.framework"@,
            Error::EnvironmentNotFound(id) => "remote-control environment "@ + id@ + " was not found"@,
            Error::EnvironmentOffline(id) => "remote-control environment "@ + id@ + " is offline"@,
            Error::NoHostOnline => "no paired Codex remote-control host is online"@,
            Error::SeveralHostsOnline => "multiple Codex hosts are online; choose one with --device <ENV_ID>"@,
            Error::UnrecognisedCommandLine => "the command line is not one that rcodex reads"@,
            Error::InvalidWebsocketScheme => "could not set relay websocket scheme"@,
            Error::ChallengeNotDeviceKey => "remote-control websocket did not send a device-key challenge"@,
            Error::SegmentingNonClientMessage => "only client_message envelopes can be segmented"@,
            Error::ClientEnvelopeHasNoMessage => "client message envelope has no message"@,
            Error::MessageTooLarge => "app-server message exceeds the relay size limit"@,
            Error::SegmentMetadataTooLarge => "relay segment metadata exceeds the frame size limit"@,
            Error::SegmentTooLarge => "remote-control server segment exceeds the frame limit"@,
            Error::SegmentNotObject => "remote-control server segment is not an object"@,
            Error::MissingStringField(field) => "relay envelope has no "@ + field.spec_name(),
            Error::MissingNumberField(field) => "relay envelope has no valid "@ + field.spec_name(),
            Error::InvalidSegmentMetadata => "remote-control server segment metadata is invalid"@,
            Error::SegmentNotBase64 => "remote-control server segment is not base64"@,
            Error::InvalidSegmentSize => "remote-control server segment has an invalid decoded size"@,
            Error::TooManyAssemblies => "too many incomplete remote-control server messages"@,
            Error::SegmentMetadataChanged => "remote-control server segment metadata changed mid-message"@,
            Error::SegmentChanged => "remote-control server segment changed when repeated"@,
            Error::ReassemblyLimit => "remote-control server segments exceed the reassembly size limit"@,
            Error::ReassembledSizeWrong => "reassembled remote-control message has the wrong size"@,
            Error::ReassembledInvalid => "reassembled app-server message is invalid"@,
            Error::ReassembledNotObject => "reassembled app-server message is not an object"@,
            Error::EnvelopeNotObject => "remote-control server envelope is not an object"@,
            Error::EnvelopeTargetsOtherClient => "remote-control server envelope targets a different client or host"@,
            Error::ServerMessageNoSequence => "server message has no sequence ID"@,
            Error::SequenceGap => "remote-control server message sequence gap"@,
            Error::ServerMessageNoPayload => "server message has no app-server payload"@,
            Error::ErrorWithoutPendingRequest => "remote-control error has no pending request"@,
            Error::ErrorPayloadNotObject => "remote-control error payload is not an object"@,
        }
    }

    pub fn message(&self) -> (r: String)
        ensures
            r@ == self.message_text(),
    {
        match self {
            Error::NonceNotBase64 => string_of("remote-control nonce is not base64url"),
            Error::NonceTooShort => string_of("remote-control nonce is too short"),
            Error::DigestNotBase64 => string_of("remote-control digest is not base64url"),
            Error::DigestNotSha256 => string_of("remote-control digest is not a SHA-256 value"),
            Error::InvalidUrl(text) => string_of(text.as_str()),
            Error::EnrollmentChallengeMismatch => string_of(
                "remote-control enrollment challenge does not match the local enrollment",
            ),
            Error::MissingDeviceIdentityHash => string_of(
                "remote-control enrollment challenge is missing device identity hash",
            ),
            Error::DeviceIdentityMismatch => string_of(
                "remote-control enrollment challenge does not match local device identity",
            ),
            Error::ConnectionChallengeMismatch => string_of(
                "remote-control websocket challenge does not match the expected relay contract",
            ),
            Error::SessionMismatch => string_of(
                "remote-control session does not match the local enrollment",
            ),
            Error::UnexpectedSessionScopes => string_of(
                "remote-control session has unexpected scopes",
            ),
            Error::MalformedSessionToken => string_of(
                "remote-control session token is empty or malformed",
            ),
            Error::SessionExpirationNotRfc3339 => string_of(
                "remote-control session expiration is not RFC 3339",
            ),
            Error::SessionExpired => string_of("remote-control session is already expired"),
            Error::ChallengeSessionMismatch => string_of(
                "remote-control websocket challenge does not match the active session",
            ),
            Error::ChallengeDigestInvalid => string_of(
                "remote-control websocket challenge token digest is invalid",
            ),
            Error::ChallengeTokenMismatch => string_of(
                "remote-control websocket challenge is bound to a different session token",
            ),
            Error::EmptyClientId => string_of("rcodex client ID is empty"),
            Error::InvalidPairingCode => string_of(
                "manual pairing code must contain exactly eight letters or digits",
            ),
            Error::InvalidRevocationPath => string_of("could not construct client revocation path"),
            Error::RequestFailed(status) => {
                let mut s = string_of("remote-control request failed (");
                crate::text::push_decimal(&mut s, *status as u64);
                push_str(&mut s, " ");
                match status_reason(*status) {
                    Some(reason) => push_str(&mut s, reason),
                    None => push_str(&mut s, "<unknown status code>"),
                }
                push_str(&mut s, ")");
                s
            },
            Error::EnrollmentStartMismatch => string_of(
                "remote-control enrollment start does not match the current ChatGPT account",
            ),
            Error::EnrollmentChallengeExpired => string_of(
                "remote-control enrollment challenge is already expired",
            ),
            Error::RefreshChallengeMismatch => string_of(
                "remote-control refresh challenge does not match the local enrollment",
            ),
            Error::RefreshDeviceIdentityMismatch => string_of(
                "remote-control refresh challenge has the wrong device identity",
            ),
            Error::RefreshChallengeExpired => string_of(
                "remote-control refresh challenge is already expired",
            ),
            Error::NotChatGptAuth => string_of(
                "rcodex requires Codex CLI ChatGPT subscription authentication",
            ),
            Error::AuthHasNoTokens => string_of("Codex auth file has no tokens"),
            Error::MalformedSecret(kind) => {
                let mut s = string_of("Codex ");
                push_str(&mut s, kind.name());
                push_str(&mut s, " is empty or malformed");
                s
            },
            Error::AccessTokenNotJwt => string_of("Codex access token is not a JWT"),
            Error::AccessTokenNotBase64 => string_of(
                "Codex access token payload is not base64url",
            ),
            Error::AccessTokenClaimsInvalid => string_of("Codex access token payload is invalid"),
            Error::NoAccountId => string_of("Codex access token has no ChatGPT account ID"),
            Error::AccountIdMismatch => string_of(
                "Codex auth account ID does not match its access token",
            ),
            Error::NoAccountUserId => string_of(
                "Codex access token has no ChatGPT account user ID",
            ),
            Error::AuthDocumentNotObject => string_of("Codex auth document is not an object"),
            Error::AuthDocumentHasNoTokens => string_of("Codex auth document has no token object"),
            Error::StepUpTokenNotJwt => string_of("remote-control step-up token is not a JWT"),
            Error::StepUpTokenNotBase64 => string_of(
                "remote-control step-up token is not base64url",
            ),
            Error::StepUpClaimsInvalid => string_of(
                "remote-control step-up token payload is invalid",
            ),
            Error::StepUpNoAccountUserId => string_of(
                "remote-control step-up token has no account user ID",
            ),
            Error::StepUpWrongAccount => string_of(
                "remote-control step-up token belongs to a different account",
            ),
            Error::StepUpNotFresh => string_of("remote-control step-up token is not fresh"),
            Error::StepUpNoFreshPassword => string_of(
                "remote-control step-up token has no fresh password authentication",
            ),
            Error::StepUpUnexpectedScopes => string_of(
                "remote-control step-up token has unexpected authorization scopes",
            ),
            Error::CallbackNotUtf8 => string_of("OAuth callback is not UTF-8"),
            Error::CallbackMalformed => string_of("OAuth callback request is malformed"),
            Error::CallbackStateMismatch => string_of(
                "remote-control OAuth callback state did not match",
            ),
            Error::CallbackAuthorizationFailed(reason) => {
                let mut s = string_of("remote-control authorization failed: ");
                push_str(&mut s, reason.as_str());
                s
            },
            Error::CallbackNoCode => string_of("remote-control OAuth callback has no code"),
            Error::VersionHasControl => string_of("version contains control characters"),
            Error::VersionEmpty => string_of("version is empty"),
            Error::VersionMalformed => string_of("version token is malformed"),
            Error::MalformedStockVersion => string_of(
                "stock Codex CLI reported a malformed version",
            ),
            Error::StockVersionPrefix => string_of(
                "stock Codex CLI version must start with `codex-cli`",
            ),
            Error::StockVersionMissing => string_of("stock Codex CLI did not report a version"),
            Error::StockVersionInvalid => string_of("stock Codex CLI reported an invalid version"),
            Error::MissingRemoteOptions(missing) => {
                let mut s = string_of(
                    "stock Codex CLI does not expose the required remote terminal options: ",
                );
                push_str(&mut s, missing.as_str());
                s
            },
            Error::LocalVersionInvalid => string_of("local Codex CLI version is invalid"),
            Error::RemoteVersionMissing(host) => {
                let mut s = string_of("remote host ");
                push_str(&mut s, host.as_str());
                push_str(&mut s, " does not report a Codex App Server version");
                s
            },
            Error::RemoteVersionInvalid(host) => {
                let mut s = string_of("remote host ");
                push_str(&mut s, host.as_str());
                push_str(&mut s, " reported an invalid Codex App Server version");
                s
            },
            Error::VersionMismatch(host, remote, local) => {
                let mut s = string_of("remote host ");
                push_str(&mut s, host.as_str());
                push_str(&mut s, " runs remote Codex App Server ");
                push_str(&mut s, remote.as_str());
                push_str(&mut s, ", but PATH provides local Codex CLI ");
                push_str(&mut s, local.as_str());
                push_str(&mut s, "; update the older installation so both versions match");
                s
            },
            Error::InvalidPublicKey => string_of(
                "expected a 65-byte uncompressed P-256 public key",
            ),
            Error::UnexpectedKeyId => string_of("rcodex device key ID has an unexpected format"),
            Error::KeyIdNotBase64 => string_of("rcodex device key ID is not base64url"),
            Error::InvalidApplicationLabel => string_of(
                "rcodex device key ID has an invalid application label",
            ),
            Error::DeviceKeysNeedMacos => string_of(
                "rcodex device keys currently require macOS Security.framework",
            ),
            Error::EnvironmentNotFound(id) => {
                let mut s = string_of("remote-control environment ");
                push_str(&mut s, id.as_str());
                push_str(&mut s, " was not found");
                s
            },
            Error::EnvironmentOffline(id) => {
                let mut s = string_of("remote-control environment ");
                push_str(&mut s, id.as_str());
                push_str(&mut s, " is offline");
                s
            },
            Error::NoHostOnline => string_of("no paired Codex remote-control host is online"),
            Error::SeveralHostsOnline => string_of(
                "multiple Codex hosts are online; choose one with --device <ENV_ID>",
            ),
            Error::UnrecognisedCommandLine => string_of("the command line is not one that rcodex reads"),
            Error::InvalidWebsocketScheme => string_of("could not set relay websocket scheme"),
            Error::ChallengeNotDeviceKey => string_of(
                "remote-control websocket did not send a device-key challenge",
            ),
            Error::SegmentingNonClientMessage => string_of(
                "only client_message envelopes can be segmented",
            ),
            Error::ClientEnvelopeHasNoMessage => string_of(
                "client message envelope has no message",
            ),
            Error::MessageTooLarge => string_of("app-server message exceeds the relay size limit"),
            Error::SegmentMetadataTooLarge => string_of(
                "relay segment metadata exceeds the frame size limit",
            ),
            Error::SegmentTooLarge => string_of(
                "remote-control server segment exceeds the frame limit",
            ),
            Error::SegmentNotObject => string_of("remote-control server segment is not an object"),
            Error::MissingStringField(field) => {
                let mut s = string_of("relay envelope has no ");
                push_str(&mut s, field.name());
                s
            },
            Error::MissingNumberField(field) => {
                let mut s = string_of("relay envelope has no valid ");
                push_str(&mut s, field.name());
                s
            },
            Error::InvalidSegmentMetadata => string_of(
                "remote-control server segment metadata is invalid",
            ),
            Error::SegmentNotBase64 => string_of("remote-control server segment is not base64"),
            Error::InvalidSegmentSize => string_of(
                "remote-control server segment has an invalid decoded size",
            ),
            Error::TooManyAssemblies => string_of(
                "too many incomplete remote-control server messages",
            ),
            Error::SegmentMetadataChanged => string_of(
                "remote-control server segment metadata changed mid-message",
            ),
            Error::SegmentChanged => string_of(
                "remote-control server segment changed when repeated",
            ),
            Error::ReassemblyLimit => string_of(
                "remote-control server segments exceed the reassembly size limit",
            ),
            Error::ReassembledSizeWrong => string_of(
                "reassembled remote-control message has the wrong size",
            ),
            Error::ReassembledInvalid => string_of("reassembled app-server message is invalid"),
            Error::ReassembledNotObject => string_of(
                "reassembled app-server message is not an object",
            ),
            Error::EnvelopeNotObject => string_of(
                "remote-control server envelope is not an object",
            ),
            Error::EnvelopeTargetsOtherClient => string_of(
                "remote-control server envelope targets a different client or host",
            ),
            Error::ServerMessageNoSequence => string_of("server message has no sequence ID"),
            Error::SequenceGap => string_of("remote-control server message sequence gap"),
            Error::ServerMessageNoPayload => string_of(
                "server message has no app-server payload",
            ),
            Error::ErrorWithoutPendingRequest => string_of(
                "remote-control error has no pending request",
            ),
            Error::ErrorPayloadNotObject => string_of(
                "remote-control error payload is not an object",
            ),
        }
    }
}

} // verus!
