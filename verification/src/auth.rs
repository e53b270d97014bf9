//! Credentials: what a configuration names, how it is turned into the text that
//! a backend puts into its request, and how that text is kept out of logs.

use crate::text::{byte_count, byte_len, decimal, decimal_of, trim, trimmed};
use crate::types::{ErrorView, ProviderError};
use vstd::prelude::*;
use vstd::string::*;
use vstd::utf8::*;

verus! {

/// The largest credential that is accepted, in bytes. Far above any real key, and
/// small enough that a wrong path cannot fill the memory.
pub const MAX_CREDENTIAL_BYTES: usize = 65536;

/// Why a credential could not be had.
#[derive(Debug, PartialEq)]
pub enum AuthError {
    Missing(String),
    BackendUnavailable(String),
    PermissionDenied,
    Io(String),
    Internal(String),
}

/// What such an error says.
pub enum AuthErrorView {
    Missing(Seq<char>),
    BackendUnavailable(Seq<char>),
    PermissionDenied,
    Io(Seq<char>),
    Internal(Seq<char>),
}

impl View for AuthError {
    type V = AuthErrorView;

    open spec fn view(&self) -> AuthErrorView {
        match *self {
            AuthError::Missing(s) => AuthErrorView::Missing(s@),
            AuthError::BackendUnavailable(s) => AuthErrorView::BackendUnavailable(s@),
            AuthError::PermissionDenied => AuthErrorView::PermissionDenied,
            AuthError::Io(s) => AuthErrorView::Io(s@),
            AuthError::Internal(s) => AuthErrorView::Internal(s@),
        }
    }
}

impl AuthErrorView {
    /// The error in words.
    pub open spec fn message(self) -> Seq<char> {
        match self {
            AuthErrorView::Missing(s) => "missing credential: "@ + s,
            AuthErrorView::BackendUnavailable(s) => "backend unavailable: "@ + s,
            AuthErrorView::PermissionDenied => "permission denied (cross-tenant access)"@,
            AuthErrorView::Io(s) => "io: "@ + s,
            AuthErrorView::Internal(s) => "internal: "@ + s,
        }
    }
}

/// A prefix followed by a text.
fn prefixed(prefix: &str, s: &str) -> (r: String)
    ensures
        r@ == prefix@ + s@,
{
    let mut out: String = prefix.to_owned();
    out.append(s);
    out
}

impl AuthError {
    /// The error in words.
    pub fn message(&self) -> (r: String)
        ensures
            r@ == self@.message(),
    {
        match self {
            AuthError::Missing(s) => prefixed("missing credential: ", s.as_str()),
            AuthError::BackendUnavailable(s) => prefixed("backend unavailable: ", s.as_str()),
            AuthError::PermissionDenied => "permission denied (cross-tenant access)".to_owned(),
            AuthError::Io(s) => prefixed("io: ", s.as_str()),
            AuthError::Internal(s) => prefixed("internal: ", s.as_str()),
        }
    }

    /// The same failure as an error of the call.
    pub fn into_provider_error(self) -> (r: ProviderError)
        ensures
            r@ == ErrorView::Auth(self@.message()),
    {
        ProviderError::Auth(self.message())
    }
}

/// A credential that has been resolved. It has no `Debug`, which would write the
/// credential out: `debug_text` writes its kind and length.
#[derive(Clone, PartialEq)]
pub enum ResolvedAuth {
    Bearer(String),
    ApiKey(String),
    Absent,
}

/// What a resolved credential holds.
pub enum AuthView {
    Bearer(Seq<char>),
    ApiKey(Seq<char>),
    Absent,
}

impl View for ResolvedAuth {
    type V = AuthView;

    open spec fn view(&self) -> AuthView {
        match *self {
            ResolvedAuth::Bearer(s) => AuthView::Bearer(s@),
            ResolvedAuth::ApiKey(s) => AuthView::ApiKey(s@),
            ResolvedAuth::Absent => AuthView::Absent,
        }
    }
}

impl AuthView {
    /// How a credential is written in a log: its kind and its length in bytes.
    pub open spec fn redacted(self) -> Seq<char> {
        match self {
            AuthView::Bearer(s) => "Bearer(<redacted:"@ + decimal(byte_len(s)) + ">)"@,
            AuthView::ApiKey(s) => "ApiKey(<redacted:"@ + decimal(byte_len(s)) + ">)"@,
            AuthView::Absent => "None"@,
        }
    }
}

impl ResolvedAuth {
    /// How the credential is written in a log.
    pub fn debug_text(&self) -> (r: String)
        ensures
            r@ == self@.redacted(),
    {
        match self {
            ResolvedAuth::Bearer(s) => {
                let mut out: String = "Bearer(<redacted:".to_owned();
                out.append(decimal_of(byte_count(s.as_str()) as u64).as_str());
                out.append(">)");
                out
            },
            ResolvedAuth::ApiKey(s) => {
                let mut out: String = "ApiKey(<redacted:".to_owned();
                out.append(decimal_of(byte_count(s.as_str()) as u64).as_str());
                out.append(">)");
                out
            },
            ResolvedAuth::Absent => "None".to_owned(),
        }
    }
}

/// What is written of a credential in a log depends on its kind and its length
/// alone: two credentials of one kind and length cannot be told apart by it.
pub proof fn law_redaction_hides_credential(a: Seq<char>, b: Seq<char>)
    requires
        byte_len(a) == byte_len(b),
    ensures
        AuthView::Bearer(a).redacted() == AuthView::Bearer(b).redacted(),
        AuthView::ApiKey(a).redacted() == AuthView::ApiKey(b).redacted(),
{
}

/// Where a secret is kept.
#[derive(PartialEq)]
pub enum SecretRef {
    Inline { value: String },
    Env { var: String },
    File { path: String },
}

/// The credential that a configuration names.
#[derive(PartialEq)]
pub enum Auth {
    Absent,
    Delegate,
    Secret { secret: SecretRef },
}

impl Auth {
    /// A credential written in the configuration itself.
    pub fn inline(value: &str) -> (r: Auth)
        ensures
            r matches Auth::Secret { secret: SecretRef::Inline { value: v } } && v@ == value@,
    {
        Auth::Secret { secret: SecretRef::Inline { value: value.to_owned() } }
    }

    /// A credential in an environment variable.
    pub fn env(var: &str) -> (r: Auth)
        ensures
            r matches Auth::Secret { secret: SecretRef::Env { var: v } } && v@ == var@,
    {
        Auth::Secret { secret: SecretRef::Env { var: var.to_owned() } }
    }

    /// A credential in a file.
    pub fn file(path: &str) -> (r: Auth)
        ensures
            r matches Auth::Secret { secret: SecretRef::File { path: p } } && p@ == path@,
    {
        Auth::Secret { secret: SecretRef::File { path: path.to_owned() } }
    }
}

/// What reading an environment variable gave.
pub enum EnvOutcome {
    Value(String),
    NotPresent,
    NotUnicode,
}

/// What reading a credential file gave. At most one byte more than the cap is read.
pub enum FileOutcome {
    OpenFailed(String),
    ReadFailed(String),
    Bytes(Vec<u8>),
}

/// What has to be done to resolve a credential.
pub enum AuthStep {
    Done(Result<ResolvedAuth, AuthError>),
    ReadEnv { var: String },
    ReadFile { path: String },
}

/// The outcome of resolving a credential.
pub type AuthOutcome = Result<AuthView, AuthErrorView>;

/// What the outcome of resolving a credential says.
pub open spec fn auth_outcome(r: Result<ResolvedAuth, AuthError>) -> AuthOutcome {
    match r {
        Ok(a) => Ok(a@),
        Err(e) => Err(e@),
    }
}

/// What an inline credential resolves to.
pub open spec fn inline_outcome(value: Seq<char>) -> AuthOutcome {
    if trimmed(value).len() == 0 {
        Err(AuthErrorView::Missing("inline credential is empty"@))
    } else {
        Ok(AuthView::ApiKey(trimmed(value)))
    }
}

/// What a credential in an environment variable resolves to.
pub open spec fn env_outcome(var: Seq<char>, o: EnvOutcome) -> AuthOutcome {
    match o {
        EnvOutcome::Value(v) => if byte_len(v@) > MAX_CREDENTIAL_BYTES {
            Err(
                AuthErrorView::Internal(
                    "env var `"@ + var + "` exceeds credential size cap ("@ + decimal(byte_len(v@))
                        + " bytes > "@ + decimal(MAX_CREDENTIAL_BYTES as nat) + ")"@,
                ),
            )
        } else if trimmed(v@).len() == 0 {
            Err(AuthErrorView::Missing("env var `"@ + var + "` is set but empty"@))
        } else {
            Ok(AuthView::ApiKey(trimmed(v@)))
        },
        EnvOutcome::NotPresent => Err(
            AuthErrorView::Missing("env var `"@ + var + "` is not set"@),
        ),
        EnvOutcome::NotUnicode => Err(
            AuthErrorView::Internal("env var `"@ + var + "` contains non-UTF-8 bytes"@),
        ),
    }
}

/// The text of the error that `String::from_utf8` gives for bytes that are no
/// UTF-8.
pub uninterp spec fn utf8_error_text(bytes: Seq<u8>) -> Seq<char>;

/// `String::from_utf8` gives the text that the bytes encode where they are UTF-8,
/// and an error otherwise, whose text is a function of the bytes.
#[verifier::external_body]
pub(crate) fn text_from_utf8(bytes: Vec<u8>) -> (r: Result<String, String>)
    ensures
        match r {
            Ok(s) => valid_utf8(bytes@) && s@ == decode_utf8(bytes@),
            Err(e) => !valid_utf8(bytes@) && e@ == utf8_error_text(bytes@),
        },
{
    String::from_utf8(bytes).map_err(|e| e.to_string())
}

/// What a credential file resolves to.
pub open spec fn file_outcome(path: Seq<char>, o: FileOutcome) -> AuthOutcome {
    match o {
        FileOutcome::OpenFailed(e) => Err(
            AuthErrorView::Io("opening "@ + path + ": "@ + e@),
        ),
        FileOutcome::ReadFailed(e) => Err(
            AuthErrorView::Io("reading "@ + path + ": "@ + e@),
        ),
        FileOutcome::Bytes(b) => if b@.len() > MAX_CREDENTIAL_BYTES {
            Err(
                AuthErrorView::Internal(
                    "credential file `"@ + path + "` exceeds size cap ("@ + decimal(
                        MAX_CREDENTIAL_BYTES as nat,
                    ) + " bytes)"@,
                ),
            )
        } else if !valid_utf8(b@) {
            Err(
                AuthErrorView::Internal(
                    "credential file `"@ + path + "` is not valid UTF-8: "@ + utf8_error_text(b@),
                ),
            )
        } else if trimmed(decode_utf8(b@)).len() == 0 {
            Err(AuthErrorView::Missing("credential file `"@ + path + "` is empty"@))
        } else {
            Ok(AuthView::ApiKey(trimmed(decode_utf8(b@))))
        },
    }
}

/// Resolves credentials that are written inline, or kept in an environment
/// variable or a file.
pub struct BasicAuthResolver;

impl BasicAuthResolver {
    /// Resolves what needs no outside source, and says what to read for the rest.
    pub fn resolve(&self, auth: &Auth) -> (r: AuthStep)
        ensures
            match *auth {
                Auth::Absent | Auth::Delegate => r matches AuthStep::Done(d) && auth_outcome(d)
                    == Ok::<AuthView, AuthErrorView>(AuthView::Absent),
                Auth::Secret { secret: SecretRef::Inline { value } } => r matches AuthStep::Done(d)
                    && auth_outcome(d) == inline_outcome(value@),
                Auth::Secret { secret: SecretRef::Env { var } } => r matches AuthStep::ReadEnv {
                    var: v,
                } && v@ == var@,
                Auth::Secret { secret: SecretRef::File { path } } => r matches AuthStep::ReadFile {
                    path: p,
                } && p@ == path@,
            },
    {
        match auth {
            Auth::Absent => AuthStep::Done(Ok(ResolvedAuth::Absent)),
            Auth::Delegate => AuthStep::Done(Ok(ResolvedAuth::Absent)),
            Auth::Secret { secret } => match secret {
                SecretRef::Inline { value } => {
                    let key: String = trim(value.as_str());
                    if key.as_str().is_empty() {
                        AuthStep::Done(
                            Err(AuthError::Missing("inline credential is empty".to_owned())),
                        )
                    } else {
                        AuthStep::Done(Ok(ResolvedAuth::ApiKey(key)))
                    }
                },
                SecretRef::Env { var } => AuthStep::ReadEnv { var: var.clone() },
                SecretRef::File { path } => AuthStep::ReadFile { path: path.clone() },
            },
        }
    }

    /// Takes what an environment variable held.
    pub fn accept_env(&self, var: &str, outcome: EnvOutcome) -> (r: Result<ResolvedAuth, AuthError>)
        ensures
            auth_outcome(r) == env_outcome(var@, outcome),
    {
        let mut msg: String = "env var `".to_owned();
        msg.append(var);
        match outcome {
            EnvOutcome::Value(v) => {
                let n: usize = byte_count(v.as_str());
                if n > MAX_CREDENTIAL_BYTES {
                    msg.append("` exceeds credential size cap (");
                    msg.append(decimal_of(n as u64).as_str());
                    msg.append(" bytes > ");
                    msg.append(decimal_of(MAX_CREDENTIAL_BYTES as u64).as_str());
                    msg.append(")");
                    return Err(AuthError::Internal(msg));
                }
                let key: String = trim(v.as_str());
                if key.as_str().is_empty() {
                    msg.append("` is set but empty");
                    return Err(AuthError::Missing(msg));
                }
                Ok(ResolvedAuth::ApiKey(key))
            },
            EnvOutcome::NotPresent => {
                msg.append("` is not set");
                Err(AuthError::Missing(msg))
            },
            EnvOutcome::NotUnicode => {
                msg.append("` contains non-UTF-8 bytes");
                Err(AuthError::Internal(msg))
            },
        }
    }

    /// Takes what a credential file held.
    pub fn accept_file(&self, path: &str, outcome: FileOutcome) -> (r: Result<
        ResolvedAuth,
        AuthError,
    >)
        ensures
            auth_outcome(r) == file_outcome(path@, outcome),
    {
        match outcome {
            FileOutcome::OpenFailed(e) => {
                let mut msg: String = "opening ".to_owned();
                msg.append(path);
                msg.append(": ");
                msg.append(e.as_str());
                Err(AuthError::Io(msg))
            },
            FileOutcome::ReadFailed(e) => {
                let mut msg: String = "reading ".to_owned();
                msg.append(path);
                msg.append(": ");
                msg.append(e.as_str());
                Err(AuthError::Io(msg))
            },
            FileOutcome::Bytes(b) => {
                let mut msg: String = "credential file `".to_owned();
                msg.append(path);
                if b.len() > MAX_CREDENTIAL_BYTES {
                    msg.append("` exceeds size cap (");
                    msg.append(decimal_of(MAX_CREDENTIAL_BYTES as u64).as_str());
                    msg.append(" bytes)");
                    return Err(AuthError::Internal(msg));
                }
                match text_from_utf8(b) {
                    Err(e) => {
                        msg.append("` is not valid UTF-8: ");
                        msg.append(e.as_str());
                        Err(AuthError::Internal(msg))
                    },
                    Ok(raw) => {
                        let key: String = trim(raw.as_str());
                        if key.as_str().is_empty() {
                            msg.append("` is empty");
                            return Err(AuthError::Missing(msg));
                        }
                        Ok(ResolvedAuth::ApiKey(key))
                    },
                }
            },
        }
    }
}

/// A trimmed text has no white space at either end.
proof fn lemma_trimmed_ends(s: Seq<char>)
    ensures
        trimmed(s).len() > 0 ==> !crate::text::is_space(trimmed(s)[0]) && !crate::text::is_space(
            trimmed(s).last(),
        ),
{
    lemma_front_end(s);
    lemma_back_keeps_front(crate::text::trimmed_front(s));
}

proof fn lemma_front_end(s: Seq<char>)
    ensures
        crate::text::trimmed_front(s).len() > 0 ==> !crate::text::is_space(
            crate::text::trimmed_front(s)[0],
        ),
    decreases s.len(),
{
    if s.len() > 0 && crate::text::is_space(s[0]) {
        lemma_front_end(s.drop_first());
    }
}

proof fn lemma_back_keeps_front(s: Seq<char>)
    ensures
        crate::text::trimmed_back(s).len() > 0 ==> crate::text::trimmed_back(s)[0] == s[0]
            && !crate::text::is_space(crate::text::trimmed_back(s).last()),
    decreases s.len(),
{
    if s.len() > 0 && crate::text::is_space(s.last()) {
        lemma_back_keeps_front(s.drop_last());
    }
}

/// A credential that resolves is an API key that is not empty and has no white
/// space at either end, wherever it came from.
pub proof fn law_resolved_key_is_trimmed(
    key: Seq<char>,
    value: Seq<char>,
    var: Seq<char>,
    e: EnvOutcome,
    path: Seq<char>,
    f: FileOutcome,
)
    requires
        ({
            let resolved = Ok::<AuthView, AuthErrorView>(AuthView::ApiKey(key));
            ||| inline_outcome(value) == resolved
            ||| env_outcome(var, e) == resolved
            ||| file_outcome(path, f) == resolved
        }),
    ensures
        key.len() > 0,
        !crate::text::is_space(key[0]),
        !crate::text::is_space(key.last()),
{
    lemma_trimmed_ends(value);
    if let EnvOutcome::Value(v) = e {
        lemma_trimmed_ends(v@);
    }
    if let FileOutcome::Bytes(b) = f {
        lemma_trimmed_ends(decode_utf8(b@));
    }
}

} // verus!
