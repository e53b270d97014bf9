//! How a credential is resolved.

use tars_provider::auth::{
    Auth, AuthError, AuthStep, BasicAuthResolver, EnvOutcome, FileOutcome, ResolvedAuth,
    MAX_CREDENTIAL_BYTES,
};
use tars_provider::types::ProviderError;

fn done(step: AuthStep) -> Result<ResolvedAuth, AuthError> {
    match step {
        AuthStep::Done(r) => r,
        _ => panic!("nothing to read"),
    }
}

fn key(r: Result<ResolvedAuth, AuthError>) -> String {
    match r {
        Ok(ResolvedAuth::ApiKey(k)) => k,
        _ => panic!("expected ApiKey"),
    }
}

fn failure(r: Result<ResolvedAuth, AuthError>) -> AuthError {
    match r {
        Err(e) => e,
        Ok(_) => panic!("expected an error"),
    }
}

#[test]
fn inline_resolves_to_api_key() {
    assert_eq!(key(done(BasicAuthResolver.resolve(&Auth::inline("sk-x")))), "sk-x");
}

#[test]
fn env_missing_returns_typed_error() {
    let name = "TARS_TEST_AUTH_KEY_THAT_NEVER_EXISTS_42";
    match BasicAuthResolver.resolve(&Auth::env(name)) {
        AuthStep::ReadEnv { var } => assert_eq!(var, name),
        _ => panic!("expected a variable to read"),
    }
    let err = failure(BasicAuthResolver.accept_env(name, EnvOutcome::NotPresent));
    assert!(matches!(err, AuthError::Missing(_)));
}

#[test]
fn none_resolves_to_none() {
    assert!(matches!(
        done(BasicAuthResolver.resolve(&Auth::Absent)),
        Ok(ResolvedAuth::Absent)
    ));
}

#[test]
fn resolved_auth_debug_redacts_credentials() {
    let a = ResolvedAuth::Bearer("super-secret-token".into());
    let s = a.debug_text();
    assert!(!s.contains("super-secret-token"));
    assert!(s.contains("redacted"));

    let b = ResolvedAuth::ApiKey("sk-proj-abcdef".into());
    let s = b.debug_text();
    assert!(!s.contains("sk-proj-abcdef"));
    assert!(s.contains("redacted"));
}

#[test]
fn redaction_does_not_depend_on_the_credential() {
    let a = ResolvedAuth::Bearer("one".into()).debug_text();
    let b = ResolvedAuth::Bearer("two".into()).debug_text();
    assert_eq!(a, b);
    assert_ne!(a, ResolvedAuth::ApiKey("one".into()).debug_text());
}

#[test]
fn delegate_resolves_to_none() {
    assert!(matches!(
        done(BasicAuthResolver.resolve(&Auth::Delegate)),
        Ok(ResolvedAuth::Absent)
    ));
}

#[test]
fn file_resolves_and_strips_trailing_newline() {
    match BasicAuthResolver.resolve(&Auth::file("/run/secrets/key")) {
        AuthStep::ReadFile { path } => assert_eq!(path, "/run/secrets/key"),
        _ => panic!("expected a file to read"),
    }
    let bytes = FileOutcome::Bytes(b"secret-from-file\n".to_vec());
    assert_eq!(
        key(BasicAuthResolver.accept_file("/run/secrets/key", bytes)),
        "secret-from-file"
    );
}

#[test]
fn file_strips_surrounding_whitespace() {
    let bytes = FileOutcome::Bytes(b"  secret-key  \n".to_vec());
    assert_eq!(key(BasicAuthResolver.accept_file("f", bytes)), "secret-key");
}

#[test]
fn file_empty_returns_missing() {
    let bytes = FileOutcome::Bytes(b"   \n\r\n".to_vec());
    let err = failure(BasicAuthResolver.accept_file("f", bytes));
    assert!(matches!(err, AuthError::Missing(_)));
}

#[test]
fn file_missing_returns_io_error() {
    let err = failure(
        BasicAuthResolver.accept_file("f", FileOutcome::OpenFailed("no such file".into())),
    );
    assert!(matches!(err, AuthError::Io(_)), "got {err:?}");
    let err = failure(
        BasicAuthResolver.accept_file("f", FileOutcome::ReadFailed("gone".into())),
    );
    assert!(matches!(err, AuthError::Io(_)), "got {err:?}");
}

#[test]
fn file_oversized_returns_internal() {
    let big = vec![b'a'; 64 * 1024 + 16];
    let err = failure(BasicAuthResolver.accept_file("f", FileOutcome::Bytes(big)));
    assert!(matches!(err, AuthError::Internal(_)), "got {err:?}");
    let largest = vec![b'a'; MAX_CREDENTIAL_BYTES];
    assert_eq!(
        key(BasicAuthResolver.accept_file("f", FileOutcome::Bytes(largest))).len(),
        65536
    );
}

#[test]
fn file_that_is_no_text_is_refused() {
    let bytes = FileOutcome::Bytes(vec![b'a', 0xff, b'b']);
    assert_eq!(
        failure(BasicAuthResolver.accept_file("f", bytes)),
        AuthError::Internal(
            "credential file `f` is not valid UTF-8: invalid utf-8 sequence of 1 bytes from index 1"
                .into()
        )
    );
}

#[test]
fn variable_that_is_no_text_is_refused() {
    let err = failure(BasicAuthResolver.accept_env("KEY", EnvOutcome::NotUnicode));
    assert!(!matches!(err, AuthError::Missing(_)), "got {err:?}");
    let found = BasicAuthResolver.accept_env("KEY", EnvOutcome::Value(" sk-y\n".into()));
    assert_eq!(key(found), "sk-y");
}

#[test]
fn inline_empty_returns_missing() {
    let err = failure(done(BasicAuthResolver.resolve(&Auth::inline("   "))));
    assert!(matches!(err, AuthError::Missing(_)));
}

#[test]
fn inline_strips_surrounding_whitespace() {
    assert_eq!(key(done(BasicAuthResolver.resolve(&Auth::inline("  sk-x  ")))), "sk-x");
}

#[test]
fn a_credential_error_becomes_a_provider_error() {
    let shown = AuthError::Missing("KEY".into()).message();
    match AuthError::Missing("KEY".into()).into_provider_error() {
        ProviderError::Auth(text) => assert_eq!(text, shown),
        other => panic!("got {other:?}"),
    }
    assert!(shown.contains("KEY"));
}
