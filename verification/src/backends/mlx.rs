//! A local `mlx_lm.server`, which speaks the protocol of OpenAI.

use crate::auth::{Auth, SecretRef};
use crate::backends::openai::provider::{OpenAiProvider, OpenAiProviderBuilder};
use crate::capabilities::{local_server, Capabilities};
use crate::http_base::HttpProviderExtras;
use crate::text::{is_empty, opt_str};
use vstd::prelude::*;
use vstd::string::*;

verus! {

/// Where the server listens unless it is told otherwise.
pub const DEFAULT_BASE_URL: &'static str = "http://localhost:8080/v1";

/// The credential that is used: an empty one written in the configuration is none.
pub open spec fn normalized_auth(auth: Auth) -> Auth {
    match auth {
        Auth::Secret { secret: SecretRef::Inline { value } } if value@.len() == 0 => Auth::Absent,
        other => other,
    }
}

/// What the server can do unless it is told otherwise.
pub fn mlx_default_capabilities() -> (r: Capabilities)
    ensures
        r == local_server(32_768, 4_096),
{
    Capabilities::local_server(32_768, 4_096)
}

/// Whether a credential is an empty one written in the configuration.
fn is_blank(auth: &Auth) -> (r: bool)
    ensures
        r == (auth matches Auth::Secret { secret: SecretRef::Inline { value } } && value@.len()
            == 0),
{
    match auth {
        Auth::Secret { secret: SecretRef::Inline { value } } => is_empty(value.as_str()),
        _ => false,
    }
}

/// A provider for an MLX server.
pub fn mlx(id: &str, base_url: Option<String>, auth: Auth, extras: HttpProviderExtras) -> (r:
    OpenAiProvider)
    ensures
        r.id@ == id@,
        r.auth == normalized_auth(auth),
        r.adapter.base_url@ == (match opt_str(base_url) {
            Some(url) => url,
            None => DEFAULT_BASE_URL@,
        }),
        r.adapter.extras == extras,
        r.capabilities == local_server(32_768, 4_096),
{
    let url: String = match base_url {
        Some(url) => url,
        None => DEFAULT_BASE_URL.to_owned(),
    };
    let used: Auth = if is_blank(&auth) {
        Auth::Absent
    } else {
        auth
    };
    OpenAiProviderBuilder::new(id, used).base_url(url).extras(extras).capabilities(
        mlx_default_capabilities(),
    ).build()
}

/// A provider for the server on this machine, without a credential.
pub fn mlx_local(id: &str) -> (r: OpenAiProvider)
    ensures
        r.id@ == id@,
        r.auth == Auth::Absent,
        r.adapter.base_url@ == DEFAULT_BASE_URL@,
        r.adapter.extras.headers@.len() == 0,
        r.capabilities == local_server(32_768, 4_096),
{
    mlx(id, None, Auth::Absent, HttpProviderExtras::default())
}

} // verus!
