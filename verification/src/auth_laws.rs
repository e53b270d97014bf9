//! What holds of credentials, wherever they are kept.

use crate::auth::{
    env_outcome, file_outcome, inline_outcome, Auth, AuthErrorView, AuthOutcome, AuthView,
    EnvOutcome, FileOutcome, SecretRef,
};
use crate::backends::llamacpp;
use crate::backends::mlx;
use crate::text::{byte_len, trimmed};
use crate::text_laws::{is_blank, law_only_blanks_are_trimmed};
use vstd::prelude::*;
use vstd::utf8::{decode_utf8, valid_utf8};

verus! {

/// Whether a credential that is written like this resolves to a key: the same text
/// without the blanks around it. One that is blank is missing.
pub open spec fn resolves(written: Seq<char>, r: AuthOutcome) -> bool {
    &&& is_blank(written) ==> (r matches Err(e) && e is Missing)
    &&& !is_blank(written) ==> (r matches Ok(AuthView::ApiKey(key)) && key == trimmed(written)
        && exists|a: Seq<char>, b: Seq<char>|
        written == #[trigger] (a + key + b) && is_blank(a) && is_blank(b))
}

/// A credential resolves to the key that is written in the configuration, the variable
/// or the file, unless there is too much of it or it is no text.
pub proof fn law_credential_is_what_is_written(
    value: Seq<char>,
    var: Seq<char>,
    v: String,
    path: Seq<char>,
    bytes: Vec<u8>,
)
    ensures
        resolves(value, inline_outcome(value)),
        byte_len(v@) <= 65536 ==> resolves(v@, env_outcome(var, EnvOutcome::Value(v))),
        byte_len(v@) > 65536 ==> (env_outcome(var, EnvOutcome::Value(v)) matches Err(e)
            && e is Internal),
        bytes@.len() <= 65536 && valid_utf8(bytes@) ==> resolves(
            decode_utf8(bytes@),
            file_outcome(path, FileOutcome::Bytes(bytes)),
        ),
        bytes@.len() > 65536 || !valid_utf8(bytes@) ==> (file_outcome(
            path,
            FileOutcome::Bytes(bytes),
        ) matches Err(e) && e is Internal),
{
    law_only_blanks_are_trimmed(value);
    law_only_blanks_are_trimmed(v@);
    law_only_blanks_are_trimmed(decode_utf8(bytes@));
}

/// A variable that is not set is a missing credential, one that is no text and a file
/// that cannot be read are other errors, and each names the variable or the file.
pub proof fn law_failures_name_their_source(var: Seq<char>, path: Seq<char>, o: FileOutcome)
    requires
        !(o is Bytes),
    ensures
        env_outcome(var, EnvOutcome::NotPresent) matches Err(AuthErrorView::Missing(m)) && exists|
            a: Seq<char>,
            b: Seq<char>,
        | m == #[trigger] (a + var + b),
        env_outcome(var, EnvOutcome::NotUnicode) matches Err(AuthErrorView::Internal(m)) && exists|
            a: Seq<char>,
            b: Seq<char>,
        | m == #[trigger] (a + var + b),
        file_outcome(path, o) matches Err(AuthErrorView::Io(m)) && exists|
            a: Seq<char>,
            b: Seq<char>,
        | m == #[trigger] (a + path + b),
{
    let m1 = env_outcome(var, EnvOutcome::NotPresent)->Err_0->Missing_0;
    assert(m1 == "env var `"@ + var + "` is not set"@);
    let m2 = env_outcome(var, EnvOutcome::NotUnicode)->Err_0->Internal_0;
    assert(m2 == "env var `"@ + var + "` contains non-UTF-8 bytes"@);
    let m3 = file_outcome(path, o)->Err_0->Io_0;
    match o {
        FileOutcome::OpenFailed(e) => {
            assert(m3 =~= "opening "@ + path + (": "@ + e@));
        },
        FileOutcome::ReadFailed(e) => {
            assert(m3 =~= "reading "@ + path + (": "@ + e@));
        },
        FileOutcome::Bytes(_) => {},
    }
}

/// A server of one's own needs no key: an inline credential that is empty is none, and any
/// other credential stays as it is.
pub proof fn law_empty_key_is_no_key(auth: Auth)
    ensures
        ({
            let is_empty = auth matches Auth::Secret { secret: SecretRef::Inline { value } }
                && value@.len() == 0;
            &&& is_empty ==> llamacpp::normalized_auth(auth) is Absent && mlx::normalized_auth(
                auth,
            ) is Absent
            &&& !is_empty ==> llamacpp::normalized_auth(auth) == auth && mlx::normalized_auth(auth)
                == auth
        }),
{
}

} // verus!
