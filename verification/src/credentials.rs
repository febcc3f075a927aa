use vstd::prelude::*;
use vstd::string::*;

use crate::credential_store::CredentialStore;
use crate::error::{is_validation, validation, AppResult};
use crate::ids::new_id;
use crate::text::{opt_view, spec_to_lowercase, spec_trim, to_lowercase, trim};

verus! {

/// A remembered login: user name and password.
pub struct SavedCredential {
    pub username: String,
    pub password: String,
}

/// A request to remember a login.
pub struct SavedCredentialRequest {
    pub username: String,
    pub password: String,
}

/// The form in which user names are stored: trimmed and lower-cased.
pub open spec fn spec_normalize_username(username: Seq<char>) -> Seq<char> {
    spec_to_lowercase(spec_trim(username))
}

/// Trims and lower-cases a user name.
pub fn normalize_username(username: &str) -> (r: String)
    ensures
        r@ == spec_normalize_username(username@),
        (r@.len() == 0) == (spec_trim(username@).len() == 0),
{
    to_lowercase(trim(username))
}

/// The message given when a login to remember lacks a name or password.
pub open spec fn missing_login_message() -> Seq<char> {
    "用户名和密码不能为空"@
}

/// Loads the remembered login of `username`.  A blank name has none, and
/// then the scope is not asked for; otherwise `scope` gives the key-ring
/// scope and the store is asked for the normalized name in it.
pub fn load_from<S: CredentialStore, F: FnOnce() -> AppResult<String>>(
    store: &S,
    username: String,
    scope: F,
) -> (r: AppResult<Option<SavedCredential>>)
    requires
        call_requires(scope, ()),
    ensures
        spec_trim(username@).len() == 0 ==> r matches Ok(None),
        spec_trim(username@).len() > 0 ==> {
            let name = spec_normalize_username(username@);
            &&& r matches Ok(Some(c)) ==> c.username@ == name && exists|s: String|
                call_ensures(scope, (), Ok::<String, crate::error::AppError>(s)) && store.load_outcome(
                    s@,
                    name,
                    Ok(Some(c.password)),
                )
            &&& r matches Ok(None) ==> exists|s: String|
                call_ensures(scope, (), Ok::<String, crate::error::AppError>(s)) && store.load_outcome(
                    s@,
                    name,
                    Ok(None),
                )
            &&& r matches Err(e) ==> call_ensures(scope, (), Err::<String, crate::error::AppError>(e))
                || exists|s: String|
                call_ensures(scope, (), Ok::<String, crate::error::AppError>(s)) && store.load_outcome(
                    s@,
                    name,
                    Err(e),
                )
        },
{
    let name = normalize_username(username.as_str());
    if name.as_str().is_empty() {
        return Ok(None);
    }
    let scope_result = scope();
    let scope_text = match scope_result {
        Ok(s) => s,
        Err(e) => {
            return Err(e);
        },
    };
    let loaded = store.load_password(scope_text.as_str(), name.as_str());
    match loaded {
        Ok(Some(password)) => Ok(Some(SavedCredential { username: name, password })),
        Ok(None) => Ok(None),
        Err(e) => Err(e),
    }
}

/// Remembers a login.  A blank name or an empty password is refused before
/// the scope is asked for; otherwise the password is saved under the
/// normalized name in the scope that `scope` gives.
pub fn save_to<S: CredentialStore, F: FnOnce() -> AppResult<String>>(
    store: &S,
    request: SavedCredentialRequest,
    scope: F,
) -> (r: AppResult<()>)
    requires
        call_requires(scope, ()),
    ensures
        (spec_trim(request.username@).len() == 0 || request.password@.len() == 0) ==> (r matches Err(e)
            && is_validation(e, missing_login_message())),
        (spec_trim(request.username@).len() > 0 && request.password@.len() > 0) ==> {
            let name = spec_normalize_username(request.username@);
            ||| (r matches Err(e) && call_ensures(scope, (), Err::<String, crate::error::AppError>(e)))
            ||| exists|s: String|
                call_ensures(scope, (), Ok::<String, crate::error::AppError>(s)) && store.save_outcome(
                    s@,
                    name,
                    request.password@,
                    r,
                )
        },
{
    let name = normalize_username(request.username.as_str());
    if name.as_str().is_empty() || request.password.as_str().is_empty() {
        return Err(validation("用户名和密码不能为空"));
    }
    let scope_result = scope();
    let scope_text = match scope_result {
        Ok(s) => s,
        Err(e) => {
            return Err(e);
        },
    };
    store.save_password(scope_text.as_str(), name.as_str(), request.password.as_str())
}

/// Forgets the remembered login of `username`.  A blank name is nothing to
/// forget, and then the scope is not asked for.
pub fn delete_from<S: CredentialStore, F: FnOnce() -> AppResult<String>>(
    store: &S,
    username: String,
    scope: F,
) -> (r: AppResult<()>)
    requires
        call_requires(scope, ()),
    ensures
        spec_trim(username@).len() == 0 ==> r matches Ok(()),
        spec_trim(username@).len() > 0 ==> {
            let name = spec_normalize_username(username@);
            ||| (r matches Err(e) && call_ensures(scope, (), Err::<String, crate::error::AppError>(e)))
            ||| exists|s: String|
                call_ensures(scope, (), Ok::<String, crate::error::AppError>(s)) && store.delete_outcome(
                    s@,
                    name,
                    r,
                )
        },
{
    let name = normalize_username(username.as_str());
    if name.as_str().is_empty() {
        return Ok(());
    }
    let scope_result = scope();
    let scope_text = match scope_result {
        Ok(s) => s,
        Err(e) => {
            return Err(e);
        },
    };
    store.delete_password(scope_text.as_str(), name.as_str())
}

/// The key-ring scope of the remembered logins, and the scope id to store
/// when a new one was made.
pub struct CredentialScope {
    pub scope: String,
    pub new_scope_id: Option<String>,
}

/// Chooses the key-ring scope: in client mode with a known host
/// certificate fingerprint, `remote-<fingerprint>`; otherwise
/// `local-<id>` with the stored scope id, or with a fresh one that the
/// caller must store.
pub fn credential_scope(
    client_mode: bool,
    host_fingerprint: Option<String>,
    stored_scope_id: Option<String>,
) -> (r: CredentialScope)
    ensures
        ({
            let fp = opt_view(host_fingerprint);
            if client_mode && fp is Some && spec_trim(fp->0).len() > 0 {
                r.scope@ == "remote-"@ + fp->0 && r.new_scope_id is None
            } else {
                match opt_view(stored_scope_id) {
                    Some(id) => r.scope@ == "local-"@ + id && r.new_scope_id is None,
                    None => r.new_scope_id matches Some(id) && id@.len() == 36 && r.scope@ == "local-"@
                        + id@,
                }
            }
        }),
{
    if client_mode {
        if let Some(fingerprint) = &host_fingerprint {
            if !trim(fingerprint.as_str()).is_empty() {
                return CredentialScope {
                    scope: String::from_str("remote-").concat(fingerprint.as_str()),
                    new_scope_id: None,
                };
            }
        }
    }
    match stored_scope_id {
        Some(id) => CredentialScope {
            scope: String::from_str("local-").concat(id.as_str()),
            new_scope_id: None,
        },
        None => {
            let id = new_id();
            let scope = String::from_str("local-").concat(id.as_str());
            CredentialScope { scope, new_scope_id: Some(id) }
        },
    }
}

} // verus!
