use vstd::prelude::*;
use vstd::string::*;

use crate::error::{is_validation, validation, AppError, AppResult};
use crate::text::{spec_trim, trim};

verus! {

/// The password that the default administrator account is created with.
pub const DEFAULT_ADMIN_PASSWORD: &'static str = "admin123";

/// The user name of the default administrator account.
pub const DEFAULT_ADMIN_USERNAME: &'static str = "admin";

/// An account as the user lookup found it: what sign-in checks, and the
/// user record `user` that a successful sign-in hands back.
pub struct LoginCandidate<U> {
    pub id: String,
    pub username: String,
    pub enabled: bool,
    pub password_hash: Option<String>,
    pub user: U,
}

/// The message for a sign-in without a user name or password.
pub open spec fn empty_credentials_message() -> Seq<char> {
    "用户名和密码不能为空"@
}

/// The message for an unknown user or a wrong password: the two are not
/// told apart.
pub open spec fn wrong_credentials_message() -> Seq<char> {
    "用户名或密码错误"@
}

/// The message for a disabled account.
pub open spec fn disabled_user_message() -> Seq<char> {
    "用户已停用"@
}

/// The message for an account that has no password yet.
pub open spec fn no_password_message() -> Seq<char> {
    "用户未设置密码"@
}

/// What a sign-in answers once the account `found` for the trimmed user
/// name is known, `verified` telling whether the password matched its hash
/// and `recorded` what writing the sign-in to the audit log gave.
pub open spec fn login_outcome<U>(
    found: Option<LoginCandidate<U>>,
    verified: bool,
    recorded: AppResult<()>,
    r: AppResult<U>,
) -> bool {
    match found {
        None => r matches Err(e) && is_validation(e, wrong_credentials_message()),
        Some(c) => if !c.enabled {
            r matches Err(e) && is_validation(e, disabled_user_message())
        } else if c.password_hash is None {
            r matches Err(e) && is_validation(e, no_password_message())
        } else if !verified {
            r matches Err(e) && is_validation(e, wrong_credentials_message())
        } else {
            match recorded {
                Ok(()) => r == Ok::<U, AppError>(c.user),
                Err(e) => r == Err::<U, AppError>(e),
            }
        },
    }
}

/// The audit summary of a sign-in.
pub open spec fn login_summary(username: Seq<char>) -> Seq<char> {
    "用户登录："@ + username
}

/// Signs a user in with a user name (trimmed) and a password.
/// `find_user` finds the account of a user name; `verify` tells whether a
/// password matches a stored hash; `record_login` writes the sign-in to the
/// audit log (entity id, summary, operator).  Unknown users and wrong
/// passwords get the same answer.
pub fn login_locally<
    U,
    F: Fn(&str) -> AppResult<Option<LoginCandidate<U>>>,
    V: Fn(&str, &str) -> bool,
    A: Fn(&str, &str, &str) -> AppResult<()>,
>(username: &str, password: &str, find_user: &F, verify: &V, record_login: &A) -> (r: AppResult<U>)
    requires
        forall|u: &str| call_requires(*find_user, (u,)),
        forall|p: &str, h: &str| call_requires(*verify, (p, h)),
        forall|i: &str, s: &str, o: &str| call_requires(*record_login, (i, s, o)),
    ensures
        spec_trim(username@).len() == 0 || password@.len() == 0 ==> (r matches Err(e) && is_validation(
            e,
            empty_credentials_message(),
        )),
        spec_trim(username@).len() > 0 && password@.len() > 0 ==> exists|u: &str, found: AppResult<Option<LoginCandidate<U>>>|
            u@ == spec_trim(username@) && #[trigger] call_ensures(*find_user, (u,), found) && match found {
                Err(e) => r == Err::<U, AppError>(e),
                Ok(None) => login_outcome(None, false, Ok(()), r),
                Ok(Some(c)) => exists|verified: bool, recorded: AppResult<()>|
                    {
                        &&& (c.enabled && c.password_hash is Some) ==> exists|p: &str, h: &str|
                            p@ == password@ && h@ == c.password_hash->Some_0@ && #[trigger] call_ensures(*verify, (p, h), verified)
                        &&& (c.enabled && c.password_hash is Some && verified) ==> exists|i: &str, s: &str, o: &str|
                            i@ == c.id@ && s@ == login_summary(c.username@) && o@ == c.username@
                                && #[trigger] call_ensures(*record_login, (i, s, o), recorded)
                        &&& login_outcome(Some(c), verified, recorded, r)
                    },
            },
{
    let name = trim(username);
    if name.is_empty() || password.is_empty() {
        return Err(validation("用户名和密码不能为空"));
    }
    let found = find_user(name);
    assert(call_ensures(*find_user, (name,), found));
    let candidate = match found {
        Err(e) => {
            return Err(e);
        },
        Ok(None) => {
            let r = Err(validation("用户名或密码错误"));
            assert(login_outcome::<U>(None, false, Ok(()), r));
            return r;
        },
        Ok(Some(c)) => c,
    };
    let ghost g = candidate;
    let LoginCandidate { id, username: account_name, enabled, password_hash, user } = candidate;
    if !enabled {
        let r = Err(validation("用户已停用"));
        assert(login_outcome(Some(g), false, Ok(()), r));
        return r;
    }
    let hash = match password_hash {
        None => {
            let r = Err(validation("用户未设置密码"));
            assert(login_outcome(Some(g), false, Ok(()), r));
            return r;
        },
        Some(h) => h,
    };
    let h = hash.as_str();
    let verified = verify(password, h);
    assert(call_ensures(*verify, (password, h), verified));
    if !verified {
        let r = Err(validation("用户名或密码错误"));
        assert(login_outcome(Some(g), verified, Ok(()), r));
        return r;
    }
    let summary = String::from_str("用户登录：").concat(account_name.as_str());
    let (i, m, o) = (id.as_str(), summary.as_str(), account_name.as_str());
    let recorded = record_login(i, m, o);
    assert(call_ensures(*record_login, (i, m, o), recorded));
    match recorded {
        Ok(()) => {
            let r = Ok(user);
            assert(login_outcome(Some(g), verified, recorded, r));
            r
        },
        Err(e) => {
            let r = Err(e);
            assert(login_outcome(Some(g), verified, recorded, r));
            r
        },
    }
}

/// Makes sure the default administrator exists and flags whether it still
/// has the default password.  `hash_password` hashes a password;
/// `ensure_admin` creates the administrator with a hash when there is none;
/// `find_user` finds an account; `verify` tells whether a password matches
/// a hash; `set_must_change` stores, for an account id, whether its password
/// must be changed.  The flag is set exactly when the administrator's
/// stored hash matches the default password.
pub fn ensure_default_admin<
    U,
    H: Fn(&str) -> AppResult<String>,
    E: Fn(&str) -> AppResult<()>,
    F: Fn(&str) -> AppResult<Option<LoginCandidate<U>>>,
    V: Fn(&str, &str) -> bool,
    S: Fn(&str, bool) -> AppResult<()>,
>(hash_password: &H, ensure_admin: &E, find_user: &F, verify: &V, set_must_change: &S) -> (r: AppResult<()>)
    requires
        forall|p: &str| call_requires(*hash_password, (p,)),
        forall|h: &str| call_requires(*ensure_admin, (h,)),
        forall|u: &str| call_requires(*find_user, (u,)),
        forall|p: &str, h: &str| call_requires(*verify, (p, h)),
        forall|i: &str, b: bool| call_requires(*set_must_change, (i, b)),
    ensures
        r is Ok ==> {
            &&& exists|p: &str, hash: String, h: &str, done: AppResult<()>|
                p@ == DEFAULT_ADMIN_PASSWORD@ && #[trigger] call_ensures(*hash_password, (p,), Ok::<String, AppError>(hash))
                    && h@ == hash@ && #[trigger] call_ensures(*ensure_admin, (h,), done) && done is Ok
            &&& exists|u: &str, found: Option<LoginCandidate<U>>|
                u@ == DEFAULT_ADMIN_USERNAME@ && #[trigger] call_ensures(*find_user, (u,), Ok::<Option<LoginCandidate<U>>, AppError>(found))
                    && (found matches Some(c) ==> exists|flag: bool, i: &str, done: AppResult<()>|
                        i@ == c.id@ && #[trigger] call_ensures(*set_must_change, (i, flag), done) && done is Ok
                            && match c.password_hash {
                                None => !flag,
                                Some(stored) => exists|p: &str, h: &str|
                                    p@ == DEFAULT_ADMIN_PASSWORD@ && h@ == stored@ && #[trigger] call_ensures(
                                        *verify,
                                        (p, h),
                                        flag,
                                    ),
                            })
        },
        r matches Err(e) ==> {
            ||| exists|p: &str| call_ensures(*hash_password, (p,), Err::<String, AppError>(e))
            ||| exists|h: &str| call_ensures(*ensure_admin, (h,), Err::<(), AppError>(e))
            ||| exists|u: &str| call_ensures(*find_user, (u,), Err::<Option<LoginCandidate<U>>, AppError>(e))
            ||| exists|i: &str, b: bool| call_ensures(*set_must_change, (i, b), Err::<(), AppError>(e))
        },
{
    let hashed = hash_password(DEFAULT_ADMIN_PASSWORD);
    assert(call_ensures(*hash_password, (DEFAULT_ADMIN_PASSWORD,), hashed));
    let hash = match hashed {
        Ok(h) => h,
        Err(e) => {
            return Err(e);
        },
    };
    assert(call_ensures(*hash_password, (DEFAULT_ADMIN_PASSWORD,), Ok::<String, AppError>(hash)));
    let h = hash.as_str();
    let created = ensure_admin(h);
    assert(call_ensures(*ensure_admin, (h,), created));
    match created {
        Ok(()) => {},
        Err(e) => {
            return Err(e);
        },
    }
    let found = find_user(DEFAULT_ADMIN_USERNAME);
    assert(call_ensures(*find_user, (DEFAULT_ADMIN_USERNAME,), found));
    let admin = match found {
        Ok(a) => a,
        Err(e) => {
            return Err(e);
        },
    };
    let ghost g = admin;
    assert(call_ensures(*find_user, (DEFAULT_ADMIN_USERNAME,), Ok::<Option<LoginCandidate<U>>, AppError>(g)));
    match admin {
        None => Ok(()),
        Some(c) => {
            let uses_default = match &c.password_hash {
                Some(stored) => {
                    let h = stored.as_str();
                    let v = verify(DEFAULT_ADMIN_PASSWORD, h);
                    assert(call_ensures(*verify, (DEFAULT_ADMIN_PASSWORD, h), v));
                    v
                },
                None => false,
            };
            let i = c.id.as_str();
            let stored = set_must_change(i, uses_default);
            assert(call_ensures(*set_must_change, (i, uses_default), stored));
            stored
        },
    }
}

/// The message that keeps an account on its default password out of
/// everything but changing it.
pub open spec fn default_password_message() -> Seq<char> {
    "当前账户必须先修改默认密码"@
}

/// Lets a signed-in account work only once its default password has been
/// changed; `must_change` is the stored flag.
pub fn check_password_changed(must_change: bool) -> (r: AppResult<()>)
    ensures
        r is Ok <==> !must_change,
        r matches Err(e) ==> is_validation(e, default_password_message()),
{
    if must_change {
        Err(validation("当前账户必须先修改默认密码"))
    } else {
        Ok(())
    }
}

/// The message for a request that needs a signed-in user.
pub open spec fn sign_in_first_message() -> Seq<char> {
    "请先登录"@
}

/// The signed-in user, or the error asking to sign in first.
pub fn require_signed_in<U>(current: Option<U>) -> (r: AppResult<U>)
    ensures
        current matches Some(u) ==> r == Ok::<U, AppError>(u),
        current is None ==> (r matches Err(e) && is_validation(e, sign_in_first_message())),
{
    match current {
        Some(u) => Ok(u),
        None => Err(validation("请先登录")),
    }
}

} // verus!
