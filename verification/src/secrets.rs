use vstd::prelude::*;
use vstd::string::*;

use crate::credential_store::CredentialStore;
use crate::error::{AppError, AppResult};
use crate::text::{opt_view, same_text};

verus! {

/// Key-ring scope of the application's own secrets.
pub const APPLICATION_SCOPE: &'static str = "application";

/// Setting under which older versions kept the client pairing token.
pub const CLIENT_TOKEN_SETTING: &'static str = "client_token";

/// Setting under which older versions kept the SMTP password.
pub const SMTP_PASSWORD_SETTING: &'static str = "smtp_password";

/// Setting that records that an SMTP password is configured.
pub const SMTP_PASSWORD_CONFIGURED_SETTING: &'static str = "smtp_password_configured";

/// The secrets that the application keeps in the key ring.
#[derive(Clone, Copy, Debug, PartialEq, Eq, Hash, Structural)]
pub enum ApplicationSecret {
    ClientToken,
    SmtpPassword,
}

impl ApplicationSecret {
    /// The key-ring user name of the secret.
    pub open spec fn spec_credential_name(self) -> Seq<char> {
        match self {
            ApplicationSecret::ClientToken => "client-pairing-token"@,
            ApplicationSecret::SmtpPassword => "smtp-password"@,
        }
    }

    /// The setting under which older versions kept the secret.
    pub open spec fn spec_legacy_setting(self) -> Seq<char> {
        match self {
            ApplicationSecret::ClientToken => CLIENT_TOKEN_SETTING@,
            ApplicationSecret::SmtpPassword => SMTP_PASSWORD_SETTING@,
        }
    }

    /// Returns the key-ring user name of the secret.
    pub fn credential_name(self) -> (r: &'static str)
        ensures
            r@ == self.spec_credential_name(),
    {
        match self {
            ApplicationSecret::ClientToken => "client-pairing-token",
            ApplicationSecret::SmtpPassword => "smtp-password",
        }
    }

    /// Returns the setting under which older versions kept the secret.
    pub fn legacy_setting(self) -> (r: &'static str)
        ensures
            r@ == self.spec_legacy_setting(),
    {
        match self {
            ApplicationSecret::ClientToken => CLIENT_TOKEN_SETTING,
            ApplicationSecret::SmtpPassword => SMTP_PASSWORD_SETTING,
        }
    }
}

/// What is known of one secret: `None` when it was never looked up, else
/// the value found (`None` inside when there is none).
pub type Known = Option<Option<Seq<char>>>;

/// The known value of each secret of one scope.
pub struct SecretCache {
    pub client_token: Option<Option<String>>,
    pub smtp_password: Option<Option<String>>,
}

/// The view of a known value.
pub open spec fn known_view(value: Option<Option<String>>) -> Known {
    match value {
        Some(v) => Some(opt_view(v)),
        None => None,
    }
}

impl View for SecretCache {
    type V = (Known, Known);

    open spec fn view(&self) -> (Known, Known) {
        (known_view(self.client_token), known_view(self.smtp_password))
    }
}

/// What `cache` knows of `secret`.
pub open spec fn slot(cache: (Known, Known), secret: ApplicationSecret) -> Known {
    match secret {
        ApplicationSecret::ClientToken => cache.0,
        ApplicationSecret::SmtpPassword => cache.1,
    }
}

/// `cache` with `value` known for `secret`.
pub open spec fn with_slot(cache: (Known, Known), secret: ApplicationSecret, value: Known) -> (Known, Known) {
    match secret {
        ApplicationSecret::ClientToken => (value, cache.1),
        ApplicationSecret::SmtpPassword => (cache.0, value),
    }
}

fn clone_value(value: &Option<String>) -> (r: Option<String>)
    ensures
        opt_view(r) == opt_view(*value),
{
    match value {
        Some(v) => Some(v.clone()),
        None => None,
    }
}

fn clone_known(value: &Option<Option<String>>) -> (r: Option<Option<String>>)
    ensures
        known_view(r) == known_view(*value),
{
    match value {
        Some(v) => Some(clone_value(v)),
        None => None,
    }
}

impl SecretCache {
    /// A cache that knows nothing.
    pub fn new() -> (r: SecretCache)
        ensures
            r@ == (None::<Option<Seq<char>>>, None::<Option<Seq<char>>>),
    {
        SecretCache { client_token: None, smtp_password: None }
    }

    /// What the cache knows of `secret`.
    pub fn get(&self, secret: ApplicationSecret) -> (r: Option<Option<String>>)
        ensures
            known_view(r) == slot(self@, secret),
    {
        match secret {
            ApplicationSecret::ClientToken => clone_known(&self.client_token),
            ApplicationSecret::SmtpPassword => clone_known(&self.smtp_password),
        }
    }

    /// Records `value` as the value of `secret`.
    pub fn set(&mut self, secret: ApplicationSecret, value: Option<String>)
        ensures
            final(self)@ == with_slot(old(self)@, secret, Some(opt_view(value))),
    {
        match secret {
            ApplicationSecret::ClientToken => {
                self.client_token = Some(value);
            },
            ApplicationSecret::SmtpPassword => {
                self.smtp_password = Some(value);
            },
        }
    }
}

struct ScopeCache {
    scope: String,
    cache: SecretCache,
}

/// The caches of every key-ring scope, in the order the scopes were first
/// seen.
pub struct SecretCaches {
    entries: Vec<ScopeCache>,
}

impl View for SecretCaches {
    type V = Seq<(Seq<char>, (Known, Known))>;

    closed spec fn view(&self) -> Seq<(Seq<char>, (Known, Known))> {
        self.entries@.map_values(|e: ScopeCache| (e.scope@, e.cache@))
    }
}

/// `i` is the first entry of `scope` in `caches`.
pub open spec fn is_first(caches: Seq<(Seq<char>, (Known, Known))>, scope: Seq<char>, i: int) -> bool {
    &&& 0 <= i < caches.len()
    &&& caches[i].0 == scope
    &&& forall|j: int| 0 <= j < i ==> caches[j].0 != scope
}

/// What `caches` know of `secret` in `scope`.
pub open spec fn cached(caches: Seq<(Seq<char>, (Known, Known))>, scope: Seq<char>, secret: ApplicationSecret) -> Known {
    if exists|i: int| is_first(caches, scope, i) {
        slot(caches[choose|i: int| is_first(caches, scope, i)].1, secret)
    } else {
        None
    }
}

proof fn lemma_first_unique(caches: Seq<(Seq<char>, (Known, Known))>, scope: Seq<char>, i: int)
    requires
        is_first(caches, scope, i),
    ensures
        cached(caches, scope, ApplicationSecret::ClientToken) == caches[i].1.0,
        cached(caches, scope, ApplicationSecret::SmtpPassword) == caches[i].1.1,
{
    let k = choose|k: int| is_first(caches, scope, k);
    assert(is_first(caches, scope, k));
    if k < i {
        assert(caches[k].0 != scope);
    }
    if i < k {
        assert(caches[i].0 != scope);
    }
    assert(k == i);
}

proof fn lemma_cached_secret(caches: Seq<(Seq<char>, (Known, Known))>, scope: Seq<char>, secret: ApplicationSecret, i: int)
    requires
        is_first(caches, scope, i),
    ensures
        cached(caches, scope, secret) == slot(caches[i].1, secret),
{
    lemma_first_unique(caches, scope, i);
}

impl SecretCaches {
    /// Caches that know nothing.
    pub fn new() -> (r: SecretCaches)
        ensures
            forall|s: Seq<char>, k: ApplicationSecret| cached(r@, s, k) is None,
    {
        let r = SecretCaches { entries: Vec::new() };
        assert(r@ =~= Seq::empty());
        r
    }

    fn find(&self, scope: &str) -> (r: Option<usize>)
        ensures
            match r {
                Some(i) => is_first(self@, scope@, i as int),
                None => forall|j: int| 0 <= j < self@.len() ==> self@[j].0 != scope@,
            },
    {
        let n = self.entries.len();
        let mut i: usize = 0;
        while i < n
            invariant
                n == self.entries@.len(),
                self@.len() == n,
                i <= n,
                forall|j: int| 0 <= j < i ==> self@[j].0 != scope@,
            decreases n - i,
        {
            assert(self@[i as int].0 == self.entries@[i as int].scope@);
            if same_text(self.entries[i].scope.as_str(), scope) {
                return Some(i);
            }
            i = i + 1;
        }
        None
    }

    /// What is known of `secret` in `scope`.
    pub fn get(&self, scope: &str, secret: ApplicationSecret) -> (r: Option<Option<String>>)
        ensures
            known_view(r) == cached(self@, scope@, secret),
    {
        match self.find(scope) {
            Some(i) => {
                proof {
                    lemma_cached_secret(self@, scope@, secret, i as int);
                    assert(self@[i as int].1 == self.entries@[i as int].cache@);
                }
                self.entries[i].cache.get(secret)
            },
            None => {
                assert(!exists|i: int| is_first(self@, scope@, i));
                None
            },
        }
    }

    /// Records `value` as the value of `secret` in `scope`.
    pub fn set(&mut self, scope: &str, secret: ApplicationSecret, value: Option<String>)
        ensures
            final(self)@ == after_set(old(self)@, scope@, secret, Some(opt_view(value))),
    {
        let ghost before = self@;
        let ghost v = opt_view(value);
        match self.find(scope) {
            Some(i) => {
                let mut entry = self.entries.remove(i);
                entry.cache.set(secret, value);
                self.entries.insert(i, entry);
                proof {
                    lemma_choose_first(before, scope@, i as int);
                    assert(self@ =~= before.update(
                        i as int,
                        (scope@, with_slot(before[i as int].1, secret, Some(v))),
                    ));
                }
            },
            None => {
                let mut cache = SecretCache::new();
                cache.set(secret, value);
                let entry = ScopeCache { scope: String::from_str(scope), cache };
                self.entries.push(entry);
                proof {
                    assert(!exists|x: int| is_first(before, scope@, x));
                    assert(self@ =~= before.push(
                        (scope@, with_slot((None::<Option<Seq<char>>>, None::<Option<Seq<char>>>), secret, Some(v))),
                    ));
                }
            },
        }
    }
}

proof fn lemma_choose_first(caches: Seq<(Seq<char>, (Known, Known))>, scope: Seq<char>, i: int)
    requires
        is_first(caches, scope, i),
    ensures
        (choose|x: int| is_first(caches, scope, x)) == i,
{
    let k = choose|k: int| is_first(caches, scope, k);
    assert(is_first(caches, scope, k));
    if k < i {
        assert(caches[k].0 != scope);
    }
    if i < k {
        assert(caches[i].0 != scope);
    }
}

proof fn lemma_some_first(caches: Seq<(Seq<char>, (Known, Known))>, scope: Seq<char>, j: int)
    requires
        0 <= j < caches.len(),
        caches[j].0 == scope,
    ensures
        exists|i: int| is_first(caches, scope, i),
    decreases j,
{
    if forall|m: int| 0 <= m < j ==> caches[m].0 != scope {
        assert(is_first(caches, scope, j));
    } else {
        let m = choose|m: int| 0 <= m < j && caches[m].0 == scope;
        lemma_some_first(caches, scope, m);
    }
}

/// `caches` with `value` known for `secret` in `scope`: the first entry of
/// the scope is updated, or an entry for it is added at the end.
pub open spec fn after_set(
    caches: Seq<(Seq<char>, (Known, Known))>,
    scope: Seq<char>,
    secret: ApplicationSecret,
    value: Known,
) -> Seq<(Seq<char>, (Known, Known))> {
    if exists|i: int| is_first(caches, scope, i) {
        let i = choose|i: int| is_first(caches, scope, i);
        caches.update(i, (scope, with_slot(caches[i].1, secret, value)))
    } else {
        caches.push((scope, with_slot((None, None), secret, value)))
    }
}

/// Recording a value makes it what is known of that secret in that scope,
/// and leaves what is known of every other secret and scope as it was.
pub proof fn law_set_is_seen_alone(
    caches: Seq<(Seq<char>, (Known, Known))>,
    scope: Seq<char>,
    secret: ApplicationSecret,
    value: Known,
)
    ensures
        forall|s: Seq<char>, k: ApplicationSecret|
            #![trigger cached(after_set(caches, scope, secret, value), s, k)]
            cached(after_set(caches, scope, secret, value), s, k) == if s == scope && k == secret {
                value
            } else {
                cached(caches, s, k)
            },
{
    let before = caches;
    let after = after_set(caches, scope, secret, value);
    if exists|i: int| is_first(before, scope, i) {
        let i = choose|i: int| is_first(before, scope, i);
        assert(after.len() == before.len());
        assert forall|j: int| 0 <= j < after.len() implies after[j].0 == before[j].0 by {}
        assert forall|s: Seq<char>, k: ApplicationSecret|
            #![trigger cached(after, s, k)]
            cached(after, s, k) == if s == scope && k == secret {
                value
            } else {
                cached(before, s, k)
            } by {
            if exists|x: int| is_first(before, s, x) {
                let x = choose|x: int| is_first(before, s, x);
                assert(is_first(after, s, x));
                lemma_cached_secret(before, s, k, x);
                lemma_cached_secret(after, s, k, x);
                if x != i {
                    assert(after[x] == before[x]);
                    assert(s != scope);
                } else {
                    assert(s == scope);
                }
            } else {
                assert(s != scope);
                if exists|x: int| is_first(after, s, x) {
                    let x = choose|x: int| is_first(after, s, x);
                    assert(is_first(before, s, x));
                }
            }
        }
    } else {
        let n = before.len() as int;
        assert(after.len() == n + 1);
        assert forall|j: int| 0 <= j < n implies after[j] == before[j] by {}
        assert forall|j: int| 0 <= j < n implies after[j].0 != scope by {
            assert(after[j] == before[j]);
            if before[j].0 == scope {
                lemma_some_first(before, scope, j);
            }
        }
        assert(is_first(after, scope, n));
        assert forall|s: Seq<char>, k: ApplicationSecret|
            #![trigger cached(after, s, k)]
            cached(after, s, k) == if s == scope && k == secret {
                value
            } else {
                cached(before, s, k)
            } by {
            if s == scope {
                lemma_cached_secret(after, s, k, n);
            } else if exists|x: int| is_first(before, s, x) {
                let x = choose|x: int| is_first(before, s, x);
                assert(is_first(after, s, x));
                lemma_cached_secret(before, s, k, x);
                lemma_cached_secret(after, s, k, x);
            } else {
                if exists|x: int| is_first(after, s, x) {
                    let x = choose|x: int| is_first(after, s, x);
                    assert(x != n);
                    assert(is_first(before, s, x));
                }
            }
        }
    }
}

/// Whether retiring the legacy setting of `secret` records that an SMTP
/// password is configured.
pub open spec fn marks_configured(secret: ApplicationSecret) -> bool {
    secret == ApplicationSecret::SmtpPassword
}

/// The legacy value worth moving into the key ring: a non-empty one.
pub open spec fn spec_legacy_value(value: Option<Seq<char>>) -> Option<Seq<char>> {
    match value {
        Some(v) => if v.len() > 0 {
            Some(v)
        } else {
            None
        },
        None => None,
    }
}

/// What moving the legacy setting of `secret` into the key ring may give.
/// `read_setting` reads a setting; `retire_setting` removes the legacy
/// setting in one transaction, recording that an SMTP password is
/// configured when its flag is set.  A non-empty legacy value is saved in
/// the store, the setting retired, and the value returned; otherwise there
/// is nothing; an error is one that a step gave.
pub open spec fn migration_outcome<
    S: CredentialStore,
    R: Fn(&str) -> AppResult<Option<String>>,
    W: Fn(&str, bool) -> AppResult<()>,
>(
    store: S,
    read_setting: R,
    retire_setting: W,
    scope: Seq<char>,
    secret: ApplicationSecret,
    r: AppResult<Option<String>>,
) -> bool {
    let legacy = secret.spec_legacy_setting();
    let name = secret.spec_credential_name();
    match r {
        Ok(None) => exists|a: &str, v: Option<String>|
            a@ == legacy && call_ensures(read_setting, (a,), Ok::<Option<String>, AppError>(v))
                && spec_legacy_value(opt_view(v)) is None,
        Ok(Some(x)) => {
            &&& x@.len() > 0
            &&& exists|a: &str|
                a@ == legacy && call_ensures(
                    read_setting,
                    (a,),
                    Ok::<Option<String>, AppError>(Some(x)),
                )
            &&& exists|saved: AppResult<()>| saved is Ok && store.save_outcome(scope, name, x@, saved)
            &&& exists|a: &str, retired: AppResult<()>|
                a@ == legacy && retired is Ok && #[trigger] call_ensures(
                    retire_setting,
                    (a, marks_configured(secret)),
                    retired,
                )
        },
        Err(e) => {
            ||| exists|a: &str| call_ensures(read_setting, (a,), Err::<Option<String>, AppError>(e))
            ||| exists|x: Seq<char>| store.save_outcome(scope, name, x, Err(e))
            ||| exists|a: &str, b: bool| call_ensures(retire_setting, (a, b), Err::<(), AppError>(e))
        },
    }
}

/// Moves the legacy setting of `secret` into the key ring.
pub fn migrate_legacy_setting<
    S: CredentialStore,
    R: Fn(&str) -> AppResult<Option<String>>,
    W: Fn(&str, bool) -> AppResult<()>,
>(store: &S, read_setting: &R, retire_setting: &W, scope: &str, secret: ApplicationSecret) -> (r:
    AppResult<Option<String>>)
    requires
        forall|a: &str| call_requires(*read_setting, (a,)),
        forall|a: &str, b: bool| call_requires(*retire_setting, (a, b)),
    ensures
        migration_outcome(*store, *read_setting, *retire_setting, scope@, secret, r),
{
    let legacy_name = secret.legacy_setting();
    let read = read_setting(legacy_name);
    let legacy = match read {
        Ok(v) => v,
        Err(e) => {
            return Err(e);
        },
    };
    let value = match legacy {
        Some(v) => v,
        None => {
            return Ok(None);
        },
    };
    if value.as_str().is_empty() {
        return Ok(None);
    }
    let saved = store.save_password(scope, secret.credential_name(), value.as_str());
    if let Err(e) = saved {
        return Err(e);
    }
    let is_smtp = match secret {
        ApplicationSecret::SmtpPassword => true,
        ApplicationSecret::ClientToken => false,
    };
    let retired = retire_setting(legacy_name, is_smtp);
    if let Err(e) = retired {
        return Err(e);
    }
    proof {
        assert(call_ensures(*read_setting, (legacy_name,), Ok::<Option<String>, AppError>(Some(value))));
        assert(store.save_outcome(scope@, secret.spec_credential_name(), value@, saved));
        assert(is_smtp == marks_configured(secret));
        assert(call_ensures(*retire_setting, (legacy_name, marks_configured(secret)), retired));
    }
    Ok(Some(value))
}

/// Loads `secret` of `scope`: from the cache when it is known there (the
/// store is then not asked), else from the store, else from the legacy
/// setting, which is then moved into the store.  What was found is
/// remembered; on an error the cache is left as it was.
pub fn load<
    S: CredentialStore,
    R: Fn(&str) -> AppResult<Option<String>>,
    W: Fn(&str, bool) -> AppResult<()>,
>(
    caches: &mut SecretCaches,
    store: &S,
    scope: &str,
    secret: ApplicationSecret,
    read_setting: &R,
    retire_setting: &W,
) -> (r: AppResult<Option<String>>)
    requires
        forall|a: &str| call_requires(*read_setting, (a,)),
        forall|a: &str, b: bool| call_requires(*retire_setting, (a, b)),
    ensures
        cached(old(caches)@, scope@, secret) matches Some(v) ==> r matches Ok(x) && opt_view(x) == v
            && final(caches)@ == old(caches)@,
        cached(old(caches)@, scope@, secret) is None ==> match r {
            Ok(x) => {
                &&& final(caches)@ == after_set(old(caches)@, scope@, secret, Some(opt_view(x)))
                &&& {
                    ||| (x is Some && store.load_outcome(scope@, secret.spec_credential_name(), Ok(x)))
                    ||| (store.load_outcome(scope@, secret.spec_credential_name(), Ok(None))
                        && migration_outcome(*store, *read_setting, *retire_setting, scope@, secret, Ok(x)))
                }
            },
            Err(e) => {
                &&& final(caches)@ == old(caches)@
                &&& {
                    ||| store.load_outcome(scope@, secret.spec_credential_name(), Err(e))
                    ||| (store.load_outcome(scope@, secret.spec_credential_name(), Ok(None))
                        && migration_outcome(*store, *read_setting, *retire_setting, scope@, secret, Err(e)))
                }
            },
        },
{
    if let Some(known) = caches.get(scope, secret) {
        return Ok(known);
    }
    let loaded = store.load_password(scope, secret.credential_name());
    let value = match loaded {
        Ok(Some(v)) => Some(v),
        Ok(None) => {
            let migrated = migrate_legacy_setting(store, read_setting, retire_setting, scope, secret);
            match migrated {
                Ok(v) => v,
                Err(e) => {
                    return Err(e);
                },
            }
        },
        Err(e) => {
            return Err(e);
        },
    };
    let remembered = clone_value(&value);
    caches.set(scope, secret, remembered);
    Ok(value)
}

/// Saves `secret` of `scope` in the store and, when that succeeds,
/// remembers it; on an error the cache is left as it was.
pub fn save<S: CredentialStore>(
    caches: &mut SecretCaches,
    store: &S,
    scope: &str,
    secret: ApplicationSecret,
    value: &str,
) -> (r: AppResult<()>)
    ensures
        store.save_outcome(scope@, secret.spec_credential_name(), value@, r),
        r is Ok ==> final(caches)@ == after_set(old(caches)@, scope@, secret, Some(Some(value@))),
        r is Err ==> final(caches)@ == old(caches)@,
{
    let saved = store.save_password(scope, secret.credential_name(), value);
    if saved.is_ok() {
        caches.set(scope, secret, Some(String::from_str(value)));
    }
    saved
}

/// Deletes `secret` of `scope` from the store and, when that succeeds,
/// remembers that there is none; on an error the cache is left as it was.
pub fn delete<S: CredentialStore>(
    caches: &mut SecretCaches,
    store: &S,
    scope: &str,
    secret: ApplicationSecret,
) -> (r: AppResult<()>)
    ensures
        store.delete_outcome(scope@, secret.spec_credential_name(), r),
        r is Ok ==> final(caches)@ == after_set(old(caches)@, scope@, secret, Some(None)),
        r is Err ==> final(caches)@ == old(caches)@,
{
    let deleted = store.delete_password(scope, secret.credential_name());
    if deleted.is_ok() {
        caches.set(scope, secret, None);
    }
    deleted
}

/// Once a secret has been saved, loading it in the same scope gives the
/// saved value from the cache, whatever the store holds; once deleted,
/// loading it gives nothing.  Other secrets and scopes are not affected.
pub proof fn law_load_after_save_or_delete(
    caches: Seq<(Seq<char>, (Known, Known))>,
    scope: Seq<char>,
    secret: ApplicationSecret,
    value: Seq<char>,
)
    ensures
        cached(after_set(caches, scope, secret, Some(Some(value))), scope, secret) == Some(Some(value)),
        cached(after_set(caches, scope, secret, Some(None)), scope, secret) == Some(None::<Seq<char>>),
        forall|s: Seq<char>, k: ApplicationSecret|
            !(s == scope && k == secret) ==> #[trigger] cached(
                after_set(caches, scope, secret, Some(Some(value))),
                s,
                k,
            ) == cached(caches, s, k),
{
    law_set_is_seen_alone(caches, scope, secret, Some(Some(value)));
    law_set_is_seen_alone(caches, scope, secret, Some(None));
}

} // verus!
