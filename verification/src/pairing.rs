use vstd::prelude::*;
use vstd::string::*;
use vstd::utf8::*;

use crate::clock::MonotonicClock;
use crate::codec::{base64_standard_decode, base64_standard_decoding, base64_standard_encoding};
use crate::error::{AppError, AppResult};
use crate::ids::{new_id, random_in_range, random_nonce};
use crate::text::{decimal, same_text, spec_decimal, spec_trim, trim};

verus! {

/// How long a started exchange may wait for its finish, in nanoseconds
/// (two minutes).
pub const EXCHANGE_TTL_NANOS: u128 = 120_000_000_000;

/// Smallest pairing code: codes have twelve digits.
pub const PAIR_CODE_LOW: u64 = 100_000_000_000;

/// One past the largest pairing code.
pub const PAIR_CODE_HIGH: u64 = 1_000_000_000_000;

/// The one message given for every failed pairing step, so that a failure
/// tells an attacker nothing about its cause.
pub open spec fn pairing_failed_message() -> Seq<char> {
    "配对验证失败，请检查配对码后重试"@
}

/// `e` is the pairing failure.
pub open spec fn is_pairing_failed(e: AppError) -> bool {
    e matches AppError::Validation(m) && m@ == pairing_failed_message()
}

fn pairing_failed() -> (r: AppError)
    ensures
        is_pairing_failed(r),
{
    AppError::Validation(String::from_str("配对验证失败，请检查配对码后重试"))
}

/// A client's request to start pairing.
pub struct PairStartRequest {
    pub client_name: String,
    pub client_device_id: String,
    pub app_version: String,
    pub client_nonce: String,
    pub ke1: String,
}

/// The host's answer to a start request.
pub struct PairStartResponse {
    pub exchange_id: String,
    pub server_nonce: String,
    pub ke2: String,
}

/// A client's request to finish pairing.
pub struct PairFinishRequest {
    pub exchange_id: String,
    pub ke3: String,
}

/// The host's answer to a finished pairing.
pub struct PairFinishResponse {
    pub token: String,
    pub message: String,
}

/// The client that a finished pairing has verified.
pub struct VerifiedPairing {
    pub client_name: String,
    pub client_device_id: String,
    pub app_version: String,
    pub client_ip: String,
}

/// The pairing code in force, with its password-file material.
pub struct PairingRegistration {
    pub id: String,
    pub code: String,
    pub server_setup: Vec<u8>,
    pub password_file: Vec<u8>,
}

/// A started exchange that waits for its finish.  `created_at` is read on
/// the runtime's clock.
pub struct PendingExchange {
    pub registration_id: String,
    pub client_name: String,
    pub client_device_id: String,
    pub app_version: String,
    pub client_ip: String,
    pub context: Vec<u8>,
    pub server_state: Vec<u8>,
    pub created_at: u128,
}

/// What the host needs to run the first server step of an exchange.
pub struct BeginPlan {
    pub registration_id: String,
    pub server_setup: Vec<u8>,
    pub password_file: Vec<u8>,
    pub server_nonce: String,
    pub context: Vec<u8>,
}

/// Pending exchanges by id.
pub type Exchanges = Map<Seq<char>, PendingExchange>;

/// Time passed from `started` to `now`, zero when `now` is earlier.
pub open spec fn elapsed(now: u128, started: u128) -> int {
    if now >= started {
        now - started
    } else {
        0
    }
}

/// The exchanges that have not expired at `now`.
pub open spec fn unexpired(m: Exchanges, now: u128) -> Exchanges {
    Map::new(
        |k: Seq<char>| m.contains_key(k) && elapsed(now, m[k].created_at) < EXCHANGE_TTL_NANOS,
        |k: Seq<char>| m[k],
    )
}

/// What taking the exchange `id` (already trimmed) at `now` does: drop the
/// expired exchanges, remove `id`, and hand it out when it was started under
/// the registration in force.
pub open spec fn take_outcome(
    old: Exchanges,
    current: Option<PairingRegistration>,
    id: Seq<char>,
    now: u128,
    new: Exchanges,
    r: AppResult<PendingExchange>,
) -> bool {
    let p = unexpired(old, now);
    &&& new == p.remove(id)
    &&& r is Ok <==> (p.contains_key(id) && (current matches Some(reg) && reg.id@
        == p[id].registration_id@))
    &&& r matches Ok(x) ==> x == p[id]
    &&& r matches Err(e) ==> is_pairing_failed(e)
}

struct ExchangeEntry {
    id: String,
    exchange: PendingExchange,
}

spec fn to_map(es: Seq<ExchangeEntry>) -> Exchanges
    decreases es.len(),
{
    if es.len() == 0 {
        Map::empty()
    } else {
        to_map(es.drop_last()).insert(es.last().id@, es.last().exchange)
    }
}

spec fn distinct_ids(es: Seq<ExchangeEntry>) -> bool {
    forall|i: int, j: int| 0 <= i < j < es.len() ==> es[i].id@ != es[j].id@
}

proof fn lemma_to_map_dom(es: Seq<ExchangeEntry>, k: Seq<char>)
    ensures
        to_map(es).contains_key(k) <==> exists|i: int| 0 <= i < es.len() && es[i].id@ == k,
    decreases es.len(),
{
    if es.len() > 0 {
        lemma_to_map_dom(es.drop_last(), k);
        if to_map(es.drop_last()).contains_key(k) {
            let i = choose|i: int| 0 <= i < es.drop_last().len() && es.drop_last()[i].id@ == k;
            assert(es[i].id@ == k);
        }
        if exists|i: int| 0 <= i < es.len() && es[i].id@ == k {
            let i = choose|i: int| 0 <= i < es.len() && es[i].id@ == k;
            if i < es.len() - 1 {
                assert(es.drop_last()[i].id@ == k);
            }
        }
    }
}

proof fn lemma_to_map_index(es: Seq<ExchangeEntry>, i: int)
    requires
        distinct_ids(es),
        0 <= i < es.len(),
    ensures
        to_map(es).contains_key(es[i].id@),
        to_map(es)[es[i].id@] == es[i].exchange,
    decreases es.len(),
{
    if i < es.len() - 1 {
        assert(distinct_ids(es.drop_last()));
        lemma_to_map_index(es.drop_last(), i);
        assert(es.drop_last()[i] == es[i]);
    }
}

proof fn lemma_to_map_update(es: Seq<ExchangeEntry>, i: int, e: ExchangeEntry)
    requires
        distinct_ids(es),
        0 <= i < es.len(),
        e.id@ == es[i].id@,
    ensures
        to_map(es.update(i, e)) == to_map(es).insert(e.id@, e.exchange),
        distinct_ids(es.update(i, e)),
    decreases es.len(),
{
    let u = es.update(i, e);
    if i == es.len() - 1 {
        assert(u.drop_last() =~= es.drop_last());
        lemma_to_map_dom(es.drop_last(), e.id@);
        assert(to_map(u) =~= to_map(es).insert(e.id@, e.exchange));
    } else {
        assert(distinct_ids(es.drop_last()));
        lemma_to_map_update(es.drop_last(), i, e);
        assert(u.drop_last() =~= es.drop_last().update(i, e));
        assert(u.last() == es.last());
        assert(to_map(u) =~= to_map(es).insert(e.id@, e.exchange));
    }
}

proof fn lemma_to_map_remove(es: Seq<ExchangeEntry>, i: int)
    requires
        distinct_ids(es),
        0 <= i < es.len(),
    ensures
        to_map(es.remove(i)) == to_map(es).remove(es[i].id@),
        distinct_ids(es.remove(i)),
    decreases es.len(),
{
    let r = es.remove(i);
    let k = es[i].id@;
    assert forall|a: int, b: int| 0 <= a < b < r.len() implies r[a].id@ != r[b].id@ by {
        let a0 = if a < i { a } else { a + 1 };
        let b0 = if b < i { b } else { b + 1 };
        assert(r[a] == es[a0]);
        assert(r[b] == es[b0]);
    }
    if i == es.len() - 1 {
        assert(r =~= es.drop_last());
        lemma_to_map_dom(es.drop_last(), k);
        assert(to_map(r) =~= to_map(es).remove(k));
    } else {
        assert(distinct_ids(es.drop_last()));
        lemma_to_map_remove(es.drop_last(), i);
        assert(r.drop_last() =~= es.drop_last().remove(i));
        assert(r.last() == es.last());
        assert(es.last().id@ != k);
        assert(to_map(r) =~= to_map(es).remove(k));
    }
}

proof fn lemma_push_fresh(es: Seq<ExchangeEntry>, e: ExchangeEntry)
    requires
        distinct_ids(es),
        !to_map(es).contains_key(e.id@),
    ensures
        distinct_ids(es.push(e)),
        to_map(es.push(e)) == to_map(es).insert(e.id@, e.exchange),
{
    let q = es.push(e);
    assert(q.drop_last() =~= es);
    lemma_to_map_dom(es, e.id@);
    assert forall|a: int, b: int| 0 <= a < b < q.len() implies q[a].id@ != q[b].id@ by {
        assert(q[a] == es[a]);
        if b < es.len() {
            assert(q[b] == es[b]);
        }
    }
}

proof fn lemma_take_step(es: Seq<ExchangeEntry>, j: int)
    requires
        0 <= j < es.len(),
    ensures
        to_map(es.take(j + 1)) == to_map(es.take(j)).insert(es[j].id@, es[j].exchange),
{
    assert(es.take(j + 1).drop_last() =~= es.take(j));
    assert(es.take(j + 1).last() == es[j]);
}

/// The host's pairing state: the pairing code in force and the exchanges
/// that clients have started.
pub struct PairingRuntime {
    clock: MonotonicClock,
    registration: Option<PairingRegistration>,
    exchanges: Vec<ExchangeEntry>,
}

impl PairingRuntime {
    /// Well-formedness: one entry per exchange id.
    pub closed spec fn inv(&self) -> bool {
        distinct_ids(self.exchanges@)
    }

    /// The pairing code in force, if any.
    pub closed spec fn current(&self) -> Option<PairingRegistration> {
        self.registration
    }

    /// The started exchanges, by id.
    pub closed spec fn pending(&self) -> Exchanges {
        to_map(self.exchanges@)
    }

    /// A runtime whose pairing code in force is `registration`, with no
    /// exchange started.
    pub fn initialize(registration: PairingRegistration) -> (r: Self)
        ensures
            r.inv(),
            r.current() == Some(registration),
            r.pending() == Exchanges::empty(),
    {
        PairingRuntime {
            clock: MonotonicClock::start(),
            registration: Some(registration),
            exchanges: Vec::new(),
        }
    }

    /// The pairing code in force, if any.
    pub fn code(&self) -> (r: Option<&str>)
        ensures
            match self.current() {
                Some(reg) => (r matches Some(c) && c@ == reg.code@),
                None => r is None,
            },
    {
        match &self.registration {
            Some(registration) => Some(registration.code.as_str()),
            None => None,
        }
    }

    /// Puts a new pairing code in force and drops every started exchange.
    pub fn install_registration(&mut self, code: String, server_setup: Vec<u8>, password_file: Vec<u8>)
        requires
            old(self).inv(),
        ensures
            final(self).inv(),
            (final(self).current() matches Some(reg) && reg.code == code && reg.server_setup
                == server_setup && reg.password_file == password_file && reg.id@.len() == 36),
            final(self).pending() == Exchanges::empty(),
    {
        let id = new_id();
        self.registration = Some(PairingRegistration { id, code, server_setup, password_file });
        self.exchanges = Vec::new();
    }

    /// Drops the exchanges that have expired at `now`.
    pub fn remove_expired_at(&mut self, now: u128)
        requires
            old(self).inv(),
        ensures
            final(self).inv(),
            final(self).current() == old(self).current(),
            final(self).pending() == unexpired(old(self).pending(), now),
    {
        let ghost es = self.exchanges@;
        let mut old_entries: Vec<ExchangeEntry> = Vec::new();
        std::mem::swap(&mut old_entries, &mut self.exchanges);
        let mut kept: Vec<ExchangeEntry> = Vec::new();
        let n = old_entries.len();
        let mut j: usize = 0;
        while j < n
            invariant
                n == es.len(),
                old_entries@ == es.skip(j as int),
                distinct_ids(es),
                j <= n,
                distinct_ids(kept@),
                to_map(kept@) == unexpired(to_map(es.take(j as int)), now),
            decreases n - j,
        {
            proof {
                lemma_take_step(es, j as int);
                lemma_to_map_dom(es.take(j as int), es[j as int].id@);
                if exists|a: int| 0 <= a < j && es.take(j as int)[a].id@ == es[j as int].id@ {
                    let a = choose|a: int| 0 <= a < j && es.take(j as int)[a].id@ == es[j as int].id@;
                    assert(es[a].id@ == es[j as int].id@);
                }
            }
            let entry = old_entries.remove(0);
            assert(entry == es[j as int]);
            assert(old_entries@ =~= es.skip(j + 1));
            let created_at = entry.exchange.created_at;
            let keep = if now >= created_at {
                now - created_at < EXCHANGE_TTL_NANOS
            } else {
                0 < EXCHANGE_TTL_NANOS
            };
            proof {
                let m = to_map(es.take(j as int));
                assert(unexpired(m.insert(entry.id@, entry.exchange), now) =~= if keep {
                    unexpired(m, now).insert(entry.id@, entry.exchange)
                } else {
                    unexpired(m, now)
                });
            }
            if keep {
                proof {
                    lemma_push_fresh(kept@, entry);
                }
                kept.push(entry);
            }
            j = j + 1;
        }
        assert(es.take(n as int) =~= es);
        self.exchanges = kept;
    }
}

impl Default for PairingRuntime {
    /// A runtime with no pairing code in force and no exchanges started.
    fn default() -> (r: Self)
        ensures
            r.inv(),
            r.current() is None,
            r.pending() == Exchanges::empty(),
    {
        PairingRuntime { clock: MonotonicClock::start(), registration: None, exchanges: Vec::new() }
    }
}

impl PairingRuntime {
    /// Drops the exchanges that have expired by now.
    pub fn remove_expired(&mut self)
        requires
            old(self).inv(),
        ensures
            final(self).inv(),
            final(self).current() == old(self).current(),
            exists|now: u128| final(self).pending() == unexpired(old(self).pending(), now),
    {
        let now = self.clock.now_nanos();
        self.remove_expired_at(now);
    }

    fn find(&self, id: &str) -> (r: Option<usize>)
        requires
            self.inv(),
        ensures
            match r {
                Some(i) => i < self.exchanges@.len() && self.exchanges@[i as int].id@ == id@,
                None => !self.pending().contains_key(id@),
            },
    {
        let n = self.exchanges.len();
        let mut i: usize = 0;
        while i < n
            invariant
                n == self.exchanges@.len(),
                i <= n,
                forall|a: int| 0 <= a < i ==> self.exchanges@[a].id@ != id@,
            decreases n - i,
        {
            if same_text(self.exchanges[i].id.as_str(), id) {
                return Some(i);
            }
            i = i + 1;
        }
        proof {
            lemma_to_map_dom(self.exchanges@, id@);
        }
        None
    }

    /// Checks a start request and prepares the first server step: drops the
    /// expired exchanges, refuses bad client metadata or nonce or a missing
    /// pairing code, and otherwise gives a fresh server nonce with the
    /// context that binds the exchange to the certificate, the device and both
    /// nonces.
    pub fn prepare_begin(&mut self, request: &PairStartRequest, certificate_fingerprint: &str) -> (r:
        AppResult<BeginPlan>)
        requires
            old(self).inv(),
        ensures
            final(self).inv(),
            final(self).current() == old(self).current(),
            exists|now: u128| final(self).pending() == unexpired(old(self).pending(), now),
            r is Ok <==> (client_metadata_valid(request.client_name@, request.client_device_id@)
                && nonce_valid(request.client_nonce@) && old(self).current() is Some),
            r matches Err(e) ==> is_pairing_failed(e),
            r matches Ok(plan) ==> ({
                let reg = old(self).current()->0;
                &&& plan.registration_id@ == reg.id@
                &&& plan.server_setup@ == reg.server_setup@
                &&& plan.password_file@ == reg.password_file@
                &&& nonce_valid(plan.server_nonce@)
                &&& plan.context@ == encode_utf8(
                    spec_pairing_context(
                        certificate_fingerprint@,
                        request.client_device_id@,
                        request.client_nonce@,
                        plan.server_nonce@,
                    ),
                )
            }),
    {
        self.remove_expired();
        validate_client_metadata(request.client_name.as_str(), request.client_device_id.as_str())?;
        validate_nonce(request.client_nonce.as_str())?;
        let registration = match &self.registration {
            Some(registration) => registration,
            None => return Err(pairing_failed()),
        };
        let server_nonce = random_nonce();
        let context = pairing_context(
            certificate_fingerprint,
            request.client_device_id.as_str(),
            request.client_nonce.as_str(),
            server_nonce.as_str(),
        );
        Ok(BeginPlan {
            registration_id: registration.id.clone(),
            server_setup: vstd::slice::slice_to_vec(registration.server_setup.as_slice()),
            password_file: vstd::slice::slice_to_vec(registration.password_file.as_slice()),
            server_nonce,
            context,
        })
    }

    /// Records a started exchange under a fresh id and returns the id; the
    /// exchange is stamped with the current time.
    pub fn record_exchange(
        &mut self,
        registration_id: String,
        request: PairStartRequest,
        client_ip: String,
        context: Vec<u8>,
        server_state: Vec<u8>,
    ) -> (r: String)
        requires
            old(self).inv(),
        ensures
            final(self).inv(),
            final(self).current() == old(self).current(),
            final(self).pending().contains_key(r@),
            final(self).pending() == old(self).pending().insert(r@, final(self).pending()[r@]),
            ({
                let x = final(self).pending()[r@];
                &&& x.registration_id == registration_id
                &&& x.client_name == request.client_name
                &&& x.client_device_id == request.client_device_id
                &&& x.app_version == request.app_version
                &&& x.client_ip == client_ip
                &&& x.context == context
                &&& x.server_state == server_state
            }),
    {
        let exchange_id = new_id();
        let created_at = self.clock.now_nanos();
        let PairStartRequest { client_name, client_device_id, app_version, client_nonce: _, ke1: _ } =
            request;
        let entry = ExchangeEntry {
            id: exchange_id.clone(),
            exchange: PendingExchange {
                registration_id,
                client_name,
                client_device_id,
                app_version,
                client_ip,
                context,
                server_state,
                created_at,
            },
        };
        match self.find(exchange_id.as_str()) {
            Some(i) => {
                proof {
                    lemma_to_map_update(self.exchanges@, i as int, entry);
                }
                self.exchanges.set(i, entry);
            },
            None => {
                proof {
                    lemma_push_fresh(self.exchanges@, entry);
                }
                self.exchanges.push(entry);
            },
        }
        exchange_id
    }

    /// Takes the exchange that a finish request names: drops the expired
    /// exchanges, removes the named one (so that it can never be finished
    /// twice) and hands it out when it was started under the pairing code in
    /// force.
    pub fn take_exchange(&mut self, exchange_id: &str) -> (r: AppResult<PendingExchange>)
        requires
            old(self).inv(),
        ensures
            final(self).inv(),
            final(self).current() == old(self).current(),
            exists|now: u128|
                take_outcome(
                    old(self).pending(),
                    old(self).current(),
                    spec_trim(exchange_id@),
                    now,
                    final(self).pending(),
                    r,
                ),
    {
        let now = self.clock.now_nanos();
        self.remove_expired_at(now);
        let ghost p = self.pending();
        let id = trim(exchange_id);
        let i = match self.find(id) {
            Some(i) => i,
            None => {
                assert(p.remove(id@) =~= p);
                let r = Err(pairing_failed());
                assert(take_outcome(old(self).pending(), old(self).current(), id@, now, self.pending(), r));
                return r;
            },
        };
        proof {
            lemma_to_map_index(self.exchanges@, i as int);
            lemma_to_map_remove(self.exchanges@, i as int);
        }
        let entry = self.exchanges.remove(i);
        let ExchangeEntry { id: _, exchange } = entry;
        let matches_current = match &self.registration {
            Some(registration) => same_text(exchange.registration_id.as_str(), registration.id.as_str()),
            None => false,
        };
        if !matches_current {
            let r = Err(pairing_failed());
            assert(take_outcome(old(self).pending(), old(self).current(), id@, now, self.pending(), r));
            return r;
        }
        let r = Ok(exchange);
        assert(take_outcome(old(self).pending(), old(self).current(), id@, now, self.pending(), r));
        r
    }
}

/// The client that a finished exchange has verified.
pub fn verified_pairing(exchange: PendingExchange) -> (r: VerifiedPairing)
    ensures
        r.client_name == exchange.client_name,
        r.client_device_id == exchange.client_device_id,
        r.app_version == exchange.app_version,
        r.client_ip == exchange.client_ip,
{
    VerifiedPairing {
        client_name: exchange.client_name,
        client_device_id: exchange.client_device_id,
        app_version: exchange.app_version,
        client_ip: exchange.client_ip,
    }
}

/// Client metadata is accepted when the name holds something but white space
/// and at most 80 characters, and the device id holds something but white
/// space and at most 128 characters.
pub open spec fn client_metadata_valid(name: Seq<char>, device: Seq<char>) -> bool {
    &&& spec_trim(name).len() > 0
    &&& name.len() <= 80
    &&& spec_trim(device).len() > 0
    &&& device.len() <= 128
}

/// Checks the client's name and device id.
pub fn validate_client_metadata(client_name: &str, client_device_id: &str) -> (r: AppResult<()>)
    ensures
        r is Ok <==> client_metadata_valid(client_name@, client_device_id@),
        r matches Err(e) ==> is_pairing_failed(e),
{
    if trim(client_name).is_empty() || client_name.unicode_len() > 80 {
        return Err(pairing_failed());
    }
    if trim(client_device_id).is_empty() || client_device_id.unicode_len() > 128 {
        return Err(pairing_failed());
    }
    Ok(())
}

/// Reads a standard-base64 protocol message.
pub fn decode_message(value: &str) -> (r: AppResult<Vec<u8>>)
    ensures
        match r {
            Ok(v) => base64_standard_decoding(value@) == Some(v@),
            Err(e) => base64_standard_decoding(value@) is None && is_pairing_failed(e),
        },
{
    match base64_standard_decode(value) {
        Some(bytes) => Ok(bytes),
        None => Err(pairing_failed()),
    }
}

/// A nonce is the standard-base64 text of exactly 16 bytes.
pub open spec fn nonce_valid(nonce: Seq<char>) -> bool {
    base64_standard_decoding(nonce) matches Some(b) && b.len() == 16
}

/// Checks a client nonce.
pub fn validate_nonce(nonce: &str) -> (r: AppResult<()>)
    ensures
        r is Ok <==> nonce_valid(nonce@),
        r matches Err(e) ==> is_pairing_failed(e),
{
    let decoded = decode_message(nonce)?;
    if decoded.len() != 16 {
        return Err(pairing_failed());
    }
    Ok(())
}

/// The text that binds an exchange to the host certificate, the client
/// device and both nonces, its parts separated by NUL characters.
pub open spec fn spec_pairing_context(
    certificate_fingerprint: Seq<char>,
    client_device_id: Seq<char>,
    client_nonce: Seq<char>,
    server_nonce: Seq<char>,
) -> Seq<char> {
    "aster-pair-v2"@ + "\0"@ + certificate_fingerprint + "\0"@ + client_device_id + "\0"@
        + client_nonce + "\0"@ + server_nonce
}

/// The UTF-8 bytes of the pairing context.
pub fn pairing_context(
    certificate_fingerprint: &str,
    client_device_id: &str,
    client_nonce: &str,
    server_nonce: &str,
) -> (r: Vec<u8>)
    ensures
        r@ == encode_utf8(
            spec_pairing_context(certificate_fingerprint@, client_device_id@, client_nonce@, server_nonce@),
        ),
{
    let text = String::from_str("aster-pair-v2").concat("\0").concat(certificate_fingerprint).concat(
        "\0",
    ).concat(client_device_id).concat("\0").concat(client_nonce).concat("\0").concat(server_nonce);
    text.as_str().as_bytes_vec()
}

/// A fresh random twelve-digit pairing code.
pub fn generate_pair_code() -> (r: String)
    ensures
        exists|n: nat| PAIR_CODE_LOW <= n < PAIR_CODE_HIGH && r@ == spec_decimal(n),
{
    let n = random_in_range(PAIR_CODE_LOW, PAIR_CODE_HIGH);
    decimal(n)
}

/// Law: an exchange can be taken at most once: after it has been taken,
/// whether that succeeded or not, taking it again fails.
pub proof fn law_exchange_is_single_use(
    p0: Exchanges,
    p1: Exchanges,
    p2: Exchanges,
    current: Option<PairingRegistration>,
    id: Seq<char>,
    now1: u128,
    now2: u128,
    r1: AppResult<PendingExchange>,
    r2: AppResult<PendingExchange>,
)
    requires
        take_outcome(p0, current, id, now1, p1, r1),
        take_outcome(p1, current, id, now2, p2, r2),
    ensures
        r2 is Err,
{
}

/// Law: an exchange is handed out only under the pairing code it was started
/// with.
pub proof fn law_exchange_bound_to_registration(
    p0: Exchanges,
    p1: Exchanges,
    current: Option<PairingRegistration>,
    id: Seq<char>,
    now: u128,
    r: AppResult<PendingExchange>,
)
    requires
        take_outcome(p0, current, id, now, p1, r),
        r is Ok,
    ensures
        current matches Some(reg) && reg.id@ == r->Ok_0.registration_id@,
        p0.contains_key(id) && p0[id] == r->Ok_0,
{
}

/// Law: an exchange that has waited longer than the time to live can no
/// longer be taken.
pub proof fn law_expired_exchange_is_refused(
    p0: Exchanges,
    p1: Exchanges,
    current: Option<PairingRegistration>,
    id: Seq<char>,
    now: u128,
    r: AppResult<PendingExchange>,
)
    requires
        take_outcome(p0, current, id, now, p1, r),
        p0.contains_key(id),
        elapsed(now, p0[id].created_at) >= EXCHANGE_TTL_NANOS,
    ensures
        r is Err,
{
}

} // verus!
