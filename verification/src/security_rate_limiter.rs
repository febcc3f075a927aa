use vstd::prelude::*;
use vstd::string::*;

use crate::clock::MonotonicClock;
use crate::error::{AppError, AppResult};
use crate::text::{join_colon, same_text};

verus! {

/// Attempts that one operation from one source may make within its window.
pub const ATTEMPT_LIMIT: usize = 5;

/// Length of the pairing window, in nanoseconds (ten minutes).
pub const PAIR_WINDOW_NANOS: u128 = 600_000_000_000;

/// Length of every other window, in nanoseconds (fifteen minutes).
pub const DEFAULT_WINDOW_NANOS: u128 = 900_000_000_000;

/// The message given when a source has used up its attempts.
pub open spec fn rate_limited_message() -> Seq<char> {
    "安全操作尝试过于频繁，请稍后再试"@
}

/// Attempt limit and window length of an operation.
pub open spec fn spec_policy(operation: Seq<char>) -> (usize, u128) {
    if operation == "pair"@ {
        (ATTEMPT_LIMIT, PAIR_WINDOW_NANOS)
    } else if operation == "password-reset"@ {
        (ATTEMPT_LIMIT, DEFAULT_WINDOW_NANOS)
    } else {
        (ATTEMPT_LIMIT, DEFAULT_WINDOW_NANOS)
    }
}

/// The key under which the attempts of `operation` from `source` are counted.
pub open spec fn rate_key(operation: Seq<char>, source: Seq<char>) -> Seq<char> {
    operation + ":"@ + source
}

/// Time passed from `started` to `now`, zero when `now` is earlier.
pub open spec fn elapsed(now: u128, started: u128) -> int {
    if now >= started {
        now - started
    } else {
        0
    }
}

/// Windows are `(started_at, attempts)` by key.
pub type Windows = Map<Seq<char>, (u128, usize)>;

/// The windows that are still open at `now` for a window length `window`.
pub open spec fn prune(m: Windows, now: u128, window: u128) -> Windows {
    Map::new(|k: Seq<char>| m.contains_key(k) && elapsed(now, m[k].0) < window, |k: Seq<char>| m[k])
}

/// The window that a check of `key` at `now` counts against.
pub open spec fn current_window(p: Windows, key: Seq<char>, now: u128, window: u128) -> (u128, usize) {
    let w = if p.contains_key(key) {
        p[key]
    } else {
        (now, 0usize)
    };
    if elapsed(now, w.0) >= window {
        (now, 0usize)
    } else {
        w
    }
}

/// What one check of `operation` from `source` at `now` does: drop the windows
/// that have closed, then either count one more attempt or refuse.
pub open spec fn check_outcome(
    old: Windows,
    new: Windows,
    operation: Seq<char>,
    source: Seq<char>,
    now: u128,
    r: AppResult<()>,
) -> bool {
    let limit = spec_policy(operation).0;
    let window = spec_policy(operation).1;
    let p = prune(old, now, window);
    let k = rate_key(operation, source);
    let w = current_window(p, k, now, window);
    if w.1 >= limit {
        &&& r matches Err(e) && e matches AppError::RateLimited(m) && m@ == rate_limited_message()
        &&& new == p.insert(k, w)
    } else {
        &&& r is Ok
        &&& new == p.insert(k, (w.0, (w.1 + 1) as usize))
    }
}

struct AttemptWindow {
    key: String,
    started_at: u128,
    attempts: usize,
}

spec fn window_value(w: AttemptWindow) -> (u128, usize) {
    (w.started_at, w.attempts)
}

spec fn to_map(ws: Seq<AttemptWindow>) -> Windows
    decreases ws.len(),
{
    if ws.len() == 0 {
        Map::empty()
    } else {
        to_map(ws.drop_last()).insert(ws.last().key@, window_value(ws.last()))
    }
}

spec fn distinct_keys(ws: Seq<AttemptWindow>) -> bool {
    forall|i: int, j: int| 0 <= i < j < ws.len() ==> ws[i].key@ != ws[j].key@
}

proof fn lemma_to_map_dom(ws: Seq<AttemptWindow>, k: Seq<char>)
    ensures
        to_map(ws).contains_key(k) <==> exists|i: int| 0 <= i < ws.len() && ws[i].key@ == k,
    decreases ws.len(),
{
    if ws.len() > 0 {
        lemma_to_map_dom(ws.drop_last(), k);
        if to_map(ws.drop_last()).contains_key(k) {
            let i = choose|i: int| 0 <= i < ws.drop_last().len() && ws.drop_last()[i].key@ == k;
            assert(ws[i].key@ == k);
        }
        if exists|i: int| 0 <= i < ws.len() && ws[i].key@ == k {
            let i = choose|i: int| 0 <= i < ws.len() && ws[i].key@ == k;
            if i < ws.len() - 1 {
                assert(ws.drop_last()[i].key@ == k);
            }
        }
    }
}

proof fn lemma_to_map_index(ws: Seq<AttemptWindow>, i: int)
    requires
        distinct_keys(ws),
        0 <= i < ws.len(),
    ensures
        to_map(ws).contains_key(ws[i].key@),
        to_map(ws)[ws[i].key@] == window_value(ws[i]),
    decreases ws.len(),
{
    if i < ws.len() - 1 {
        assert(distinct_keys(ws.drop_last()));
        lemma_to_map_index(ws.drop_last(), i);
        assert(ws.drop_last()[i] == ws[i]);
    }
}

proof fn lemma_to_map_update(ws: Seq<AttemptWindow>, i: int, w: AttemptWindow)
    requires
        distinct_keys(ws),
        0 <= i < ws.len(),
        w.key@ == ws[i].key@,
    ensures
        to_map(ws.update(i, w)) == to_map(ws).insert(w.key@, window_value(w)),
        distinct_keys(ws.update(i, w)),
    decreases ws.len(),
{
    let u = ws.update(i, w);
    if i == ws.len() - 1 {
        assert(u.drop_last() =~= ws.drop_last());
        lemma_to_map_dom(ws.drop_last(), w.key@);
        assert(to_map(u) =~= to_map(ws).insert(w.key@, window_value(w)));
    } else {
        assert(distinct_keys(ws.drop_last()));
        lemma_to_map_update(ws.drop_last(), i, w);
        assert(u.drop_last() =~= ws.drop_last().update(i, w));
        assert(u.last() == ws.last());
        assert(to_map(u) =~= to_map(ws).insert(w.key@, window_value(w)));
    }
}

proof fn lemma_take_step(ws: Seq<AttemptWindow>, j: int)
    requires
        0 <= j < ws.len(),
    ensures
        to_map(ws.take(j + 1)) == to_map(ws.take(j)).insert(ws[j].key@, window_value(ws[j])),
{
    assert(ws.take(j + 1).drop_last() =~= ws.take(j));
    assert(ws.take(j + 1).last() == ws[j]);
}

proof fn lemma_to_map_remove(ws: Seq<AttemptWindow>, i: int)
    requires
        distinct_keys(ws),
        0 <= i < ws.len(),
    ensures
        to_map(ws.remove(i)) == to_map(ws).remove(ws[i].key@),
        distinct_keys(ws.remove(i)),
    decreases ws.len(),
{
    let r = ws.remove(i);
    let k = ws[i].key@;
    assert forall|a: int, b: int| 0 <= a < b < r.len() implies r[a].key@ != r[b].key@ by {
        let a0 = if a < i { a } else { a + 1 };
        let b0 = if b < i { b } else { b + 1 };
        assert(r[a] == ws[a0]);
        assert(r[b] == ws[b0]);
    }
    if i == ws.len() - 1 {
        assert(r =~= ws.drop_last());
        lemma_to_map_dom(ws.drop_last(), k);
        assert(to_map(r) =~= to_map(ws).remove(k));
    } else {
        assert(distinct_keys(ws.drop_last()));
        lemma_to_map_remove(ws.drop_last(), i);
        assert(r.drop_last() =~= ws.drop_last().remove(i));
        assert(r.last() == ws.last());
        assert(ws.last().key@ != k);
        assert(to_map(r) =~= to_map(ws).remove(k));
    }
}

/// Counts security-sensitive attempts per operation and source, and refuses
/// a source that has used up its attempts within the operation's window.
pub struct SecurityRateLimiter {
    clock: MonotonicClock,
    windows: Vec<AttemptWindow>,
}

impl View for SecurityRateLimiter {
    type V = Windows;

    closed spec fn view(&self) -> Windows {
        to_map(self.windows@)
    }
}

impl Default for SecurityRateLimiter {
    /// A limiter with no attempts counted yet.
    fn default() -> (r: Self)
        ensures
            r@ == Windows::empty(),
            r.inv(),
    {
        SecurityRateLimiter { clock: MonotonicClock::start(), windows: Vec::new() }
    }
}

impl SecurityRateLimiter {
    /// Well-formedness: one window per key.
    pub closed spec fn inv(&self) -> bool {
        distinct_keys(self.windows@)
    }

    /// Drops the windows that have closed at `now`.
    fn prune_windows(&mut self, now: u128, window: u128)
        requires
            old(self).inv(),
        ensures
            final(self).inv(),
            final(self)@ == prune(old(self)@, now, window),
            final(self).clock == old(self).clock,
    {
        let ghost ws = self.windows@;
        let mut kept: Vec<AttemptWindow> = Vec::new();
        let mut old_windows: Vec<AttemptWindow> = Vec::new();
        std::mem::swap(&mut old_windows, &mut self.windows);
        assert(old_windows@ == ws);
        let n = old_windows.len();
        let mut j: usize = 0;
        while j < n
            invariant
                n == old_windows@.len(),
                old_windows@ == ws,
                distinct_keys(ws),
                j <= n,
                distinct_keys(kept@),
                to_map(kept@) == prune(to_map(ws.take(j as int)), now, window),
            decreases n - j,
        {
            let w = &old_windows[j];
            proof {
                lemma_take_step(ws, j as int);
                lemma_to_map_dom(ws.take(j as int), ws[j as int].key@);
                lemma_to_map_dom(kept@, ws[j as int].key@);
                if exists|a: int| 0 <= a < j && ws.take(j as int)[a].key@ == ws[j as int].key@ {
                    let a = choose|a: int| 0 <= a < j && ws.take(j as int)[a].key@ == ws[j as int].key@;
                    assert(ws[a].key@ == ws[j as int].key@);
                }
            }
            let keep = if now >= w.started_at {
                now - w.started_at < window
            } else {
                0 < window
            };
            if keep {
                let copy = AttemptWindow { key: w.key.clone(), started_at: w.started_at, attempts: w.attempts };
                let ghost before = kept@;
                kept.push(copy);
                proof {
                    assert(kept@.drop_last() =~= before);
                    lemma_to_map_dom(before, ws[j as int].key@);
                    assert forall|a: int, b: int| 0 <= a < b < kept@.len() implies kept@[a].key@ != kept@[b].key@ by {
                        if b == kept@.len() - 1 {
                            assert(kept@.drop_last()[a] == kept@[a]);
                        }
                    }
                }
            }
            proof {
                let m = to_map(ws.take(j as int));
                let kj = ws[j as int].key@;
                assert(prune(m.insert(kj, window_value(ws[j as int])), now, window) =~= if keep {
                    prune(m, now, window).insert(kj, window_value(ws[j as int]))
                } else {
                    prune(m, now, window)
                });
            }
            j = j + 1;
        }
        assert(ws.take(n as int) =~= ws);
        self.windows = kept;
    }

    /// Finds the position of the window of `key`, if there is one.
    fn find(&self, key: &str) -> (r: Option<usize>)
        requires
            self.inv(),
        ensures
            match r {
                Some(i) => i < self.windows@.len() && self.windows@[i as int].key@ == key@,
                None => !self@.contains_key(key@),
            },
    {
        let n = self.windows.len();
        let mut i: usize = 0;
        while i < n
            invariant
                n == self.windows@.len(),
                i <= n,
                forall|a: int| 0 <= a < i ==> self.windows@[a].key@ != key@,
            decreases n - i,
        {
            if same_text(self.windows[i].key.as_str(), key) {
                return Some(i);
            }
            i = i + 1;
        }
        proof {
            lemma_to_map_dom(self.windows@, key@);
        }
        None
    }

    /// Counts one attempt of `operation` from `source` at `now`
    /// (nanoseconds on the limiter's clock), or refuses it when the source has
    /// used up its attempts in the current window.
    pub fn check_at(&mut self, operation: &str, source: &str, now: u128) -> (r: AppResult<()>)
        requires
            old(self).inv(),
        ensures
            final(self).inv(),
            check_outcome(old(self)@, final(self)@, operation@, source@, now, r),
    {
        let (maximum, window) = policy(operation);
        let key = join_colon(operation, source);
        self.prune_windows(now, window);
        let ghost p = self@;
        let idx = match self.find(key.as_str()) {
            Some(i) => {
                proof {
                    lemma_to_map_index(self.windows@, i as int);
                }
                i
            },
            None => {
                proof {
                    lemma_to_map_dom(self.windows@, key@);
                }
                let fresh = AttemptWindow { key: key.clone(), started_at: now, attempts: 0 };
                let ghost before = self.windows@;
                self.windows.push(fresh);
                proof {
                    let ws = self.windows@;
                    assert(ws.drop_last() =~= before);
                    assert forall|a: int, b: int| 0 <= a < b < ws.len() implies ws[a].key@ != ws[b].key@ by {
                        if b == ws.len() - 1 {
                            assert(ws.drop_last()[a] == ws[a]);
                        }
                    }
                    lemma_to_map_index(ws, ws.len() - 1);
                }
                self.windows.len() - 1
            },
        };
        let ghost wsp = self.windows@;
        assert(to_map(wsp).contains_key(key@));
        let started_at = self.windows[idx].started_at;
        let attempts = self.windows[idx].attempts;
        proof {
            lemma_to_map_index(wsp, idx as int);
        }
        let expired = if now >= started_at {
            now - started_at >= window
        } else {
            0 >= window
        };
        let (started_at, attempts) = if expired {
            (now, 0usize)
        } else {
            (started_at, attempts)
        };
        if attempts >= maximum {
            let updated = AttemptWindow { key: key.clone(), started_at, attempts };
            proof {
                lemma_to_map_update(wsp, idx as int, updated);
            }
            self.windows.set(idx, updated);
            let message = String::from_str("安全操作尝试过于频繁，请稍后再试");
            return Err(AppError::RateLimited(message));
        }
        let updated = AttemptWindow { key, started_at, attempts: attempts + 1 };
        proof {
            lemma_to_map_update(wsp, idx as int, updated);
        }
        self.windows.set(idx, updated);
        proof {
            let w = current_window(p, key@, now, window);
            assert(w == (started_at, attempts));
            assert(self@ == p.insert(key@, (w.0, (w.1 + 1) as usize)));
        }
        Ok(())
    }
}

impl SecurityRateLimiter {
    /// Counts one attempt of `operation` from `source` at the current time, or
    /// refuses it when the source has used up its attempts in the current
    /// window.
    pub fn check(&mut self, operation: &str, source: &str) -> (r: AppResult<()>)
        requires
            old(self).inv(),
        ensures
            final(self).inv(),
            exists|now: u128| check_outcome(old(self)@, final(self)@, operation@, source@, now, r),
    {
        let now = self.clock.now_nanos();
        let r = self.check_at(operation, source, now);
        assert(check_outcome(old(self)@, self@, operation@, source@, now, r));
        r
    }

    /// Forgets the attempts of `operation` from `source`.
    pub fn clear(&mut self, operation: &str, source: &str)
        requires
            old(self).inv(),
        ensures
            final(self).inv(),
            final(self)@ == old(self)@.remove(rate_key(operation@, source@)),
    {
        let key = join_colon(operation, source);
        match self.find(key.as_str()) {
            Some(i) => {
                proof {
                    lemma_to_map_remove(self.windows@, i as int);
                }
                self.windows.remove(i);
            },
            None => {
                assert(self@.remove(key@) =~= self@);
            },
        }
    }
}

/// Law: a source with no window yet is allowed its first attempt, and its new
/// window starts at that attempt with one attempt counted.
pub proof fn law_first_attempt_is_allowed(
    old: Windows,
    new: Windows,
    operation: Seq<char>,
    source: Seq<char>,
    now: u128,
    r: AppResult<()>,
)
    requires
        check_outcome(old, new, operation, source, now, r),
        !old.contains_key(rate_key(operation, source)),
    ensures
        r is Ok,
        new.contains_key(rate_key(operation, source)),
        new[rate_key(operation, source)] == (now, 1usize),
{
}

/// Law: checking one operation and source leaves the window of every other
/// key as it was, except that windows which have closed are dropped.
pub proof fn law_other_sources_are_isolated(
    old: Windows,
    new: Windows,
    operation: Seq<char>,
    source: Seq<char>,
    now: u128,
    r: AppResult<()>,
    other: Seq<char>,
)
    requires
        check_outcome(old, new, operation, source, now, r),
        other != rate_key(operation, source),
    ensures
        new.contains_key(other) <==> (old.contains_key(other) && elapsed(now, old[other].0)
            < spec_policy(operation).1),
        new.contains_key(other) ==> new[other] == old[other],
{
}

/// Law: a check is refused exactly when the key's open window already counts
/// the full number of attempts; an allowed check counts one more attempt in
/// the same window.
pub proof fn law_refused_exactly_at_limit(
    old: Windows,
    new: Windows,
    operation: Seq<char>,
    source: Seq<char>,
    now: u128,
    r: AppResult<()>,
)
    requires
        check_outcome(old, new, operation, source, now, r),
    ensures
        ({
            let k = rate_key(operation, source);
            let open = old.contains_key(k) && elapsed(now, old[k].0) < spec_policy(operation).1;
            &&& r is Err <==> (open && old[k].1 >= ATTEMPT_LIMIT)
            &&& (r is Ok && open) ==> new[k] == (old[k].0, (old[k].1 + 1) as usize)
            &&& (r is Ok && !open) ==> new[k] == (now, 1usize)
        }),
{
}

/// Law: no window ever counts more attempts than the limit.
pub proof fn law_attempts_stay_within_limit(
    old: Windows,
    new: Windows,
    operation: Seq<char>,
    source: Seq<char>,
    now: u128,
    r: AppResult<()>,
)
    requires
        check_outcome(old, new, operation, source, now, r),
        forall|k: Seq<char>| old.contains_key(k) ==> #[trigger] old[k].1 <= ATTEMPT_LIMIT,
    ensures
        forall|k: Seq<char>| new.contains_key(k) ==> #[trigger] new[k].1 <= ATTEMPT_LIMIT,
{
    let k0 = rate_key(operation, source);
    assert forall|k: Seq<char>| new.contains_key(k) implies #[trigger] new[k].1 <= ATTEMPT_LIMIT by {
        if k != k0 {
            assert(old.contains_key(k));
        }
    }
}

/// Law: once the attempts of a source are cleared, its next check is allowed.
pub proof fn law_clear_allows_next_attempt(
    old: Windows,
    new: Windows,
    operation: Seq<char>,
    source: Seq<char>,
    now: u128,
    r: AppResult<()>,
)
    requires
        check_outcome(old.remove(rate_key(operation, source)), new, operation, source, now, r),
    ensures
        r is Ok,
{
}

/// Law: one source's attempts at an operation are counted in a window of
/// ten minutes for pairing and fifteen minutes for every other operation
/// (password resets and sign-ins among them): starting from no window for
/// that source, six checks all made within that span of the first one,
/// with time not going back, allow the first five and refuse the sixth.
pub proof fn law_sixth_attempt_within_window_is_refused(
    windows: Seq<Windows>,
    results: Seq<AppResult<()>>,
    times: Seq<u128>,
    operation: Seq<char>,
    source: Seq<char>,
)
    requires
        windows.len() == 7,
        results.len() == 6,
        times.len() == 6,
        !windows[0].contains_key(rate_key(operation, source)),
        forall|i: int|
            0 <= i < 6 ==> check_outcome(
                #[trigger] windows[i],
                windows[i + 1],
                operation,
                source,
                times[i],
                results[i],
            ),
        forall|i: int| 0 <= i < 5 ==> #[trigger] times[i] <= times[i + 1],
        times[5] - times[0] < if operation == "pair"@ {
            600_000_000_000int
        } else {
            900_000_000_000int
        },
    ensures
        forall|i: int| 0 <= i < 5 ==> #[trigger] results[i] is Ok,
        results[5] matches Err(e) && e matches AppError::RateLimited(m) && m@
            == "安全操作尝试过于频繁，请稍后再试"@,
{
    reveal_strlit("pair");
    reveal_strlit("password-reset");
    reveal_strlit("安全操作尝试过于频繁，请稍后再试");
    let k = rate_key(operation, source);
    let window = spec_policy(operation).1;
    assert(window == if operation == "pair"@ { 600_000_000_000int } else { 900_000_000_000int });
    assert(check_outcome(windows[0], windows[1], operation, source, times[0], results[0]));
    assert(windows[1][k] == (times[0], 1usize));
    assert(times[0] <= times[1]);
    assert(check_outcome(windows[1], windows[2], operation, source, times[1], results[1]));
    assert(windows[2][k] == (times[0], 2usize));
    assert(times[1] <= times[2]);
    assert(check_outcome(windows[2], windows[3], operation, source, times[2], results[2]));
    assert(windows[3][k] == (times[0], 3usize));
    assert(times[2] <= times[3]);
    assert(check_outcome(windows[3], windows[4], operation, source, times[3], results[3]));
    assert(windows[4][k] == (times[0], 4usize));
    assert(times[3] <= times[4]);
    assert(check_outcome(windows[4], windows[5], operation, source, times[4], results[4]));
    assert(windows[5][k] == (times[0], 5usize));
    assert(times[4] <= times[5]);
    assert(check_outcome(windows[5], windows[6], operation, source, times[5], results[5]));
    assert(results[0] is Ok);
    assert(results[1] is Ok);
    assert(results[2] is Ok);
    assert(results[3] is Ok);
    assert(results[4] is Ok);
}

/// Law: a window lasts no longer than its span (ten minutes for pairing,
/// fifteen for every other operation): a check made that long or longer
/// after the source's window started is allowed whatever the window
/// counted, and starts a new window at that check.
pub proof fn law_window_reopens_after_its_span(
    old: Windows,
    new: Windows,
    operation: Seq<char>,
    source: Seq<char>,
    now: u128,
    r: AppResult<()>,
)
    requires
        check_outcome(old, new, operation, source, now, r),
        old.contains_key(rate_key(operation, source)),
        old[rate_key(operation, source)].0 <= now,
        now - old[rate_key(operation, source)].0 >= if operation == "pair"@ {
            600_000_000_000int
        } else {
            900_000_000_000int
        },
    ensures
        r is Ok,
        new[rate_key(operation, source)] == (now, 1usize),
{
    reveal_strlit("pair");
    reveal_strlit("password-reset");
}

fn policy(operation: &str) -> (r: (usize, u128))
    ensures
        r == spec_policy(operation@),
{
    proof {
        reveal_strlit("pair");
        reveal_strlit("password-reset");
    }
    if same_text(operation, "pair") {
        (5, PAIR_WINDOW_NANOS)
    } else if same_text(operation, "password-reset") {
        (5, DEFAULT_WINDOW_NANOS)
    } else {
        (5, DEFAULT_WINDOW_NANOS)
    }
}

} // verus!
