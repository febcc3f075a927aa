use vstd::prelude::*;
use vstd::string::*;

use crate::text::{
    contains_char, decimal, is_white_space, lemma_split_once_shorter, same_text, spec_decimal,
    spec_split_once, spec_starts_with, spec_trim, split_once, starts_with, trim, trim_start,
    trim_start_str,
};

verus! {

/// A proxy that the settings page offers.
pub struct ProxyCandidate {
    pub label: String,
    pub url: String,
}

impl View for ProxyCandidate {
    type V = (Seq<char>, Seq<char>);

    open spec fn view(&self) -> (Seq<char>, Seq<char>) {
        (self.label@, self.url@)
    }
}

/// The views of a list of candidates.
pub open spec fn views(c: Seq<ProxyCandidate>) -> Seq<(Seq<char>, Seq<char>)> {
    c.map_values(|x: ProxyCandidate| x@)
}

/// A proxy address as offered: trimmed, and given `http://` when it names no
/// supported scheme; empty when blank.
pub open spec fn spec_normalize_proxy_url(value: Seq<char>) -> Seq<char> {
    let t = spec_trim(value);
    if t.len() == 0 {
        Seq::empty()
    } else if spec_starts_with(t, "http://"@) || spec_starts_with(t, "https://"@) || spec_starts_with(
        t,
        "socks5://"@,
    ) || spec_starts_with(t, "socks5h://"@) {
        t
    } else {
        "http://"@ + t
    }
}

/// Normalizes a proxy address.
pub fn normalize_proxy_url(value: &str) -> (r: String)
    ensures
        r@ == spec_normalize_proxy_url(value@),
{
    let trimmed = trim(value);
    if trimmed.is_empty() {
        return String::new();
    }
    if starts_with(trimmed, "http://") || starts_with(trimmed, "https://") || starts_with(
        trimmed,
        "socks5://",
    ) || starts_with(trimmed, "socks5h://") {
        return String::from_str(trimmed);
    }
    String::from_str("http://").concat(trimmed)
}

/// `candidates` after offering `url` under `label`: a blank address is
/// skipped.
pub open spec fn spec_push(
    candidates: Seq<(Seq<char>, Seq<char>)>,
    label: Seq<char>,
    url: Seq<char>,
) -> Seq<(Seq<char>, Seq<char>)> {
    if spec_normalize_proxy_url(url).len() == 0 {
        candidates
    } else {
        candidates.push((label, spec_normalize_proxy_url(url)))
    }
}

/// Offers `url` under `label`.
pub fn push_proxy_candidate(candidates: &mut Vec<ProxyCandidate>, label: &str, url: &str)
    ensures
        views(final(candidates)@) == spec_push(views(old(candidates)@), label@, url@),
{
    let normalized = normalize_proxy_url(url);
    if normalized.as_str().is_empty() {
        return;
    }
    candidates.push(ProxyCandidate { label: String::from_str(label), url: normalized });
    assert(views(candidates@) =~= spec_push(views(old(candidates)@), label@, url@));
}

/// `candidates` after offering every `(label, address)` pair in order.
pub open spec fn spec_push_all(
    candidates: Seq<(Seq<char>, Seq<char>)>,
    pairs: Seq<(Seq<char>, Seq<char>)>,
) -> Seq<(Seq<char>, Seq<char>)>
    decreases pairs.len(),
{
    if pairs.len() == 0 {
        candidates
    } else {
        spec_push(spec_push_all(candidates, pairs.drop_last()), pairs.last().0, pairs.last().1)
    }
}

/// The views of a list of string pairs.
pub open spec fn pair_views(pairs: Seq<(String, String)>) -> Seq<(Seq<char>, Seq<char>)> {
    pairs.map_values(|p: (String, String)| (p.0@, p.1@))
}

/// Offers every `(label, address)` pair in order.
pub fn push_all(candidates: &mut Vec<ProxyCandidate>, pairs: &Vec<(String, String)>)
    ensures
        views(final(candidates)@) == spec_push_all(views(old(candidates)@), pair_views(pairs@)),
{
    let n = pairs.len();
    let mut i: usize = 0;
    while i < n
        invariant
            n == pairs@.len(),
            i <= n,
            views(candidates@) == spec_push_all(views(old(candidates)@), pair_views(pairs@.take(i as int))),
        decreases n - i,
    {
        assert(pair_views(pairs@.take(i + 1)).drop_last() =~= pair_views(pairs@.take(i as int)));
        push_proxy_candidate(candidates, pairs[i].0.as_str(), pairs[i].1.as_str());
        i = i + 1;
    }
    assert(pairs@.take(n as int) =~= pairs@);
}

/// The local proxy ports commonly used by proxy clients, in the order they
/// are offered.
pub open spec fn common_ports() -> Seq<u64> {
    seq![7897u64, 7890u64, 7899u64, 1080u64, 10808u64, 20171u64]
}

/// The candidates offered for the common local proxy ports.
pub open spec fn common_local_candidates() -> Seq<(Seq<char>, Seq<char>)> {
    common_ports().map_values(|p: u64| ("常见本地代理"@, "http://127.0.0.1:"@ + spec_decimal(p as nat)))
}

fn push_local_port(candidates: &mut Vec<ProxyCandidate>, port: u64)
    ensures
        views(final(candidates)@) == views(old(candidates)@).push(
            ("常见本地代理"@, "http://127.0.0.1:"@ + spec_decimal(port as nat)),
        ),
{
    let url = String::from_str("http://127.0.0.1:").concat(decimal(port).as_str());
    proof {
        reveal_strlit("http://127.0.0.1:");
        reveal_strlit("http://");
        let t = url@;
        assert(spec_decimal(port as nat).len() > 0) by {
            lemma_decimal_nonempty(port as nat);
        }
        assert(spec_trim(t) == t) by {
            lemma_trim_url(t, port as nat);
        }
        assert(t.take(7) =~= "http://"@);
    }
    push_proxy_candidate(candidates, "常见本地代理", url.as_str());
}

proof fn lemma_decimal_nonempty(n: nat)
    ensures
        spec_decimal(n).len() > 0,
    decreases n,
{
    if n >= 10 {
        lemma_decimal_nonempty(n / 10);
    }
}

proof fn lemma_decimal_digits(n: nat)
    ensures
        forall|i: int| 0 <= i < spec_decimal(n).len() ==> '0' <= #[trigger] spec_decimal(n)[i] <= '9',
    decreases n,
{
    if n < 10 {
        assert(spec_decimal(n) == seq![crate::text::digit_char(n)]);
    } else {
        lemma_decimal_digits(n / 10);
        let prev = spec_decimal(n / 10);
        let d = n % 10;
        assert(spec_decimal(n) == prev.push(crate::text::digit_char(d)));
        assert(d < 10);
        assert forall|i: int| 0 <= i < spec_decimal(n).len() implies '0' <= #[trigger] spec_decimal(
            n,
        )[i] <= '9' by {
            if i < prev.len() {
                assert(spec_decimal(n)[i] == prev[i]);
            }
        }
    }
}

proof fn lemma_trim_url(t: Seq<char>, port: nat)
    requires
        t == "http://127.0.0.1:"@ + spec_decimal(port),
    ensures
        spec_trim(t) == t,
{
    reveal_strlit("http://127.0.0.1:");
    lemma_decimal_nonempty(port);
    lemma_decimal_digits(port);
    assert(t[0] == 'h');
    assert(!crate::text::is_white_space(t[0]));
    assert(crate::text::trim_start(t) == t);
    let last = t.last();
    assert(last == spec_decimal(port)[spec_decimal(port).len() - 1]);
    assert(!crate::text::is_white_space(last));
    assert(crate::text::trim_end(t) == t);
}

/// Offers the common local proxy ports.
pub fn push_common_local_proxy_candidates(candidates: &mut Vec<ProxyCandidate>)
    ensures
        views(final(candidates)@) == views(old(candidates)@) + common_local_candidates(),
{
    push_local_port(candidates, 7897);
    push_local_port(candidates, 7890);
    push_local_port(candidates, 7899);
    push_local_port(candidates, 1080);
    push_local_port(candidates, 10808);
    push_local_port(candidates, 20171);
    assert(views(candidates@) =~= views(old(candidates)@) + common_local_candidates());
}

/// `candidates` with every candidate whose address came before dropped.
pub open spec fn spec_dedupe(c: Seq<(Seq<char>, Seq<char>)>) -> Seq<(Seq<char>, Seq<char>)>
    decreases c.len(),
{
    if c.len() == 0 {
        c
    } else {
        let d = spec_dedupe(c.drop_last());
        if exists|i: int| 0 <= i < d.len() && d[i].1 == c.last().1 {
            d
        } else {
            d.push(c.last())
        }
    }
}

/// No address comes twice in `c`.
pub open spec fn addresses_distinct(c: Seq<(Seq<char>, Seq<char>)>) -> bool {
    forall|i: int, j: int| 0 <= i < j < c.len() ==> #[trigger] c[i].1 != #[trigger] c[j].1
}

/// `url` is the address of a candidate in `c`.
pub open spec fn has_address(c: Seq<(Seq<char>, Seq<char>)>, url: Seq<char>) -> bool {
    exists|j: int| 0 <= j < c.len() && #[trigger] c[j].1 == url
}

/// `x` is one of the candidates of `c`.
pub open spec fn has_candidate(c: Seq<(Seq<char>, Seq<char>)>, x: (Seq<char>, Seq<char>)) -> bool {
    exists|i: int| 0 <= i < c.len() && #[trigger] c[i] == x
}

proof fn lemma_dedupe_distinct(c: Seq<(Seq<char>, Seq<char>)>)
    ensures
        addresses_distinct(spec_dedupe(c)),
    decreases c.len(),
{
    if c.len() > 0 {
        let d = spec_dedupe(c.drop_last());
        lemma_dedupe_distinct(c.drop_last());
        if !(exists|i: int| 0 <= i < d.len() && d[i].1 == c.last().1) {
            let e = d.push(c.last());
            assert forall|i: int, j: int| 0 <= i < j < e.len() implies #[trigger] e[i].1 != #[trigger] e[j].1 by {
                assert(e[i] == d[i]);
                if j < d.len() {
                    assert(e[j] == d[j]);
                }
            }
        }
    }
}

proof fn lemma_dedupe_covers(c: Seq<(Seq<char>, Seq<char>)>)
    ensures
        forall|i: int| 0 <= i < c.len() ==> has_address(spec_dedupe(c), #[trigger] c[i].1),
    decreases c.len(),
{
    if c.len() > 0 {
        let p = c.drop_last();
        let d = spec_dedupe(p);
        lemma_dedupe_covers(p);
        let e = spec_dedupe(c);
        assert forall|i: int| 0 <= i < c.len() implies has_address(e, #[trigger] c[i].1) by {
            if exists|k: int| 0 <= k < d.len() && d[k].1 == c.last().1 {
                if i < p.len() {
                    assert(p[i] == c[i]);
                    assert(has_address(d, p[i].1));
                } else {
                    let k = choose|k: int| 0 <= k < d.len() && d[k].1 == c.last().1;
                    assert(e[k].1 == c[i].1);
                }
            } else {
                if i < p.len() {
                    assert(p[i] == c[i]);
                    assert(has_address(d, p[i].1));
                    let k = choose|k: int| 0 <= k < d.len() && #[trigger] d[k].1 == p[i].1;
                    assert(e[k] == d[k]);
                } else {
                    assert(e[d.len() as int] == c.last());
                }
            }
        }
    }
}

proof fn lemma_dedupe_subset(c: Seq<(Seq<char>, Seq<char>)>)
    ensures
        forall|j: int| 0 <= j < spec_dedupe(c).len() ==> has_candidate(c, #[trigger] spec_dedupe(c)[j]),
    decreases c.len(),
{
    if c.len() > 0 {
        let p = c.drop_last();
        let d = spec_dedupe(p);
        lemma_dedupe_subset(p);
        let e = spec_dedupe(c);
        assert forall|j: int| 0 <= j < e.len() implies has_candidate(c, #[trigger] e[j]) by {
            if j < d.len() {
                assert(e[j] == d[j]);
                assert(has_candidate(p, d[j]));
                let i = choose|i: int| 0 <= i < p.len() && #[trigger] p[i] == d[j];
                assert(c[i] == p[i]);
            } else {
                assert(e[j] == c[c.len() - 1]);
            }
        }
    }
}

/// Every address comes once in the deduplicated list, each address of the
/// list given is kept, and only candidates of the list given are kept.
pub proof fn law_dedupe_keeps_each_address_once(c: Seq<(Seq<char>, Seq<char>)>)
    ensures
        addresses_distinct(spec_dedupe(c)),
        forall|i: int| 0 <= i < c.len() ==> has_address(spec_dedupe(c), #[trigger] c[i].1),
        forall|j: int| 0 <= j < spec_dedupe(c).len() ==> has_candidate(c, #[trigger] spec_dedupe(c)[j]),
{
    lemma_dedupe_distinct(c);
    lemma_dedupe_covers(c);
    lemma_dedupe_subset(c);
}

fn has_url(candidates: &Vec<ProxyCandidate>, url: &str) -> (r: bool)
    ensures
        r == exists|i: int| 0 <= i < candidates@.len() && candidates@[i].url@ == url@,
{
    let n = candidates.len();
    let mut i: usize = 0;
    while i < n
        invariant
            n == candidates@.len(),
            i <= n,
            forall|a: int| 0 <= a < i ==> candidates@[a].url@ != url@,
        decreases n - i,
    {
        if same_text(candidates[i].url.as_str(), url) {
            return true;
        }
        i = i + 1;
    }
    false
}

/// Keeps the first candidate of every address, in order.
pub fn dedupe_proxy_candidates(candidates: Vec<ProxyCandidate>) -> (r: Vec<ProxyCandidate>)
    ensures
        views(r@) == spec_dedupe(views(candidates@)),
{
    let ghost all = candidates@;
    let mut rest = candidates;
    let mut out: Vec<ProxyCandidate> = Vec::new();
    let n = rest.len();
    let mut i: usize = 0;
    while i < n
        invariant
            n == all.len(),
            i <= n,
            rest@ == all.skip(i as int),
            views(out@) == spec_dedupe(views(all.take(i as int))),
        decreases n - i,
    {
        let c = rest.remove(0);
        assert(c == all[i as int]);
        assert(rest@ =~= all.skip(i + 1));
        assert(views(all.take(i + 1)).drop_last() =~= views(all.take(i as int)));
        assert(views(all.take(i + 1)).last() == c@);
        if !has_url(&out, c.url.as_str()) {
            proof {
                let d = views(out@);
                assert(!exists|a: int| 0 <= a < d.len() && d[a].1 == c@.1) by {
                    if exists|a: int| 0 <= a < d.len() && d[a].1 == c@.1 {
                        let a = choose|a: int| 0 <= a < d.len() && d[a].1 == c@.1;
                        assert(out@[a].url@ == c.url@);
                    }
                }
            }
            let ghost before = out@;
            out.push(c);
            assert(views(out@) =~= views(before).push(c@));
        } else {
            proof {
                let a = choose|a: int| 0 <= a < out@.len() && out@[a].url@ == c.url@;
                assert(views(out@)[a].1 == c@.1);
            }
        }
        i = i + 1;
    }
    assert(all.take(n as int) =~= all);
    out
}

/// `line` without one trailing carriage return.
pub open spec fn strip_cr(line: Seq<char>) -> Seq<char> {
    if line.len() > 0 && line.last() == '\r' {
        line.drop_last()
    } else {
        line
    }
}

/// The first line of `text` (lines as `str::lines` yields them: cut at
/// `'\n'`, without the `'\r'` of a `"\r\n"` ending) whose text after its
/// leading white space begins with `key`.
pub open spec fn spec_key_line(text: Seq<char>, key: Seq<char>) -> Option<Seq<char>>
    decreases text.len(),
{
    if text.len() == 0 {
        None
    } else {
        match spec_split_once(text, '\n') {
            Some(parts) => {
                let line = strip_cr(parts.0);
                if spec_starts_with(trim_start(line), key) {
                    Some(line)
                } else {
                    proof {
                        lemma_split_once_shorter(text, '\n');
                    }
                    spec_key_line(parts.1, key)
                }
            },
            None => if spec_starts_with(trim_start(text), key) {
                Some(text)
            } else {
                None
            },
        }
    }
}

/// The second `':'`-separated field of `line`, as `split(':').nth(1)`
/// gives it; empty when the line holds no `':'`.
pub open spec fn spec_second_field(line: Seq<char>) -> Seq<char> {
    match spec_split_once(line, ':') {
        None => Seq::empty(),
        Some(parts) => match spec_split_once(parts.1, ':') {
            None => parts.1,
            Some(inner) => inner.0,
        },
    }
}

/// The value that `scutil --proxy` prints for `key`: the trimmed second
/// field of its line, empty when there is none.
pub open spec fn spec_proxy_value(text: Seq<char>, key: Seq<char>) -> Seq<char> {
    match spec_key_line(text, key) {
        None => Seq::empty(),
        Some(line) => spec_trim(spec_second_field(line)),
    }
}

/// Whether `scutil --proxy` reports `key` as `1`.
pub open spec fn spec_proxy_flag(text: Seq<char>, key: Seq<char>) -> bool {
    spec_proxy_value(text, key) == "1"@
}

fn strip_cr_exec(line: &str) -> (r: &str)
    ensures
        r@ == strip_cr(line@),
{
    let n = line.unicode_len();
    if n > 0 && line.get_char(n - 1) == '\r' {
        let r = line.substring_char(0, n - 1);
        assert(r@ =~= line@.drop_last());
        r
    } else {
        line
    }
}

fn key_line<'a>(text: &'a str, key: &str) -> (r: Option<&'a str>)
    ensures
        match r {
            Some(l) => spec_key_line(text@, key@) == Some(l@),
            None => spec_key_line(text@, key@) is None,
        },
{
    let mut rest = text;
    loop
        invariant
            spec_key_line(rest@, key@) == spec_key_line(text@, key@),
        decreases rest@.len(),
    {
        if rest.is_empty() {
            return None;
        }
        match split_once(rest, '\n') {
            Some((head, tail)) => {
                let line = strip_cr_exec(head);
                if starts_with(trim_start_str(line), key) {
                    return Some(line);
                }
                proof {
                    lemma_split_once_shorter(rest@, '\n');
                }
                rest = tail;
            },
            None => {
                if starts_with(trim_start_str(rest), key) {
                    return Some(rest);
                }
                return None;
            },
        }
    }
}

fn second_field(line: &str) -> (r: &str)
    ensures
        r@ == spec_second_field(line@),
{
    match split_once(line, ':') {
        None => {
            proof {
                reveal_strlit("");
            }
            ""
        },
        Some((_, after)) => match split_once(after, ':') {
            None => after,
            Some((inner, _)) => inner,
        },
    }
}

/// The value that `scutil --proxy` prints for `key`.
pub fn proxy_value(text: &str, key: &str) -> (r: String)
    ensures
        r@ == spec_proxy_value(text@, key@),
{
    match key_line(text, key) {
        None => String::new(),
        Some(line) => String::from_str(trim(second_field(line))),
    }
}

/// Whether `scutil --proxy` reports `key` as `1`.
pub fn proxy_flag(text: &str, key: &str) -> (r: bool)
    ensures
        r == spec_proxy_flag(text@, key@),
{
    let value = proxy_value(text, key);
    same_text(value.as_str(), "1")
}

/// The proxy of one kind that `scutil --proxy` reports: offered when it is
/// enabled and names a host and a port.
pub open spec fn spec_mac_entry(
    text: Seq<char>,
    enable: Seq<char>,
    host_key: Seq<char>,
    port_key: Seq<char>,
    label: Seq<char>,
    scheme: Seq<char>,
) -> Seq<(Seq<char>, Seq<char>)> {
    let host = spec_proxy_value(text, host_key);
    let port = spec_proxy_value(text, port_key);
    if spec_proxy_flag(text, enable) && host.len() > 0 && port.len() > 0 {
        seq![(label, scheme + host + ":"@ + port)]
    } else {
        Seq::empty()
    }
}

/// The proxies that `scutil --proxy` reports, HTTPS, HTTP and SOCKS in
/// that order.
pub open spec fn spec_mac_pairs(text: Seq<char>) -> Seq<(Seq<char>, Seq<char>)> {
    spec_mac_entry(text, "HTTPSEnable"@, "HTTPSProxy"@, "HTTPSPort"@, "macOS HTTPS 系统代理"@, "http://"@)
        + spec_mac_entry(text, "HTTPEnable"@, "HTTPProxy"@, "HTTPPort"@, "macOS HTTP 系统代理"@, "http://"@)
        + spec_mac_entry(text, "SOCKSEnable"@, "SOCKSProxy"@, "SOCKSPort"@, "macOS SOCKS 系统代理"@, "socks5://"@)
}

fn push_mac_entry(
    pairs: &mut Vec<(String, String)>,
    text: &str,
    enable: &str,
    host_key: &str,
    port_key: &str,
    label: &str,
    scheme: &str,
)
    ensures
        pair_views(final(pairs)@) == pair_views(old(pairs)@) + spec_mac_entry(
            text@,
            enable@,
            host_key@,
            port_key@,
            label@,
            scheme@,
        ),
{
    let enabled = proxy_flag(text, enable);
    let host = proxy_value(text, host_key);
    let port = proxy_value(text, port_key);
    if enabled && !host.as_str().is_empty() && !port.as_str().is_empty() {
        let url = String::from_str(scheme).concat(host.as_str()).concat(":").concat(port.as_str());
        pairs.push((String::from_str(label), url));
        assert(pair_views(pairs@) =~= pair_views(old(pairs)@) + spec_mac_entry(
            text@,
            enable@,
            host_key@,
            port_key@,
            label@,
            scheme@,
        ));
    } else {
        assert(pair_views(pairs@) =~= pair_views(old(pairs)@) + spec_mac_entry(
            text@,
            enable@,
            host_key@,
            port_key@,
            label@,
            scheme@,
        ));
    }
}

/// The proxies that `scutil --proxy` reports, as `(label, address)`.
pub fn mac_proxy_pairs(text: &str) -> (r: Vec<(String, String)>)
    ensures
        pair_views(r@) == spec_mac_pairs(text@),
{
    let mut pairs: Vec<(String, String)> = Vec::new();
    assert(pair_views(pairs@) =~= Seq::empty());
    push_mac_entry(&mut pairs, text, "HTTPSEnable", "HTTPSProxy", "HTTPSPort", "macOS HTTPS 系统代理", "http://");
    push_mac_entry(&mut pairs, text, "HTTPEnable", "HTTPProxy", "HTTPPort", "macOS HTTP 系统代理", "http://");
    push_mac_entry(&mut pairs, text, "SOCKSEnable", "SOCKSProxy", "SOCKSPort", "macOS SOCKS 系统代理", "socks5://");
    assert(pair_views(pairs@) =~= spec_mac_pairs(text@));
    pairs
}

/// The tokens found so far in a left-to-right scan of `s`, and the token
/// being read.
pub open spec fn scan_tokens(s: Seq<char>) -> (Seq<Seq<char>>, Seq<char>)
    decreases s.len(),
{
    if s.len() == 0 {
        (Seq::empty(), Seq::empty())
    } else {
        let (done, current) = scan_tokens(s.drop_last());
        if is_white_space(s.last()) {
            if current.len() > 0 {
                (done.push(current), Seq::empty())
            } else {
                (done, Seq::empty())
            }
        } else {
            (done, current.push(s.last()))
        }
    }
}

/// The maximal runs of non-white-space characters of `s`, as
/// `str::split_whitespace` yields them.
pub open spec fn spec_split_whitespace(s: Seq<char>) -> Seq<Seq<char>> {
    let (done, current) = scan_tokens(s);
    if current.len() > 0 {
        done.push(current)
    } else {
        done
    }
}

/// Calls `char::is_whitespace`, true for the Unicode `White_Space`
/// characters; the contract states that set.
#[verifier::external_body]
fn is_whitespace_char(c: char) -> (r: bool)
    ensures
        r == is_white_space(c),
{
    c.is_whitespace()
}

/// The views of a list of strings.
pub open spec fn text_views(v: Seq<String>) -> Seq<Seq<char>> {
    v.map_values(|x: String| x@)
}

/// Splits `s` into its white-space-separated tokens.
pub fn split_whitespace(s: &str) -> (r: Vec<String>)
    ensures
        text_views(r@) == spec_split_whitespace(s@),
{
    let n = s.unicode_len();
    let mut done: Vec<String> = Vec::new();
    let mut start: usize = 0;
    let mut i: usize = 0;
    assert(text_views(done@) =~= Seq::empty());
    assert(s@.subrange(0, 0) =~= Seq::<char>::empty());
    while i < n
        invariant
            n == s@.len(),
            start <= i <= n,
            text_views(done@) == scan_tokens(s@.take(i as int)).0,
            s@.subrange(start as int, i as int) == scan_tokens(s@.take(i as int)).1,
        decreases n - i,
    {
        let c = s.get_char(i);
        proof {
            assert(s@.take(i + 1).drop_last() =~= s@.take(i as int));
            assert(s@.take(i + 1).last() == c);
        }
        if is_whitespace_char(c) {
            if start < i {
                let token = s.substring_char(start, i);
                done.push(String::from_str(token));
                assert(text_views(done@) =~= scan_tokens(s@.take(i + 1)).0);
            } else {
                assert(text_views(done@) =~= scan_tokens(s@.take(i + 1)).0);
            }
            start = i + 1;
            assert(s@.subrange(start as int, i + 1) =~= Seq::<char>::empty());
        } else {
            assert(s@.subrange(start as int, i + 1) =~= s@.subrange(start as int, i as int).push(c));
        }
        i = i + 1;
    }
    assert(s@.take(n as int) =~= s@);
    if start < n {
        let token = s.substring_char(start, n);
        done.push(String::from_str(token));
        assert(text_views(done@) =~= spec_split_whitespace(s@));
    } else {
        assert(text_views(done@) =~= spec_split_whitespace(s@));
    }
    done
}

/// Whether `c` is an ASCII digit.
pub open spec fn is_ascii_digit(c: char) -> bool {
    '0' <= c <= '9'
}

/// What `netsh winhttp show proxy` offers in one token: an `http=` or
/// `https=` entry, or a bare `host:port` that holds a digit and no `'\'`.
pub open spec fn spec_windows_pair(token: Seq<char>) -> Option<(Seq<char>, Seq<char>)> {
    if spec_starts_with(token, "http="@) {
        Some(("Windows WinHTTP HTTP 代理"@, token.skip(5)))
    } else if spec_starts_with(token, "https="@) {
        Some(("Windows WinHTTP HTTPS 代理"@, token.skip(6)))
    } else if token.contains(':') && !token.contains('\\') && exists|i: int|
        0 <= i < token.len() && is_ascii_digit(token[i]) {
        Some(("Windows WinHTTP 代理"@, token))
    } else {
        None
    }
}

/// What `netsh winhttp show proxy` offers, token by token.
pub open spec fn spec_windows_pairs(tokens: Seq<Seq<char>>) -> Seq<(Seq<char>, Seq<char>)>
    decreases tokens.len(),
{
    if tokens.len() == 0 {
        Seq::empty()
    } else {
        let before = spec_windows_pairs(tokens.drop_last());
        match spec_windows_pair(tokens.last()) {
            Some(p) => before.push(p),
            None => before,
        }
    }
}

fn has_ascii_digit(s: &str) -> (r: bool)
    ensures
        r == exists|i: int| 0 <= i < s@.len() && is_ascii_digit(s@[i]),
{
    let n = s.unicode_len();
    let mut i: usize = 0;
    while i < n
        invariant
            n == s@.len(),
            i <= n,
            forall|a: int| 0 <= a < i ==> !is_ascii_digit(s@[a]),
        decreases n - i,
    {
        let c = s.get_char(i);
        if '0' <= c && c <= '9' {
            return true;
        }
        i = i + 1;
    }
    false
}

fn windows_pair(token: &str) -> (r: Option<(String, String)>)
    ensures
        match r {
            Some(p) => spec_windows_pair(token@) == Some((p.0@, p.1@)),
            None => spec_windows_pair(token@) is None,
        },
{
    let n = token.unicode_len();
    if starts_with(token, "http=") {
        proof {
            reveal_strlit("http=");
        }
        let rest = token.substring_char(5, n);
        assert(rest@ =~= token@.skip(5));
        return Some((String::from_str("Windows WinHTTP HTTP 代理"), String::from_str(rest)));
    }
    if starts_with(token, "https=") {
        proof {
            reveal_strlit("https=");
        }
        let rest = token.substring_char(6, n);
        assert(rest@ =~= token@.skip(6));
        return Some((String::from_str("Windows WinHTTP HTTPS 代理"), String::from_str(rest)));
    }
    if contains_char(token, ':') && !contains_char(token, '\\') && has_ascii_digit(token) {
        return Some((String::from_str("Windows WinHTTP 代理"), String::from_str(token)));
    }
    None
}

/// The proxies that `netsh winhttp show proxy` reports, as
/// `(label, address)`.
pub fn windows_proxy_pairs(text: &str) -> (r: Vec<(String, String)>)
    ensures
        pair_views(r@) == spec_windows_pairs(spec_split_whitespace(text@)),
{
    let tokens = split_whitespace(text);
    let ghost ts = text_views(tokens@);
    let n = tokens.len();
    let mut pairs: Vec<(String, String)> = Vec::new();
    let mut i: usize = 0;
    assert(pair_views(pairs@) =~= spec_windows_pairs(ts.take(0)));
    while i < n
        invariant
            n == tokens@.len(),
            ts == text_views(tokens@),
            i <= n,
            pair_views(pairs@) == spec_windows_pairs(ts.take(i as int)),
        decreases n - i,
    {
        proof {
            assert(ts.take(i + 1).drop_last() =~= ts.take(i as int));
            assert(ts.take(i + 1).last() == tokens@[i as int]@);
        }
        match windows_pair(tokens[i].as_str()) {
            Some(p) => {
                let ghost before = pairs@;
                pairs.push(p);
                assert(pair_views(pairs@) =~= pair_views(before).push((p.0@, p.1@)));
            },
            None => {},
        }
        i = i + 1;
    }
    assert(ts.take(n as int) =~= ts);
    pairs
}

/// What the platform's proxy report printed, when it ran and succeeded.
pub enum PlatformProxyOutput {
    /// The output of `scutil --proxy` on macOS.
    MacScutil(String),
    /// The output of `netsh winhttp show proxy` on Windows.
    WindowsNetsh(String),
    /// No report: another platform, or the report failed.
    Unavailable,
}

/// The proxies that a platform report offers.
pub open spec fn spec_platform_pairs(output: PlatformProxyOutput) -> Seq<(Seq<char>, Seq<char>)> {
    match output {
        PlatformProxyOutput::MacScutil(text) => spec_mac_pairs(text@),
        PlatformProxyOutput::WindowsNetsh(text) => spec_windows_pairs(spec_split_whitespace(text@)),
        PlatformProxyOutput::Unavailable => Seq::empty(),
    }
}

/// Offers the proxies that the platform reports.
pub fn push_platform_proxy_candidates(candidates: &mut Vec<ProxyCandidate>, output: &PlatformProxyOutput)
    ensures
        views(final(candidates)@) == spec_push_all(views(old(candidates)@), spec_platform_pairs(*output)),
{
    let pairs = match output {
        PlatformProxyOutput::MacScutil(text) => mac_proxy_pairs(text.as_str()),
        PlatformProxyOutput::WindowsNetsh(text) => windows_proxy_pairs(text.as_str()),
        PlatformProxyOutput::Unavailable => {
            let v: Vec<(String, String)> = Vec::new();
            assert(pair_views(v@) =~= Seq::empty());
            v
        },
    };
    push_all(candidates, &pairs);
}

/// The candidates offered in the settings page: those of the environment,
/// then those that the platform reports, then the common local ports, each
/// address once, first come first kept.
pub fn get_system_proxy_candidates(env_pairs: &Vec<(String, String)>, platform: &PlatformProxyOutput) -> (r:
    Vec<ProxyCandidate>)
    ensures
        views(r@) == spec_dedupe(
            spec_push_all(spec_push_all(Seq::empty(), pair_views(env_pairs@)), spec_platform_pairs(*platform))
                + common_local_candidates(),
        ),
{
    let mut candidates: Vec<ProxyCandidate> = Vec::new();
    assert(views(candidates@) =~= Seq::empty());
    push_all(&mut candidates, env_pairs);
    push_platform_proxy_candidates(&mut candidates, platform);
    push_common_local_proxy_candidates(&mut candidates);
    dedupe_proxy_candidates(candidates)
}

} // verus!
