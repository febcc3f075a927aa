use vstd::prelude::*;
use vstd::string::*;

verus! {

/// Unicode `White_Space` characters, the ones that `char::is_whitespace`
/// accepts.
pub open spec fn is_white_space(c: char) -> bool {
    let v = c as u32;
    ||| 0x9 <= v <= 0xd
    ||| v == 0x20
    ||| v == 0x85
    ||| v == 0xa0
    ||| v == 0x1680
    ||| 0x2000 <= v <= 0x200a
    ||| v == 0x2028
    ||| v == 0x2029
    ||| v == 0x202f
    ||| v == 0x205f
    ||| v == 0x3000
}

/// `s` without its leading white space.
pub open spec fn trim_start(s: Seq<char>) -> Seq<char>
    decreases s.len(),
{
    if s.len() > 0 && is_white_space(s[0]) {
        trim_start(s.drop_first())
    } else {
        s
    }
}

/// `s` without its trailing white space.
pub open spec fn trim_end(s: Seq<char>) -> Seq<char>
    decreases s.len(),
{
    if s.len() > 0 && is_white_space(s.last()) {
        trim_end(s.drop_last())
    } else {
        s
    }
}

/// `s` without leading and trailing white space.
pub open spec fn spec_trim(s: Seq<char>) -> Seq<char> {
    trim_end(trim_start(s))
}

/// The Unicode lower-case mapping of a string, as `str::to_lowercase`
/// computes it.
pub uninterp spec fn spec_to_lowercase(s: Seq<char>) -> Seq<char>;

/// Calls `str::trim`, which removes the leading and trailing characters for
/// which `char::is_whitespace` holds; the contract states that behaviour.
#[verifier::external_body]
pub(crate) fn trim(s: &str) -> (r: &str)
    ensures
        r@ == spec_trim(s@),
{
    s.trim()
}

/// Calls `str::to_lowercase`; the result is named by `spec_to_lowercase`.
/// Each character is replaced by its lower-case mapping, one or more
/// characters, so the result is empty exactly when `s` is.
#[verifier::external_body]
pub(crate) fn to_lowercase(s: &str) -> (r: String)
    ensures
        r@ == spec_to_lowercase(s@),
        s@.len() <= r@.len(),
        s@.len() == 0 ==> r@.len() == 0,
{
    s.to_lowercase()
}

/// The trimmed text of an optional value, or `None` when nothing but white
/// space is left.
pub open spec fn spec_blank_to_none(value: Option<Seq<char>>) -> Option<Seq<char>> {
    match value {
        Some(text) => if spec_trim(text).len() == 0 {
            None
        } else {
            Some(spec_trim(text))
        },
        None => None,
    }
}

/// The view of an optional string.
pub open spec fn opt_view(value: Option<String>) -> Option<Seq<char>> {
    match value {
        Some(s) => Some(s@),
        None => None,
    }
}

/// The view of an optional string slice.
pub open spec fn opt_str_view(value: Option<&str>) -> Option<Seq<char>> {
    match value {
        Some(s) => Some(s@),
        None => None,
    }
}

/// Trims an optional value and drops it when it is blank.
pub fn blank_to_none(value: Option<String>) -> (r: Option<String>)
    ensures
        opt_view(r) == spec_blank_to_none(opt_view(value)),
{
    match value {
        Some(text) => {
            let trimmed = trim(text.as_str());
            if trimmed.is_empty() {
                None
            } else {
                Some(String::from_str(trimmed))
            }
        },
        None => None,
    }
}

/// The decimal digit character for `d`.
pub open spec fn digit_char(d: nat) -> char {
    if d == 0 {
        '0'
    } else if d == 1 {
        '1'
    } else if d == 2 {
        '2'
    } else if d == 3 {
        '3'
    } else if d == 4 {
        '4'
    } else if d == 5 {
        '5'
    } else if d == 6 {
        '6'
    } else if d == 7 {
        '7'
    } else if d == 8 {
        '8'
    } else {
        '9'
    }
}

/// The decimal representation of `n`, without sign or leading zeros.
pub open spec fn spec_decimal(n: nat) -> Seq<char>
    decreases n,
{
    if n < 10 {
        seq![digit_char(n)]
    } else {
        spec_decimal(n / 10).push(digit_char(n % 10))
    }
}

/// The decimal text of a number has at least one digit, and begins with
/// `'0'` only for zero.
pub proof fn lemma_decimal_shape(n: nat)
    ensures
        spec_decimal(n).len() >= 1,
        n >= 10 ==> spec_decimal(n).len() >= 2,
        spec_decimal(n)[0] == '0' <==> n == 0,
    decreases n,
{
    if n >= 10 {
        lemma_decimal_shape(n / 10);
        assert(spec_decimal(n)[0] == spec_decimal(n / 10)[0]);
    }
}

/// Different numbers have different decimal texts.
pub proof fn lemma_decimal_injective(n: nat, m: nat)
    requires
        spec_decimal(n) == spec_decimal(m),
    ensures
        n == m,
    decreases n,
{
    lemma_decimal_shape(n);
    lemma_decimal_shape(m);
    if n < 10 && m < 10 {
        assert(spec_decimal(n)[0] == digit_char(n));
        assert(spec_decimal(m)[0] == digit_char(m));
    } else if n >= 10 && m >= 10 {
        let a = spec_decimal(n);
        let b = spec_decimal(m);
        assert(a.last() == digit_char(n % 10));
        assert(b.last() == digit_char(m % 10));
        assert(a.drop_last() =~= spec_decimal(n / 10));
        assert(b.drop_last() =~= spec_decimal(m / 10));
        lemma_decimal_injective(n / 10, m / 10);
    }
}

/// Different numbers padded to the same width have different texts.
pub proof fn lemma_padded_decimal_injective(n: nat, m: nat, width: nat)
    requires
        pad_zeros(spec_decimal(n), width) == pad_zeros(spec_decimal(m), width),
    ensures
        n == m,
{
    let a = spec_decimal(n);
    let b = spec_decimal(m);
    lemma_decimal_shape(n);
    lemma_decimal_shape(m);
    let pa = pad_zeros(a, width);
    let pb = pad_zeros(b, width);
    let ka: int = if a.len() >= width {
        0
    } else {
        width - a.len()
    };
    let kb: int = if b.len() >= width {
        0
    } else {
        width - b.len()
    };
    assert(pa.len() == ka + a.len());
    assert(pb.len() == kb + b.len());
    assert forall|i: int| 0 <= i < ka implies pa[i] == '0' by {}
    assert forall|i: int| 0 <= i < kb implies pb[i] == '0' by {}
    assert forall|i: int| 0 <= i < a.len() implies pa[ka + i] == a[i] by {}
    assert forall|i: int| 0 <= i < b.len() implies pb[kb + i] == b[i] by {}
    if n == 0 && m == 0 {
    } else if n == 0 {
        assert(a =~= seq!['0']);
        assert(pb[kb] == b[0]);
        assert(kb < pa.len());
        if kb < ka {
            assert(pa[kb] == '0');
        } else {
            assert(kb == ka);
            assert(pa[ka] == a[0]);
        }
    } else if m == 0 {
        assert(b =~= seq!['0']);
        assert(pa[ka] == a[0]);
        assert(ka < pb.len());
        if ka < kb {
            assert(pb[ka] == '0');
        } else {
            assert(ka == kb);
            assert(pb[kb] == b[0]);
        }
    } else {
        if ka < kb {
            assert(pa[ka] == a[0]);
            assert(pb[ka] == '0');
        } else if kb < ka {
            assert(pb[kb] == b[0]);
            assert(pa[kb] == '0');
        } else {
            assert(a =~= pa.skip(ka));
            assert(b =~= pb.skip(kb));
            lemma_decimal_injective(n, m);
        }
    }
}

/// `s` left-padded with `'0'` to at least `width` characters, as the
/// `{:0width}` format does for non-negative numbers.
pub open spec fn pad_zeros(s: Seq<char>, width: nat) -> Seq<char> {
    if s.len() >= width {
        s
    } else {
        Seq::new((width - s.len()) as nat, |i: int| '0') + s
    }
}

fn digit_str(d: u64) -> (r: &'static str)
    requires
        d < 10,
    ensures
        r@ == seq![digit_char(d as nat)],
{
    proof {
        reveal_strlit("0");
        reveal_strlit("1");
        reveal_strlit("2");
        reveal_strlit("3");
        reveal_strlit("4");
        reveal_strlit("5");
        reveal_strlit("6");
        reveal_strlit("7");
        reveal_strlit("8");
        reveal_strlit("9");
    }
    if d == 0 {
        "0"
    } else if d == 1 {
        "1"
    } else if d == 2 {
        "2"
    } else if d == 3 {
        "3"
    } else if d == 4 {
        "4"
    } else if d == 5 {
        "5"
    } else if d == 6 {
        "6"
    } else if d == 7 {
        "7"
    } else if d == 8 {
        "8"
    } else {
        "9"
    }
}

/// Writes `n` in decimal.
pub fn decimal(n: u64) -> (r: String)
    ensures
        r@ == spec_decimal(n as nat),
    decreases n,
{
    if n < 10 {
        String::from_str(digit_str(n))
    } else {
        let head = decimal(n / 10);
        head.concat(digit_str(n % 10))
    }
}

/// Writes `n` in decimal, left-padded with zeros to `width` characters.
pub fn decimal_padded(n: u64, width: usize) -> (r: String)
    ensures
        r@ == pad_zeros(spec_decimal(n as nat), width as nat),
{
    let digits = decimal(n);
    let len = digits.as_str().unicode_len();
    if len >= width {
        return digits;
    }
    let mut out = String::new();
    let mut i: usize = 0;
    while i < width - len
        invariant
            i <= width - len,
            len == digits@.len(),
            out@ == Seq::new(i as nat, |k: int| '0'),
        decreases width - len - i,
    {
        proof {
            reveal_strlit("0");
        }
        out.append("0");
        i = i + 1;
        assert(out@ =~= Seq::new(i as nat, |k: int| '0'));
    }
    out.concat(digits.as_str())
}

/// Compares two strings character by character.
pub fn same_text(a: &str, b: &str) -> (r: bool)
    ensures
        r == (a@ == b@),
{
    String::from_str(a) == String::from_str(b)
}

/// Joins two strings with a `':'` between them.
pub fn join_colon(a: &str, b: &str) -> (r: String)
    ensures
        r@ == a@ + ":"@ + b@,
{
    String::from_str(a).concat(":").concat(b)
}

/// The first `n` characters of `s`, or all of `s` when it is shorter.
pub open spec fn spec_take_chars(s: Seq<char>, n: nat) -> Seq<char> {
    if n < s.len() {
        s.take(n as int)
    } else {
        s
    }
}

/// Returns the first `n` characters of `s`, as `s.chars().take(n)` gives.
pub fn take_chars(s: &str, n: usize) -> (r: &str)
    ensures
        r@ == spec_take_chars(s@, n as nat),
{
    let len = s.unicode_len();
    if n < len {
        s.substring_char(0, n)
    } else {
        assert(s@.subrange(0, len as int) =~= s@);
        s.substring_char(0, len)
    }
}

/// `s` with every `c` removed.
pub open spec fn spec_remove_char(s: Seq<char>, c: char) -> Seq<char>
    decreases s.len(),
{
    if s.len() == 0 {
        s
    } else if s.last() == c {
        spec_remove_char(s.drop_last(), c)
    } else {
        spec_remove_char(s.drop_last(), c).push(s.last())
    }
}

/// Returns `s` with every `'-'` removed, as `str::replace('-', "")` does.
pub fn remove_dashes(s: &str) -> (r: String)
    ensures
        r@ == spec_remove_char(s@, '-'),
{
    let n = s.unicode_len();
    let mut out = String::new();
    let mut i: usize = 0;
    while i < n
        invariant
            n == s@.len(),
            i <= n,
            out@ == spec_remove_char(s@.take(i as int), '-'),
        decreases n - i,
    {
        let c = s.get_char(i);
        assert(s@.take(i + 1).drop_last() =~= s@.take(i as int));
        if c != '-' {
            let one = s.substring_char(i, i + 1);
            assert(one@ =~= seq![c]);
            out.append(one);
        }
        i = i + 1;
    }
    assert(s@.take(n as int) =~= s@);
    out
}

/// `prefix` opens `s`.
pub open spec fn spec_starts_with(s: Seq<char>, prefix: Seq<char>) -> bool {
    prefix.len() <= s.len() && s.take(prefix.len() as int) == prefix
}

/// Whether `s` begins with `prefix`.
pub fn starts_with(s: &str, prefix: &str) -> (r: bool)
    ensures
        r == spec_starts_with(s@, prefix@),
{
    let plen = prefix.unicode_len();
    let slen = s.unicode_len();
    if plen > slen {
        return false;
    }
    let head = s.substring_char(0, plen);
    same_text(head, prefix)
}

/// The view of an optional string as an optional slice.
pub fn opt_as_str(value: &Option<String>) -> (r: Option<&str>)
    ensures
        opt_str_view(r) == opt_view(*value),
{
    match value {
        Some(v) => Some(v.as_str()),
        None => None,
    }
}

/// `i` is the position of the first `c` in `s`.
pub open spec fn is_first_char(s: Seq<char>, c: char, i: int) -> bool {
    &&& 0 <= i < s.len()
    &&& s[i] == c
    &&& forall|a: int| 0 <= a < i ==> s[a] != c
}

/// `s` cut at its first `c`, as `str::split_once(c)` does.
pub open spec fn spec_split_once(s: Seq<char>, c: char) -> Option<(Seq<char>, Seq<char>)> {
    if exists|i: int| is_first_char(s, c, i) {
        let i = choose|i: int| is_first_char(s, c, i);
        Some((s.take(i), s.skip(i + 1)))
    } else {
        None
    }
}

/// There is one first position.
pub proof fn lemma_first_char_unique(s: Seq<char>, c: char, i: int, j: int)
    requires
        is_first_char(s, c, i),
        is_first_char(s, c, j),
    ensures
        i == j,
{
    if i < j {
        assert(s[i] != c);
    } else if j < i {
        assert(s[j] != c);
    }
}

/// The parts that `spec_split_once` gives are shorter than `s`.
pub proof fn lemma_split_once_shorter(s: Seq<char>, c: char)
    ensures
        spec_split_once(s, c) matches Some(p) ==> p.0.len() < s.len() && p.1.len() < s.len(),
{
    if exists|i: int| is_first_char(s, c, i) {
        let i = choose|i: int| is_first_char(s, c, i);
        assert(is_first_char(s, c, i));
    }
}

/// Cuts `s` at its first `c`.
pub fn split_once(s: &str, c: char) -> (r: Option<(&str, &str)>)
    ensures
        match r {
            Some((a, b)) => spec_split_once(s@, c) == Some((a@, b@)),
            None => spec_split_once(s@, c) is None,
        },
{
    let n = s.unicode_len();
    let mut i: usize = 0;
    while i < n
        invariant
            n == s@.len(),
            i <= n,
            forall|a: int| 0 <= a < i ==> s@[a] != c,
        decreases n - i,
    {
        if s.get_char(i) == c {
            proof {
                assert(is_first_char(s@, c, i as int));
                let k = choose|k: int| is_first_char(s@, c, k);
                lemma_first_char_unique(s@, c, i as int, k);
            }
            let head = s.substring_char(0, i);
            let tail = s.substring_char(i + 1, n);
            assert(head@ =~= s@.take(i as int));
            assert(tail@ =~= s@.skip(i + 1));
            return Some((head, tail));
        }
        i = i + 1;
    }
    None
}

/// Calls `str::trim_start`, which removes the leading characters for which
/// `char::is_whitespace` holds; the contract states that behaviour.
#[verifier::external_body]
pub(crate) fn trim_start_str(s: &str) -> (r: &str)
    ensures
        r@ == trim_start(s@),
{
    s.trim_start()
}

/// Whether `c` occurs in `s`.
pub fn contains_char(s: &str, c: char) -> (r: bool)
    ensures
        r == s@.contains(c),
{
    let n = s.unicode_len();
    let mut i: usize = 0;
    while i < n
        invariant
            n == s@.len(),
            i <= n,
            forall|a: int| 0 <= a < i ==> s@[a] != c,
        decreases n - i,
    {
        if s.get_char(i) == c {
            assert(s@[i as int] == c);
            return true;
        }
        i = i + 1;
    }
    false
}

} // verus!
