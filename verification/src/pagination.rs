use vstd::prelude::*;
use vstd::string::*;

use crate::codec::{
    base64_encodable, base64_url_decode, base64_url_decoding, base64_url_encode,
    base64_url_encoding, hmac_sha256, hmac_sha256_tag, hmac_sha256_verify,
};
use crate::error::{AppError, AppResult};
use crate::text::{
    decimal, is_first_char, lemma_first_char_unique, opt_view, same_text, spec_decimal,
    spec_split_once, split_once,
};

verus! {

/// One page of a listing, with the cursor of the next page when there is one.
pub struct Page<T> {
    pub items: Vec<T>,
    pub next_cursor: Option<String>,
}

/// The items of all `pages`, in order.
pub open spec fn flatten<T>(pages: Seq<Page<T>>) -> Seq<T>
    decreases pages.len(),
{
    if pages.len() == 0 {
        Seq::empty()
    } else {
        flatten(pages.drop_last()) + pages.last().items@
    }
}

/// `page` is what `fetch` may answer when asked for the page after `cursor`
/// (`None` asks for the first page).
pub open spec fn fetched<T, F: Fn(Option<&str>) -> AppResult<Page<T>>>(
    fetch: F,
    cursor: Option<Seq<char>>,
    page: Page<T>,
) -> bool {
    match cursor {
        None => call_ensures(fetch, (None::<&str>,), Ok::<Page<T>, AppError>(page)),
        Some(c) => exists|a: &str| a@ == c && call_ensures(fetch, (Some(a),), Ok::<Page<T>, AppError>(page)),
    }
}

/// `pages` is a chain that `fetch` may answer: the first page is the answer
/// to `None`, each further page the answer to the cursor of the one before.
pub open spec fn fetched_chain<T, F: Fn(Option<&str>) -> AppResult<Page<T>>>(
    fetch: F,
    pages: Seq<Page<T>>,
) -> bool
    decreases pages.len(),
{
    if pages.len() == 0 {
        true
    } else {
        &&& fetched_chain(fetch, pages.drop_last())
        &&& fetched(fetch, next_request(pages.drop_last()), pages.last())
    }
}

/// Every page but the last names a next cursor, the last names none, and no
/// cursor comes twice.
pub open spec fn complete_chain<T>(pages: Seq<Page<T>>) -> bool {
    &&& pages.len() > 0
    &&& pages.last().next_cursor is None
    &&& forall|i: int| 0 <= i < pages.len() - 1 ==> #[trigger] pages[i].next_cursor is Some
    &&& forall|i: int, j: int|
        0 <= i < j < pages.len() - 1 ==> (#[trigger] pages[i].next_cursor)->0@
            != (#[trigger] pages[j].next_cursor)->0@
}

/// Whether `c` is one of the cursors in `seen`.
pub open spec fn cursor_seen(seen: Seq<String>, c: Seq<char>) -> bool {
    exists|i: int| 0 <= i < seen.len() && seen[i]@ == c
}

/// The cursor that the page after `pages` is asked for.
pub open spec fn next_request<T>(pages: Seq<Page<T>>) -> Option<Seq<char>> {
    if pages.len() == 0 {
        None
    } else {
        opt_view(pages.last().next_cursor)
    }
}

proof fn lemma_chain_push<T, F: Fn(Option<&str>) -> AppResult<Page<T>>>(
    fetch: F,
    pages: Seq<Page<T>>,
    p: Page<T>,
)
    requires
        fetched_chain(fetch, pages),
        fetched(fetch, next_request(pages), p),
    ensures
        fetched_chain(fetch, pages.push(p)),
        flatten(pages.push(p)) == flatten(pages) + p.items@,
{
    assert(pages.push(p).drop_last() =~= pages);
}

proof fn lemma_seen_push<T>(pages: Seq<Page<T>>, seen: Seq<String>, p: Page<T>, c: String)
    requires
        pages.len() == seen.len(),
        forall|i: int| 0 <= i < pages.len() ==> #[trigger] pages[i].next_cursor is Some,
        forall|i: int| 0 <= i < pages.len() ==> (#[trigger] pages[i].next_cursor)->0@ == seen[i]@,
        forall|i: int, j: int| 0 <= i < j < seen.len() ==> seen[i]@ != seen[j]@,
        p.next_cursor == Some(c),
        !cursor_seen(seen, c@),
    ensures
        ({
            let q = pages.push(p);
            let s = seen.push(c);
            &&& forall|i: int| 0 <= i < q.len() ==> #[trigger] q[i].next_cursor is Some
            &&& forall|i: int| 0 <= i < q.len() ==> (#[trigger] q[i].next_cursor)->0@ == s[i]@
            &&& forall|i: int, j: int| 0 <= i < j < s.len() ==> s[i]@ != s[j]@
        }),
{
    let q = pages.push(p);
    let s = seen.push(c);
    assert forall|i: int| 0 <= i < q.len() implies #[trigger] q[i].next_cursor is Some by {
        if i < pages.len() {
            assert(q[i] == pages[i]);
        }
    }
    assert forall|i: int| 0 <= i < q.len() implies (#[trigger] q[i].next_cursor)->0@ == s[i]@ by {
        if i < pages.len() {
            assert(q[i] == pages[i]);
            assert(s[i] == seen[i]);
        }
    }
    assert forall|i: int, j: int| 0 <= i < j < s.len() implies s[i]@ != s[j]@ by {
        assert(s[i] == seen[i]);
        if j < seen.len() {
            assert(s[j] == seen[j]);
        }
    }
}

proof fn lemma_complete<T>(pages: Seq<Page<T>>, p: Page<T>, seen: Seq<String>)
    requires
        pages.len() == seen.len(),
        forall|i: int| 0 <= i < pages.len() ==> #[trigger] pages[i].next_cursor is Some,
        forall|i: int| 0 <= i < pages.len() ==> (#[trigger] pages[i].next_cursor)->0@ == seen[i]@,
        forall|i: int, j: int| 0 <= i < j < seen.len() ==> seen[i]@ != seen[j]@,
        p.next_cursor is None,
    ensures
        complete_chain(pages.push(p)),
{
    let q = pages.push(p);
    assert forall|i: int| 0 <= i < q.len() - 1 implies #[trigger] q[i].next_cursor is Some by {
        assert(q[i] == pages[i]);
    }
    assert forall|i: int, j: int|
        0 <= i < j < q.len() - 1 implies (#[trigger] q[i].next_cursor)->0@ != (
        #[trigger] q[j].next_cursor)->0@ by {
        assert(q[i] == pages[i]);
        assert(q[j] == pages[j]);
    }
}

/// `pages` is a chain that `fetch` may answer in which every page names a
/// next cursor and no cursor comes twice: the pages read so far by a
/// collection that has not finished.
pub open spec fn open_chain<T, F: Fn(Option<&str>) -> AppResult<Page<T>>>(fetch: F, pages: Seq<Page<T>>) -> bool {
    &&& fetched_chain(fetch, pages)
    &&& forall|i: int| 0 <= i < pages.len() ==> #[trigger] pages[i].next_cursor is Some
    &&& forall|i: int, j: int|
        0 <= i < j < pages.len() ==> (#[trigger] pages[i].next_cursor)->0@
            != (#[trigger] pages[j].next_cursor)->0@
}

/// `answer` is what `fetch` may give when asked for the page after `pages`.
pub open spec fn answered_after<T, F: Fn(Option<&str>) -> AppResult<Page<T>>>(
    fetch: F,
    pages: Seq<Page<T>>,
    answer: AppResult<Page<T>>,
) -> bool {
    match next_request(pages) {
        None => call_ensures(fetch, (None::<&str>,), answer),
        Some(c) => exists|a: &str| a@ == c && #[trigger] call_ensures(fetch, (Some(a),), answer),
    }
}

/// What collecting every page of a listing read by `fetch` gives: the items
/// of a complete chain of pages; or, after an unfinished chain, the error
/// that `fetch` gave for the next page, or the refusal `duplicate` of a next
/// page whose cursor one of the chain's pages named already.
pub open spec fn collect_result<T, F: Fn(Option<&str>) -> AppResult<Page<T>>>(
    fetch: F,
    duplicate: Seq<char>,
    r: AppResult<Vec<T>>,
) -> bool {
    match r {
        Ok(items) => exists|pages: Seq<Page<T>>|
            #![trigger flatten(pages)]
            {
                &&& fetched_chain(fetch, pages)
                &&& complete_chain(pages)
                &&& items@ == flatten(pages)
            },
        Err(e) => exists|pages: Seq<Page<T>>|
            #![trigger open_chain(fetch, pages)]
            {
                &&& open_chain(fetch, pages)
                &&& {
                    ||| answered_after(fetch, pages, Err::<Page<T>, AppError>(e))
                    ||| (e matches AppError::Validation(m) && m@ == duplicate && exists|p: Page<T>|
                        {
                            &&& #[trigger] answered_after(fetch, pages, Ok::<Page<T>, AppError>(p))
                            &&& p.next_cursor is Some
                            &&& exists|i: int|
                                0 <= i < pages.len() && (#[trigger] pages[i].next_cursor)->0@
                                    == p.next_cursor->0@
                        })
                }
            },
    }
}

proof fn lemma_open_chain<T, F: Fn(Option<&str>) -> AppResult<Page<T>>>(
    fetch: F,
    pages: Seq<Page<T>>,
    seen: Seq<String>,
)
    requires
        fetched_chain(fetch, pages),
        pages.len() == seen.len(),
        forall|i: int| 0 <= i < pages.len() ==> #[trigger] pages[i].next_cursor is Some,
        forall|i: int| 0 <= i < pages.len() ==> (#[trigger] pages[i].next_cursor)->0@ == seen[i]@,
        forall|i: int, j: int| 0 <= i < j < seen.len() ==> seen[i]@ != seen[j]@,
    ensures
        open_chain(fetch, pages),
{
    assert forall|i: int, j: int|
        0 <= i < j < pages.len() implies (#[trigger] pages[i].next_cursor)->0@
            != (#[trigger] pages[j].next_cursor)->0@ by {
        assert(pages[i].next_cursor->0@ == seen[i]@);
        assert(pages[j].next_cursor->0@ == seen[j]@);
    }
}

fn as_cursor_arg(cursor: &Option<String>) -> (r: Option<&str>)
    ensures
        match cursor {
            Some(c) => r matches Some(a) && a@ == c@,
            None => r is None,
        },
{
    match cursor {
        Some(c) => Some(c.as_str()),
        None => None,
    }
}

fn contains_text(seen: &Vec<String>, c: &str) -> (r: bool)
    ensures
        r == cursor_seen(seen@, c@),
{
    let n = seen.len();
    let mut i: usize = 0;
    while i < n
        invariant
            n == seen@.len(),
            i <= n,
            forall|a: int| 0 <= a < i ==> seen@[a]@ != c@,
        decreases n - i,
    {
        if same_text(seen[i].as_str(), c) {
            return true;
        }
        i = i + 1;
    }
    false
}

/// Collects every page of a listing, following the cursors until a page has
/// none; a cursor that comes back a second time is refused with
/// `duplicate_message`.
pub fn collect_pages<T>(
    fetch: impl Fn(Option<&str>) -> AppResult<Page<T>>,
    duplicate_message: &str,
) -> (r: AppResult<Vec<T>>)
    requires
        forall|c: Option<&str>| call_requires(fetch, (c,)),
    ensures
        collect_result(fetch, duplicate_message@, r),
{
    let mut items: Vec<T> = Vec::new();
    let mut cursor: Option<String> = None;
    let mut seen: Vec<String> = Vec::new();
    let ghost mut pages: Seq<Page<T>> = Seq::empty();
    loop
        invariant
            forall|c: Option<&str>| call_requires(fetch, (c,)),
            items@ == flatten(pages),
            fetched_chain(fetch, pages),
            pages.len() == seen@.len(),
            opt_view(cursor) == next_request(pages),
            forall|i: int| 0 <= i < pages.len() ==> #[trigger] pages[i].next_cursor is Some,
            forall|i: int|
                0 <= i < pages.len() ==> (#[trigger] pages[i].next_cursor)->0@ == seen@[i]@,
            forall|i: int, j: int| 0 <= i < j < seen@.len() ==> seen@[i]@ != seen@[j]@,
        decreases usize::MAX - seen@.len(),
    {
        let arg = as_cursor_arg(&cursor);
        let fetched_page = fetch(arg);
        let page = match fetched_page {
            Ok(p) => p,
            Err(e) => {
                proof {
                    assert(call_ensures(fetch, (arg,), Err::<Page<T>, AppError>(e)));
                    match arg {
                        Some(a) => {
                            assert(call_ensures(fetch, (Some(a),), Err::<Page<T>, AppError>(e)));
                        },
                        None => {},
                    }
                    assert(answered_after(fetch, pages, Err::<Page<T>, AppError>(e)));
                    lemma_open_chain(fetch, pages, seen@);
                }
                return Err(e);
            },
        };
        let ghost gp = page;
        proof {
            match arg {
                Some(a) => {
                    assert(call_ensures(fetch, (Some(a),), Ok::<Page<T>, AppError>(gp)));
                    assert(fetched(fetch, next_request(pages), gp));
                },
                None => {},
            }
            lemma_chain_push(fetch, pages, gp);
        }
        let Page { items: page_items, next_cursor } = page;
        let mut page_items = page_items;
        items.append(&mut page_items);
        let next = match next_cursor {
            Some(n) => n,
            None => {
                proof {
                    lemma_complete(pages, gp, seen@);
                    pages = pages.push(gp);
                    assert(items@ == flatten(pages));
                }
                return Ok(items);
            },
        };
        if contains_text(&seen, next.as_str()) {
            let message = String::from_str(duplicate_message);
            let r = Err(AppError::Validation(message));
            proof {
                match arg {
                    Some(a) => {
                        assert(call_ensures(fetch, (Some(a),), Ok::<Page<T>, AppError>(gp)));
                    },
                    None => {},
                }
                assert(answered_after(fetch, pages, Ok::<Page<T>, AppError>(gp)));
                let i = choose|i: int| 0 <= i < seen@.len() && seen@[i]@ == next@;
                assert(pages[i].next_cursor->0@ == gp.next_cursor->0@);
                lemma_open_chain(fetch, pages, seen@);
            }
            return r;
        }
        proof {
            lemma_seen_push(pages, seen@, gp, next);
            pages = pages.push(gp);
        }
        seen.push(next.clone());
        let _ = seen.len();
        cursor = Some(next);
    }
}

/// Rows shown on one page.
pub const PAGE_SIZE: i64 = 500;

/// Rows fetched for one page: one more than shown, to learn whether another
/// page follows.
pub const FETCH_SIZE: i64 = 501;

/// The message given for a repeated database cursor.
pub open spec fn duplicate_database_cursor_message() -> Seq<char> {
    "数据库返回了重复分页游标"@
}

/// Collects every page of a database listing; a cursor that comes back a
/// second time is refused.
pub fn collect_all<T>(fetch: impl Fn(Option<&str>) -> AppResult<Page<T>>) -> (r: AppResult<Vec<T>>)
    requires
        forall|c: Option<&str>| call_requires(fetch, (c,)),
    ensures
        collect_result(fetch, duplicate_database_cursor_message(), r),
{
    collect_pages(fetch, "数据库返回了重复分页游标")
}

/// What collecting every page of a listing read by `fetch_page` may give:
/// the items of a complete chain of pages, or the refusal of a repeated
/// cursor, or an error that `fetch_page` gave.
pub open spec fn listing_result<T, F: Fn(Option<&str>) -> AppResult<Page<T>>>(
    fetch_page: F,
    r: AppResult<Vec<T>>,
) -> bool {
    collect_result(fetch_page, duplicate_database_cursor_message(), r)
}

/// `i` written in decimal, with a leading `'-'` when negative.
pub open spec fn spec_signed_decimal(i: int) -> Seq<char> {
    if i < 0 {
        "-"@ + spec_decimal((-i) as nat)
    } else {
        spec_decimal(i as nat)
    }
}

/// Writes `i` in decimal, with a leading `'-'` when negative.
pub fn signed_decimal(i: i64) -> (r: String)
    ensures
        r@ == spec_signed_decimal(i as int),
{
    if i < 0 {
        let magnitude = (0i128 - (i as i128)) as u64;
        String::from_str("-").concat(decimal(magnitude).as_str())
    } else {
        decimal(i as u64)
    }
}

/// The SQL of one page: `base` limited to `FETCH_SIZE` rows from `offset`, or
/// `base` unchanged when no offset is given.
pub open spec fn spec_query(base: Seq<char>, offset: Option<i64>) -> Seq<char> {
    match offset {
        Some(o) => base + " LIMIT 501 OFFSET "@ + spec_signed_decimal(o as int),
        None => base,
    }
}

/// Builds the SQL of one page of `base`.
pub fn query(base: &str, offset: Option<i64>) -> (r: String)
    ensures
        r@ == spec_query(base@, offset),
{
    match offset {
        Some(offset) => String::from_str(base).concat(" LIMIT 501 OFFSET ").concat(
            signed_decimal(offset).as_str(),
        ),
        None => String::from_str(base),
    }
}

/// Cuts the rows fetched for one page down to `PAGE_SIZE` and tells the
/// offset of the next page when more rows were fetched than fit.
pub fn paginate<T>(items: Vec<T>, offset: i64) -> (r: (Vec<T>, Option<i64>))
    requires
        offset <= i64::MAX - PAGE_SIZE,
    ensures
        items@.len() > PAGE_SIZE ==> r.0@ == items@.take(PAGE_SIZE as int) && r.1 == Some(
            (offset + PAGE_SIZE) as i64,
        ),
        items@.len() <= PAGE_SIZE ==> r.0@ == items@ && r.1 is None,
{
    let mut items = items;
    let has_more = items.len() > 500;
    if has_more {
        items.truncate(500);
        (items, Some(offset + PAGE_SIZE))
    } else {
        (items, None)
    }
}

/// What a cursor is bound to: this process, the database file and its
/// business data revision.
pub struct Revision {
    pub process_id: String,
    pub database_epoch: String,
    pub business_revision: i64,
}

impl View for Revision {
    type V = (Seq<char>, Seq<char>, i64);

    open spec fn view(&self) -> (Seq<char>, Seq<char>, i64) {
        (self.process_id@, self.database_epoch@, self.business_revision)
    }
}

/// A position in one listing: the listing's scope, the revision it was read
/// at, and the offset of the next row.
pub struct OffsetCursor {
    pub scope: String,
    pub revision: Revision,
    pub offset: i64,
}

/// Whether two revisions are the same.
pub fn same_revision(a: &Revision, b: &Revision) -> (r: bool)
    ensures
        r == (a@ == b@),
{
    same_text(a.process_id.as_str(), b.process_id.as_str()) && same_text(
        a.database_epoch.as_str(),
        b.database_epoch.as_str(),
    ) && a.business_revision == b.business_revision
}

/// The message given for a cursor that is malformed, forged, or belongs to
/// another listing or revision.
pub open spec fn invalid_cursor_message() -> Seq<char> {
    "分页游标无效或不属于当前查询"@
}

fn invalid_cursor() -> (r: AppError)
    ensures
        r matches AppError::Validation(m) && m@ == invalid_cursor_message(),
{
    AppError::Validation(String::from_str("分页游标无效或不属于当前查询"))
}

/// Accepts a decoded cursor for the listing `scope` at revision `current`
/// and gives its offset; a cursor of another scope or revision, or with a
/// negative offset, is refused.
pub fn check_offset_cursor(cursor: &OffsetCursor, scope: &str, current: &Revision) -> (r: AppResult<i64>)
    ensures
        r is Ok <==> (cursor.scope@ == scope@ && cursor.revision@ == current@ && cursor.offset >= 0),
        r matches Ok(o) ==> o == cursor.offset,
        r matches Err(e) ==> e matches AppError::Validation(m) && m@ == invalid_cursor_message(),
{
    if !same_text(cursor.scope.as_str(), scope) || !same_revision(&cursor.revision, current)
        || cursor.offset < 0 {
        return Err(invalid_cursor());
    }
    Ok(cursor.offset)
}

/// The offset that a listing starts from: 0 without a cursor, else the
/// offset of the cursor once accepted.
pub fn cursor_offset(cursor: Option<&OffsetCursor>, scope: &str, current: &Revision) -> (r: AppResult<i64>)
    ensures
        cursor is None ==> r == Ok::<i64, AppError>(0),
        cursor matches Some(c) ==> {
            &&& r is Ok <==> (c.scope@ == scope@ && c.revision@ == current@ && c.offset >= 0)
            &&& r matches Ok(o) ==> o == c.offset
            &&& r matches Err(e) ==> e matches AppError::Validation(m) && m@ == invalid_cursor_message()
        },
{
    match cursor {
        None => Ok(0),
        Some(c) => check_offset_cursor(c, scope, current),
    }
}

/// The cursor text of `payload` signed under `secret`: the URL-safe base64 of
/// the payload, a `'.'`, and the URL-safe base64 of its HMAC-SHA256.
pub open spec fn spec_encode_cursor(payload: Seq<u8>, secret: Seq<u8>) -> Seq<char> {
    base64_url_encoding(payload) + "."@ + base64_url_encoding(hmac_sha256(secret, payload))
}

/// The payload of a cursor text that carries a valid signature under
/// `secret`, or `None`.
pub open spec fn spec_decode_cursor(cursor: Seq<char>, secret: Seq<u8>) -> Option<Seq<u8>> {
    match spec_split_once(cursor, '.') {
        None => None,
        Some(parts) => match (base64_url_decoding(parts.0), base64_url_decoding(parts.1)) {
            (Some(payload), Some(tag)) => if tag == hmac_sha256(secret, payload) {
                Some(payload)
            } else {
                None
            },
            _ => None,
        },
    }
}

/// Signs a cursor payload: the result is the cursor text, and reading it back
/// with the same secret gives the payload.
pub fn encode_cursor_payload(payload: &[u8], secret: &[u8]) -> (r: String)
    requires
        base64_encodable(payload@.len()),
    ensures
        r@ == spec_encode_cursor(payload@, secret@),
        spec_decode_cursor(r@, secret@) == Some(payload@),
{
    let tag = hmac_sha256_tag(secret, payload);
    let head = base64_url_encode(payload);
    let tail = base64_url_encode(tag.as_slice());
    let r = head.concat(".").concat(tail.as_str());
    proof {
        reveal_strlit(".");
        let s = r@;
        let k = head@.len() as int;
        assert(s[k] == '.');
        assert forall|a: int| 0 <= a < k implies s[a] != '.' by {
            assert(s[a] == head@[a]);
            if head@[a] == '.' {
                assert(head@.contains('.'));
            }
        }
        assert(is_first_char(s, '.', k));
        let c = choose|c: int| is_first_char(s, '.', c);
        lemma_first_char_unique(s, '.', k, c);
        assert(s.take(k) =~= head@);
        assert(s.skip(k + 1) =~= tail@);
    }
    r
}

/// Reads a cursor text back: its payload when the text is two URL-safe base64
/// parts joined by `'.'` and the second is the HMAC-SHA256 of the first under
/// `secret`; otherwise the invalid-cursor error.
pub fn decode_cursor_payload(cursor: &str, secret: &[u8]) -> (r: AppResult<Vec<u8>>)
    ensures
        match r {
            Ok(p) => spec_decode_cursor(cursor@, secret@) == Some(p@),
            Err(e) => spec_decode_cursor(cursor@, secret@) is None && (e matches AppError::Validation(
                m,
            ) && m@ == invalid_cursor_message()),
        },
{
    let (head, tail) = match split_once(cursor, '.') {
        Some(parts) => parts,
        None => return Err(invalid_cursor()),
    };
    let payload = match base64_url_decode(head) {
        Some(p) => p,
        None => return Err(invalid_cursor()),
    };
    let provided = match base64_url_decode(tail) {
        Some(p) => p,
        None => return Err(invalid_cursor()),
    };
    if !hmac_sha256_verify(secret, payload.as_slice(), provided.as_slice()) {
        return Err(invalid_cursor());
    }
    Ok(payload)
}

/// `fetch` answers exactly the chain `pages`: asked for the first page it
/// answers `pages[0]`, and asked for the page after the cursor of a page of
/// the chain that names one, it answers the next page of the chain.
pub open spec fn answers_chain<T, F: Fn(Option<&str>) -> AppResult<Page<T>>>(fetch: F, pages: Seq<Page<T>>) -> bool {
    &&& pages.len() > 0
    &&& forall|a: AppResult<Page<T>>|
        #[trigger] call_ensures(fetch, (None::<&str>,), a) ==> a == Ok::<Page<T>, AppError>(pages[0])
    &&& forall|i: int, s: &str, a: AppResult<Page<T>>|
        #![trigger pages[i], call_ensures(fetch, (Some(s),), a)]
        0 <= i < pages.len() - 1 && pages[i].next_cursor is Some && s@ == pages[i].next_cursor->0@
            && call_ensures(fetch, (Some(s),), a) ==> a == Ok::<Page<T>, AppError>(pages[i + 1])
}

proof fn lemma_chain_follows<T, F: Fn(Option<&str>) -> AppResult<Page<T>>>(
    fetch: F,
    pages: Seq<Page<T>>,
    qs: Seq<Page<T>>,
)
    requires
        answers_chain(fetch, pages),
        complete_chain(pages),
        fetched_chain(fetch, qs),
        forall|i: int| 0 <= i < qs.len() - 1 ==> #[trigger] qs[i].next_cursor is Some,
    ensures
        qs.len() <= pages.len(),
        forall|i: int| 0 <= i < qs.len() ==> qs[i] == pages[i],
    decreases qs.len(),
{
    if qs.len() > 0 {
        let q = qs.drop_last();
        assert forall|i: int| 0 <= i < q.len() - 1 implies #[trigger] q[i].next_cursor is Some by {
            assert(q[i] == qs[i]);
        }
        lemma_chain_follows(fetch, pages, q);
        let m = q.len() as int;
        let last = qs.last();
        assert(fetched(fetch, next_request(q), last));
        if m == 0 {
            assert(call_ensures(fetch, (None::<&str>,), Ok::<Page<T>, AppError>(last)));
        } else {
            assert(q[m - 1] == qs[m - 1]);
            assert(qs[m - 1].next_cursor is Some);
            assert(q[m - 1] == pages[m - 1]);
            assert(m - 1 < pages.len() - 1);
            let a = choose|a: &str|
                a@ == pages[m - 1].next_cursor->0@ && call_ensures(fetch, (Some(a),), Ok::<Page<T>, AppError>(last));
            assert(call_ensures(fetch, (Some(a),), Ok::<Page<T>, AppError>(last)));
        }
        assert forall|i: int| 0 <= i < qs.len() implies qs[i] == pages[i] by {
            if i < m {
                assert(qs[i] == q[i]);
            }
        }
    }
}

/// Law: a listing whose pages `fetch` answers as one complete chain, every
/// page but the last naming a next cursor, no cursor twice, collects exactly
/// the items of those pages in order; no error and no refusal can come.
pub proof fn law_collect_follows_the_chain<T, F: Fn(Option<&str>) -> AppResult<Page<T>>>(
    fetch: F,
    pages: Seq<Page<T>>,
    duplicate: Seq<char>,
    r: AppResult<Vec<T>>,
)
    requires
        answers_chain(fetch, pages),
        complete_chain(pages),
        collect_result(fetch, duplicate, r),
    ensures
        r matches Ok(items) && items@ == flatten(pages),
{
    match r {
        Ok(items) => {
            let qs = choose|qs: Seq<Page<T>>|
                #![trigger flatten(qs)]
                {
                    &&& fetched_chain(fetch, qs)
                    &&& complete_chain(qs)
                    &&& items@ == flatten(qs)
                };
            lemma_chain_follows(fetch, pages, qs);
            if qs.len() < pages.len() {
                assert(qs[qs.len() - 1] == pages[qs.len() - 1]);
                assert(pages[qs.len() - 1].next_cursor is Some);
            }
            assert(qs =~= pages);
        },
        Err(e) => {
            let qs = choose|qs: Seq<Page<T>>|
                #![trigger open_chain(fetch, qs)]
                {
                    &&& open_chain(fetch, qs)
                    &&& {
                        ||| answered_after(fetch, qs, Err::<Page<T>, AppError>(e))
                        ||| (e matches AppError::Validation(m) && m@ == duplicate && exists|p: Page<T>|
                            {
                                &&& #[trigger] answered_after(fetch, qs, Ok::<Page<T>, AppError>(p))
                                &&& p.next_cursor is Some
                                &&& exists|i: int|
                                    0 <= i < qs.len() && (#[trigger] qs[i].next_cursor)->0@ == p.next_cursor->0@
                            })
                    }
                };
            assert forall|i: int| 0 <= i < qs.len() - 1 implies #[trigger] qs[i].next_cursor is Some by {}
            lemma_chain_follows(fetch, pages, qs);
            let m = qs.len() as int;
            if m == pages.len() {
                assert(qs[m - 1] == pages[m - 1]);
                assert(qs[m - 1].next_cursor is Some);
            }
            assert(m < pages.len());
            if m > 0 {
                assert(qs[m - 1] == pages[m - 1]);
                assert(qs[m - 1].next_cursor is Some);
            }
            assert forall|ans: AppResult<Page<T>>| #[trigger] answered_after(fetch, qs, ans) implies ans
                == Ok::<Page<T>, AppError>(pages[m]) by {
                if m > 0 {
                    let a = choose|a: &str| a@ == qs[m - 1].next_cursor->0@ && call_ensures(fetch, (Some(a),), ans);
                    assert(call_ensures(fetch, (Some(a),), ans));
                }
            }
            if answered_after(fetch, qs, Err::<Page<T>, AppError>(e)) {
                assert(false);
            } else {
                let p = choose|p: Page<T>|
                    {
                        &&& #[trigger] answered_after(fetch, qs, Ok::<Page<T>, AppError>(p))
                        &&& p.next_cursor is Some
                        &&& exists|i: int|
                            0 <= i < qs.len() && (#[trigger] qs[i].next_cursor)->0@ == p.next_cursor->0@
                    };
                assert(Ok::<Page<T>, AppError>(p) == Ok::<Page<T>, AppError>(pages[m]));
                let i = choose|i: int| 0 <= i < qs.len() && (#[trigger] qs[i].next_cursor)->0@ == p.next_cursor->0@;
                assert(qs[i] == pages[i]);
                if m == pages.len() - 1 {
                    assert(pages[m].next_cursor is None);
                }
                assert(pages[i].next_cursor->0@ != pages[m].next_cursor->0@);
                assert(false);
            }
        },
    }
}

/// Law: a cursor is accepted only when it carries the signature of its own
/// payload under the secret, so a cursor changed after signing is refused
/// unless the change leaves a validly signed cursor.
pub proof fn law_accepted_cursor_is_signed(cursor: Seq<char>, secret: Seq<u8>, payload: Seq<u8>)
    requires
        spec_decode_cursor(cursor, secret) == Some(payload),
    ensures
        exists|head: Seq<char>, tail: Seq<char>|
            {
                &&& cursor == head + "."@ + tail
                &&& base64_url_decoding(head) == Some(payload)
                &&& base64_url_decoding(tail) == Some(hmac_sha256(secret, payload))
            },
{
    reveal_strlit(".");
    let i = choose|i: int| is_first_char(cursor, '.', i);
    let head = cursor.take(i);
    let tail = cursor.skip(i + 1);
    assert(cursor =~= head + "."@ + tail);
}

} // verus!
