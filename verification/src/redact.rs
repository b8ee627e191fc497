//! Masking secrets before anything is logged: the values of the identity
//! keys of a captured query, and the queries of URLs.
//!
//! Every function here reads its input as bytes and writes its output one
//! character per byte (see [`crate::text`]).

use crate::text::{
    bytes_occur_at, latin1, latin1_string, lemma_ascii_bytes, occurs_at, push_char, AMPERSAND,
    ASTERISK, DOUBLE_QUOTE, EQUALS_SIGN, GREATER_THAN, LESS_THAN, SINGLE_QUOTE,
};
use vstd::prelude::*;
use vstd::string::*;

verus! {

/// How many characters of a response are shown in a log sample.
pub const SAMPLE_LEN: usize = 600;

/// How many query keys are masked in log output.
pub const SENSITIVE_KEY_COUNT: usize = 4;

/// The query keys whose values never reach a log, in the order in which they
/// are tried.
pub open spec fn sensitive_key(k: int) -> Seq<u8> {
    if k == 0 {
        "angel_uin".spec_bytes()
    } else if k == 1 {
        "angel_key".spec_bytes()
    } else if k == 2 {
        "skey".spec_bytes()
    } else {
        "pskey".spec_bytes()
    }
}

/// Key number `k` stands at `at` and is followed by `=`.
pub open spec fn key_stands_at(text: Seq<u8>, at: int, k: int) -> bool {
    &&& occurs_at(text, at, sensitive_key(k))
    &&& at + sensitive_key(k).len() < text.len()
    &&& text[at + sensitive_key(k).len()] == EQUALS_SIGN
}

/// The first sensitive key that stands at `at`, if any.
pub open spec fn matched_key(text: Seq<u8>, at: int) -> Option<int> {
    if key_stands_at(text, at, 0) {
        Some(0)
    } else if key_stands_at(text, at, 1) {
        Some(1)
    } else if key_stands_at(text, at, 2) {
        Some(2)
    } else if key_stands_at(text, at, 3) {
        Some(3)
    } else {
        None
    }
}

/// A byte that ends a query value inside markup: `&`, a quote or an angle
/// bracket.
pub open spec fn is_value_delimiter(b: u8) -> bool {
    b == AMPERSAND || b == DOUBLE_QUOTE || b == SINGLE_QUOTE || b == LESS_THAN || b == GREATER_THAN
}

/// The masked form of `text` from `at` on. While `masking`, the scan is
/// inside the value of a sensitive key: the value is dropped up to its
/// delimiter. Otherwise a sensitive key followed by `=` is copied, followed
/// by `=*`, and any other byte is copied as it is.
pub open spec fn redact_scan(text: Seq<u8>, at: int, masking: bool) -> Seq<u8>
    decreases text.len() - at, (if masking { 1int } else { 0int }),
{
    if at < 0 || at >= text.len() {
        Seq::empty()
    } else if masking {
        if is_value_delimiter(text[at]) {
            redact_scan(text, at, false)
        } else {
            redact_scan(text, at + 1, true)
        }
    } else {
        match matched_key(text, at) {
            Some(k) => sensitive_key(k).push(EQUALS_SIGN).push(ASTERISK) + redact_scan(
                text,
                at + sensitive_key(k).len() + 1,
                true,
            ),
            None => seq![text[at]] + redact_scan(text, at + 1, false),
        }
    }
}

/// `text` with the value of every sensitive key replaced by `*`.
pub open spec fn spec_redact_tokens(text: Seq<u8>) -> Seq<u8> {
    redact_scan(text, 0, false)
}

/// What masking makes of a text: the masked form of its bytes, one
/// character per byte.
pub open spec fn spec_redact_text(text: Seq<char>) -> Seq<char> {
    latin1(spec_redact_tokens(vstd::utf8::encode_utf8(text)))
}

/// `text` with carriage returns and line feeds replaced by spaces.
pub open spec fn flatten_newlines(text: Seq<char>) -> Seq<char> {
    Seq::new(
        text.len(),
        |i: int|
            if text[i] == '\r' || text[i] == '\n' {
                ' '
            } else {
                text[i]
            },
    )
}

/// The first `SAMPLE_LEN` characters of a text, or all of it if it has
/// fewer.
pub open spec fn sample_head(text: Seq<char>) -> Seq<char> {
    if text.len() > SAMPLE_LEN {
        text.take(SAMPLE_LEN as int)
    } else {
        text
    }
}

/// The log sample of a text: its first `SAMPLE_LEN` characters on one line,
/// masked.
pub open spec fn spec_sample_response(html: Seq<char>) -> Seq<char> {
    spec_redact_text(flatten_newlines(sample_head(html)))
}

/// The offset of the first character equal to `c` at or after `from`, or
/// the length of `text` if there is none.
pub open spec fn index_of_char(text: Seq<char>, c: char, from: int) -> int
    decreases text.len() - from,
{
    if from < 0 || from >= text.len() {
        text.len() as int
    } else if text[from] == c {
        from
    } else {
        index_of_char(text, c, from + 1)
    }
}

/// A URL without its query: what stands before the first `?`, as it is,
/// then `?REDACTED`. A URL without `?` is left as it is.
pub open spec fn spec_redact_url(url: Seq<char>) -> Seq<char> {
    let q = index_of_char(url, '?', 0);
    if q < url.len() {
        url.take(q) + "?REDACTED"@
    } else {
        url
    }
}

/// A URL whose query is masked: what stands before the first `?`, as it is,
/// the `?`, and the masked form of what follows. A URL without `?` is left
/// as it is.
pub open spec fn spec_redact_swf_url(url: Seq<char>) -> Seq<char> {
    let q = index_of_char(url, '?', 0);
    if q < url.len() {
        url.take(q).push('?') + spec_redact_text(url.skip(q + 1))
    } else {
        url
    }
}

proof fn lemma_key_literals()
    ensures
        sensitive_key(0) == seq![0x61u8, 0x6E, 0x67, 0x65, 0x6C, 0x5F, 0x75, 0x69, 0x6E],
        sensitive_key(1) == seq![0x61u8, 0x6E, 0x67, 0x65, 0x6C, 0x5F, 0x6B, 0x65, 0x79],
        sensitive_key(2) == seq![0x73u8, 0x6B, 0x65, 0x79],
        sensitive_key(3) == seq![0x70u8, 0x73, 0x6B, 0x65, 0x79],
{
    reveal_strlit("angel_uin");
    reveal_strlit("angel_key");
    reveal_strlit("skey");
    reveal_strlit("pskey");
    lemma_ascii_bytes("angel_uin");
    lemma_ascii_bytes("angel_key");
    lemma_ascii_bytes("skey");
    lemma_ascii_bytes("pskey");
    assert(sensitive_key(0) =~= seq![0x61u8, 0x6E, 0x67, 0x65, 0x6C, 0x5F, 0x75, 0x69, 0x6E]);
    assert(sensitive_key(1) =~= seq![0x61u8, 0x6E, 0x67, 0x65, 0x6C, 0x5F, 0x6B, 0x65, 0x79]);
    assert(sensitive_key(2) =~= seq![0x73u8, 0x6B, 0x65, 0x79]);
    assert(sensitive_key(3) =~= seq![0x70u8, 0x73, 0x6B, 0x65, 0x79]);
}

/// The length of every sensitive key: between 4 and 9 bytes.
pub proof fn lemma_key_lengths()
    ensures
        forall|k: int| 4 <= #[trigger] sensitive_key(k).len() <= 9,
{
    lemma_key_literals();
}

/// Only sensitive keys are masked: a text in which none of them stands
/// followed by `=` is left as it is.
pub proof fn lemma_redact_leaves_other_text(text: Seq<u8>)
    requires
        forall|at: int| 0 <= at < text.len() ==> matched_key(text, at) is None,
    ensures
        spec_redact_tokens(text) == text,
{
    lemma_scan_copies(text, 0);
    assert(text.skip(0) =~= text);
}

proof fn lemma_scan_copies(text: Seq<u8>, from: int)
    requires
        0 <= from <= text.len(),
        forall|at: int| 0 <= at < text.len() ==> matched_key(text, at) is None,
    ensures
        redact_scan(text, from, false) == text.skip(from),
    decreases text.len() - from,
{
    if from < text.len() {
        lemma_scan_copies(text, from + 1);
        assert(seq![text[from]] + text.skip(from + 1) =~= text.skip(from));
    } else {
        assert(text.skip(from) =~= Seq::<u8>::empty());
    }
}

/// Masking looks only forward: what stands before the place where the scan
/// goes on has no part in it.
pub proof fn lemma_scan_shift(before: Seq<u8>, text: Seq<u8>, from: int, masking: bool)
    requires
        0 <= from,
    ensures
        redact_scan(before + text, before.len() + from, masking) == redact_scan(
            text,
            from,
            masking,
        ),
    decreases text.len() - from, (if masking { 1int } else { 0int }),
{
    let whole = before + text;
    let at = before.len() + from;
    if from < text.len() {
        assert(whole[at] == text[from]);
        if masking {
            if is_value_delimiter(text[from]) {
                lemma_scan_shift(before, text, from, false);
            } else {
                lemma_scan_shift(before, text, from + 1, true);
            }
        } else {
            lemma_key_lengths();
            assert forall|k: int| 0 <= k < 4 implies key_stands_at(whole, at, k) == key_stands_at(
                text,
                from,
                k,
            ) by {
                let key = sensitive_key(k);
                if key_stands_at(text, from, k) {
                    assert forall|j: int| 0 <= j < key.len() implies whole[at + j] == key[j] by {
                        assert(text[from + j] == key[j]);
                        assert(whole[at + j] == text[from + j]);
                    }
                    assert(whole[at + key.len()] == text[from + key.len()]);
                }
                if key_stands_at(whole, at, k) {
                    assert forall|j: int| 0 <= j < key.len() implies text[from + j] == key[j] by {
                        assert(whole[at + j] == key[j]);
                        assert(whole[at + j] == text[from + j]);
                    }
                    assert(whole[at + key.len()] == text[from + key.len()]);
                }
            }
            match matched_key(text, from) {
                Some(k) => {
                    lemma_scan_shift(before, text, from + sensitive_key(k).len() + 1, true);
                },
                None => {
                    lemma_scan_shift(before, text, from + 1, false);
                },
            }
        }
    }
}

/// A value without a delimiter is dropped whole.
proof fn lemma_value_is_dropped(text: Seq<u8>, from: int, end: int)
    requires
        0 <= from <= end <= text.len(),
        forall|j: int| from <= j < end ==> !is_value_delimiter(text[j]),
        end == text.len() || is_value_delimiter(text[end]),
    ensures
        redact_scan(text, from, true) == redact_scan(text, end, false),
    decreases end - from,
{
    if from < end {
        lemma_value_is_dropped(text, from + 1, end);
    }
}

/// What tells the sensitive keys apart: their first bytes, and the seventh
/// byte of the two that begin alike.
proof fn lemma_key_marks()
    ensures
        sensitive_key(0).len() == 9,
        sensitive_key(1).len() == 9,
        sensitive_key(2).len() == 4,
        sensitive_key(3).len() == 5,
        sensitive_key(0)[0] == 0x61,
        sensitive_key(1)[0] == 0x61,
        sensitive_key(2)[0] == 0x73,
        sensitive_key(3)[0] == 0x70,
        sensitive_key(0)[6] == 0x75,
        sensitive_key(1)[6] == 0x6B,
{
    lemma_key_literals();
}

/// Where a text begins with a sensitive key and `=`, that key is the one
/// that is matched there.
proof fn lemma_key_is_matched(text: Seq<u8>, k: int)
    requires
        0 <= k < SENSITIVE_KEY_COUNT,
        key_stands_at(text, 0, k),
    ensures
        matched_key(text, 0) == Some(k),
{
    lemma_key_marks();
    let first = text[0int + 0int];
    let seventh = text[0int + 6int];
    assert(first == sensitive_key(k)[0]);
    assert forall|other: int| 0 <= other < k implies !key_stands_at(text, 0, other) by {
        if key_stands_at(text, 0, other) {
            assert(first == sensitive_key(other)[0]);
            if k == 1 {
                assert(seventh == sensitive_key(0)[6]);
                assert(seventh == sensitive_key(1)[6]);
            }
        }
    }
}

/// No value of a sensitive key survives: a sensitive key, `=`, and a value
/// up to its delimiter become the key and `=*`, and the masking goes on
/// with what follows the value.
pub proof fn lemma_redact_masks_value(k: int, value: Seq<u8>, rest: Seq<u8>)
    requires
        0 <= k < SENSITIVE_KEY_COUNT,
        forall|j: int| 0 <= j < value.len() ==> !is_value_delimiter(value[j]),
        rest.len() == 0 || is_value_delimiter(rest[0]),
    ensures
        spec_redact_tokens(sensitive_key(k).push(EQUALS_SIGN) + value + rest) == sensitive_key(
            k,
        ).push(EQUALS_SIGN).push(ASTERISK) + spec_redact_tokens(rest),
{
    let key = sensitive_key(k);
    let head = key.push(EQUALS_SIGN) + value;
    let text = head + rest;
    assert(text =~= key.push(EQUALS_SIGN) + value + rest);
    let n = key.len() as int;
    assert(key_stands_at(text, 0, k)) by {
        assert forall|j: int| 0 <= j < key.len() implies text[0int + j] == key[j] by {
            assert(text[j] == key.push(EQUALS_SIGN)[j]);
        }
        assert(text[n] == key.push(EQUALS_SIGN)[n]);
    }
    lemma_key_is_matched(text, k);
    let value_end = head.len() as int;
    assert forall|j: int| n + 1 <= j < value_end implies !is_value_delimiter(text[j]) by {
        assert(text[j] == value[j - n - 1]);
    }
    if rest.len() > 0 {
        assert(text[value_end] == rest[0]);
    }
    lemma_value_is_dropped(text, n + 1, value_end);
    lemma_scan_shift(head, rest, 0, false);
}

fn key_bytes(k: usize) -> (r: &'static [u8])
    requires
        k < SENSITIVE_KEY_COUNT,
    ensures
        r@ == sensitive_key(k as int),
{
    if k == 0 {
        "angel_uin".as_bytes()
    } else if k == 1 {
        "angel_key".as_bytes()
    } else if k == 2 {
        "skey".as_bytes()
    } else {
        "pskey".as_bytes()
    }
}

fn value_delimiter(b: u8) -> (r: bool)
    ensures
        r == is_value_delimiter(b),
{
    b == AMPERSAND || b == DOUBLE_QUOTE || b == SINGLE_QUOTE || b == LESS_THAN || b == GREATER_THAN
}

fn key_at(text: &[u8], at: usize) -> (r: Option<usize>)
    requires
        at < text.len(),
    ensures
        match r {
            Some(k) => k < SENSITIVE_KEY_COUNT && matched_key(text@, at as int) == Some(k as int),
            None => matched_key(text@, at as int) is None,
        },
{
    let mut k: usize = 0;
    while k < SENSITIVE_KEY_COUNT
        invariant
            k <= SENSITIVE_KEY_COUNT,
            at < text.len(),
            forall|j: int| 0 <= j < k ==> !key_stands_at(text@, at as int, j),
        decreases SENSITIVE_KEY_COUNT - k,
    {
        let key = key_bytes(k);
        proof {
            lemma_key_lengths();
        }
        if bytes_occur_at(text, at, key) && key.len() < text.len() - at && text[at + key.len()]
            == EQUALS_SIGN {
            return Some(k);
        }
        k += 1;
    }
    None
}

/// Appends `more` to `out`.
pub fn append_bytes(out: &mut Vec<u8>, more: &[u8])
    ensures
        final(out)@ == old(out)@ + more@,
{
    let mut i: usize = 0;
    while i < more.len()
        invariant
            i <= more.len(),
            out@ == old(out)@ + more@.take(i as int),
        decreases more.len() - i,
    {
        out.push(more[i]);
        i += 1;
        assert(out@ =~= old(out)@ + more@.take(i as int));
    }
    assert(more@.take(i as int) =~= more@);
}

/// Writes the masked form of the key that stands at `at` and passes over
/// its value. Returns where the scan goes on.
fn mask_key(text: &[u8], at: usize, k: usize, out: &mut Vec<u8>) -> (next: usize)
    requires
        at < text.len(),
        k < SENSITIVE_KEY_COUNT,
        matched_key(text@, at as int) == Some(k as int),
    ensures
        at < next <= text.len(),
        final(out)@ + redact_scan(text@, next as int, false) == old(out)@ + redact_scan(
            text@,
            at as int,
            false,
        ),
{
    let key = key_bytes(k);
    proof {
        lemma_key_lengths();
    }
    append_bytes(out, key);
    out.push(EQUALS_SIGN);
    out.push(ASTERISK);
    let start = at + key.len() + 1;
    let mut i = start;
    while i < text.len() && !value_delimiter(text[i])
        invariant
            start <= i <= text.len(),
            redact_scan(text@, start as int, true) == redact_scan(text@, i as int, true),
        decreases text.len() - i,
    {
        i += 1;
    }
    proof {
        assert(redact_scan(text@, i as int, true) == redact_scan(text@, i as int, false));
        let token = sensitive_key(k as int).push(EQUALS_SIGN).push(ASTERISK);
        assert(out@ =~= old(out)@ + token);
        assert(redact_scan(text@, at as int, false) == token + redact_scan(
            text@,
            start as int,
            true,
        ));
        assert(out@ + redact_scan(text@, i as int, false) =~= old(out)@ + (token + redact_scan(
            text@,
            start as int,
            true,
        )));
    }
    i
}

/// Masks the value of every sensitive key in `text`.
pub fn redact_bytes(text: &[u8]) -> (r: Vec<u8>)
    ensures
        r@ == spec_redact_tokens(text@),
{
    let mut out: Vec<u8> = Vec::new();
    let mut i: usize = 0;
    assert(out@ + redact_scan(text@, 0, false) =~= redact_scan(text@, 0, false));
    while i < text.len()
        invariant
            i <= text.len(),
            spec_redact_tokens(text@) == out@ + redact_scan(text@, i as int, false),
        decreases text.len() - i,
    {
        match key_at(text, i) {
            Some(k) => {
                i = mask_key(text, i, k, &mut out);
            },
            None => {
                let ghost before = out@;
                out.push(text[i]);
                proof {
                    assert(out@ + redact_scan(text@, i + 1, false) =~= before + (seq![
                        text@[i as int],
                    ] + redact_scan(text@, i + 1, false)));
                }
                i += 1;
            },
        }
    }
    assert(out@ + redact_scan(text@, i as int, false) =~= out@);
    out
}

/// Masks the value of every sensitive key in `text` (`angel_uin`,
/// `angel_key`, `skey`, `pskey`): `key=value` becomes `key=*`.
pub fn redact_tokens(text: &str) -> (r: String)
    ensures
        r@ == spec_redact_text(text@),
{
    let out = redact_bytes(text.as_bytes());
    latin1_string(out.as_slice())
}

/// Masks a captured value for the log; the same as [`redact_tokens`].
pub fn redact_value(value: &str) -> (r: String)
    ensures
        r@ == spec_redact_text(value@),
{
    redact_tokens(value)
}

/// The log sample of a text: its first 600 characters, with line breaks
/// turned into spaces and sensitive values masked.
pub fn sample_response(html: &str) -> (r: String)
    ensures
        r@ == spec_sample_response(html@),
{
    let len = html.unicode_len();
    let n = if len > SAMPLE_LEN {
        SAMPLE_LEN
    } else {
        len
    };
    let head = html.substring_char(0, n);
    assert(head@ =~= sample_head(html@));
    let mut flat = String::new();
    let mut i: usize = 0;
    while i < n
        invariant
            i <= n,
            n == head@.len(),
            flat@ == flatten_newlines(head@).take(i as int),
        decreases n - i,
    {
        let c = head.get_char(i);
        if c == '\r' || c == '\n' {
            push_char(&mut flat, ' ');
        } else {
            push_char(&mut flat, c);
        }
        i += 1;
        assert(flat@ =~= flatten_newlines(head@).take(i as int));
    }
    assert(flatten_newlines(head@).take(n as int) =~= flatten_newlines(head@));
    redact_tokens(flat.as_str())
}

/// The offset of the first `?` of a URL, in characters, or its length.
fn find_question_mark(url: &str) -> (r: usize)
    ensures
        r == index_of_char(url@, '?', 0),
        r <= url@.len(),
{
    let len = url.unicode_len();
    let mut i: usize = 0;
    while i < len && url.get_char(i) != '?'
        invariant
            i <= len,
            len == url@.len(),
            index_of_char(url@, '?', 0) == index_of_char(url@, '?', i as int),
        decreases len - i,
    {
        i += 1;
    }
    i
}

/// Hides the query of a URL: `base?REDACTED`.
pub fn redact_url(url: &str) -> (r: String)
    ensures
        r@ == spec_redact_url(url@),
{
    let q = find_question_mark(url);
    let len = url.unicode_len();
    if q < len {
        let mut out = url.substring_char(0, q).to_owned();
        out.append("?REDACTED");
        assert(out@ =~= spec_redact_url(url@));
        out
    } else {
        url.to_owned()
    }
}

/// Masks the sensitive values in the query of an asset URL and keeps the
/// rest as it is.
pub fn redact_swf_url(url: &str) -> (r: String)
    ensures
        r@ == spec_redact_swf_url(url@),
{
    let q = find_question_mark(url);
    let len = url.unicode_len();
    if q < len {
        let mut out = url.substring_char(0, q).to_owned();
        out.append("?");
        let query = url.substring_char(q + 1, len);
        assert(query@ =~= url@.skip(q + 1));
        let masked = redact_tokens(query);
        out.append(masked.as_str());
        proof {
            reveal_strlit("?");
            assert("?"@ =~= seq!['?']);
            assert(out@ =~= spec_redact_swf_url(url@));
        }
        out
    } else {
        url.to_owned()
    }
}

} // verus!
