//! The grammar of the captured attribute: an attribute name matched without
//! regard to letter case, optional white space, `=`, optional white space, a
//! quote (which may itself be escaped with a backslash), and the value up to
//! the matching unescaped quote, with backslash escapes resolved.

use crate::text::{
    ascii_lower, ascii_space, is_ascii_space, to_ascii_lower, BACKSLASH, CARRIAGE_RETURN,
    DOUBLE_QUOTE, EQUALS_SIGN, LINE_FEED, SINGLE_QUOTE, TAB,
};
use vstd::prelude::*;

verus! {

pub const LETTER_N: u8 = 0x6E;

pub const LETTER_R: u8 = 0x72;

pub const LETTER_T: u8 = 0x74;

/// `name` stands in `text` at offset `at`, letter case aside.
pub open spec fn matches_ignore_case_at(text: Seq<u8>, at: int, name: Seq<u8>) -> bool {
    &&& 0 <= at
    &&& at + name.len() <= text.len()
    &&& forall|k: int| 0 <= k < name.len() ==> ascii_lower(text[at + k]) == ascii_lower(name[k])
}

/// `hay` begins with `needle`, letter case aside.
pub open spec fn spec_starts_with_ignore_case(hay: Seq<u8>, needle: Seq<u8>) -> bool {
    matches_ignore_case_at(hay, 0, needle)
}

pub open spec fn is_quote(b: u8) -> bool {
    b == DOUBLE_QUOTE || b == SINGLE_QUOTE
}

/// The byte that `\` followed by `b` stands for inside a quoted value:
/// `\n`, `\r` and `\t` are the control characters, any other byte is itself.
pub open spec fn escaped_byte(b: u8) -> u8 {
    if b == LETTER_N {
        LINE_FEED
    } else if b == LETTER_R {
        CARRIAGE_RETURN
    } else if b == LETTER_T {
        TAB
    } else {
        b
    }
}

/// A byte that forms a recognised escape when it follows a backslash in a
/// document: `n`, `r`, `t`, a quote or a backslash.
pub open spec fn is_escape_letter(b: u8) -> bool {
    b == LETTER_N || b == LETTER_R || b == LETTER_T || b == DOUBLE_QUOTE || b == SINGLE_QUOTE || b
        == BACKSLASH
}

/// The first offset at or after `from` that holds no white space.
pub open spec fn skip_space(text: Seq<u8>, from: int) -> int
    decreases text.len() - from,
{
    if 0 <= from < text.len() && is_ascii_space(text[from]) {
        skip_space(text, from + 1)
    } else {
        from
    }
}

pub open spec fn prepend(b: u8, rest: Option<Seq<u8>>) -> Option<Seq<u8>> {
    match rest {
        Some(s) => Some(seq![b] + s),
        None => None,
    }
}

/// The value that starts at `from` and ends before the first unescaped
/// `quote`, with every escape resolved; `None` if the text ends first.
pub open spec fn read_quoted(text: Seq<u8>, from: int, quote: u8) -> Option<Seq<u8>>
    decreases text.len() - from,
{
    if from < 0 || from >= text.len() {
        None
    } else if text[from] == BACKSLASH {
        if from + 1 < text.len() {
            prepend(escaped_byte(text[from + 1]), read_quoted(text, from + 2, quote))
        } else {
            None
        }
    } else if text[from] == quote {
        Some(Seq::empty())
    } else {
        prepend(text[from], read_quoted(text, from + 1, quote))
    }
}

/// What the text after an attribute name amounts to.
pub enum Attempt {
    /// No `=` and quote follow: the name was not an attribute, the search
    /// goes on after it.
    Skip,
    /// An attribute was recognised and the search ends here, with its
    /// value, or with nothing if the text ends inside it.
    Stop(Option<Seq<u8>>),
}

/// Reads what follows an attribute name that ends just before `after`.
pub open spec fn attempt_after(text: Seq<u8>, after: int) -> Attempt {
    let eq = skip_space(text, after);
    if eq >= text.len() || text[eq] != EQUALS_SIGN {
        Attempt::Skip
    } else {
        let open = skip_space(text, eq + 1);
        if open >= text.len() {
            Attempt::Stop(None)
        } else {
            let q = if text[open] == BACKSLASH && open + 1 < text.len() && is_quote(text[open + 1]) {
                open + 1
            } else {
                open
            };
            if is_quote(text[q]) {
                Attempt::Stop(read_quoted(text, q + 1, text[q]))
            } else {
                Attempt::Skip
            }
        }
    }
}

/// The value of the first attribute named `attr` at or after `from`. A name
/// counts only if at least one byte follows it.
pub open spec fn extract_from(text: Seq<u8>, attr: Seq<u8>, from: int) -> Option<Seq<u8>>
    decreases text.len() - from,
{
    if from < 0 || from + attr.len() >= text.len() {
        None
    } else if matches_ignore_case_at(text, from, attr) {
        match attempt_after(text, from + attr.len()) {
            Attempt::Skip => extract_from(text, attr, from + 1),
            Attempt::Stop(value) => value,
        }
    } else {
        extract_from(text, attr, from + 1)
    }
}

/// The value of the first attribute named `attr` in `text`.
pub open spec fn spec_extract_attr_value(text: Seq<u8>, attr: Seq<u8>) -> Option<Seq<u8>> {
    extract_from(text, attr, 0)
}

/// `text` from `from` on with one level of backslash escapes removed: `\n`,
/// `\r`, `\t`, `\"`, `\'` and `\\` become the byte they stand for, any other
/// backslash stays.
pub open spec fn unescape_from(text: Seq<u8>, from: int) -> Seq<u8>
    decreases text.len() - from,
{
    if from < 0 || from >= text.len() {
        Seq::empty()
    } else if text[from] == BACKSLASH && from + 1 < text.len() {
        if is_escape_letter(text[from + 1]) {
            seq![escaped_byte(text[from + 1])] + unescape_from(text, from + 2)
        } else {
            seq![BACKSLASH, text[from + 1]] + unescape_from(text, from + 2)
        }
    } else {
        seq![text[from]] + unescape_from(text, from + 1)
    }
}

/// `text` with one level of backslash escapes removed.
pub open spec fn spec_unescape_source(text: Seq<u8>) -> Seq<u8> {
    unescape_from(text, 0)
}

/// The letter case of the attribute's name does not matter: two names that
/// differ only in letter case find the same value in every text.
pub proof fn lemma_name_case_is_irrelevant(text: Seq<u8>, a: Seq<u8>, b: Seq<u8>)
    requires
        a.len() == b.len(),
        forall|k: int| 0 <= k < a.len() ==> ascii_lower(a[k]) == ascii_lower(b[k]),
    ensures
        spec_extract_attr_value(text, a) == spec_extract_attr_value(text, b),
{
    lemma_name_case_from(text, a, b, 0);
}

proof fn lemma_name_case_from(text: Seq<u8>, a: Seq<u8>, b: Seq<u8>, from: int)
    requires
        0 <= from,
        a.len() == b.len(),
        forall|k: int| 0 <= k < a.len() ==> ascii_lower(a[k]) == ascii_lower(b[k]),
    ensures
        extract_from(text, a, from) == extract_from(text, b, from),
    decreases text.len() - from,
{
    if from + a.len() < text.len() {
        assert(matches_ignore_case_at(text, from, a) == matches_ignore_case_at(text, from, b));
        lemma_name_case_from(text, a, b, from + 1);
    }
}

/// A text in which the name stands nowhere has no value.
pub proof fn lemma_no_name_no_value(text: Seq<u8>, attr: Seq<u8>, from: int)
    requires
        0 <= from,
        forall|at: int| from <= at ==> !matches_ignore_case_at(text, at, attr),
    ensures
        extract_from(text, attr, from) is None,
    decreases text.len() - from,
{
    if from + attr.len() < text.len() {
        lemma_no_name_no_value(text, attr, from + 1);
    }
}

/// A value is found only where the name stands: if a text has a value, the
/// name stands in it somewhere, followed by at least one byte.
pub proof fn lemma_value_needs_name(text: Seq<u8>, attr: Seq<u8>)
    requires
        spec_extract_attr_value(text, attr) is Some,
    ensures
        exists|at: int|
            0 <= at && at + attr.len() < text.len() && matches_ignore_case_at(text, at, attr),
{
    lemma_value_found_at(text, attr, 0);
}

proof fn lemma_value_found_at(text: Seq<u8>, attr: Seq<u8>, from: int)
    requires
        0 <= from,
        extract_from(text, attr, from) is Some,
    ensures
        exists|at: int|
            from <= at && at + attr.len() < text.len() && matches_ignore_case_at(text, at, attr),
    decreases text.len() - from,
{
    if matches_ignore_case_at(text, from, attr) {
        assert(from + attr.len() < text.len());
    } else {
        lemma_value_found_at(text, attr, from + 1);
        let at = choose|at: int|
            from + 1 <= at && at + attr.len() < text.len() && matches_ignore_case_at(
                text,
                at,
                attr,
            );
        assert(from <= at && at + attr.len() < text.len() && matches_ignore_case_at(
            text,
            at,
            attr,
        ));
    }
}

/// `b` is an ASCII letter.
pub open spec fn is_letter(b: u8) -> bool {
    0x61 <= ascii_lower(b) <= 0x7A
}

pub open spec fn all_letters(name: Seq<u8>) -> bool {
    forall|k: int| 0 <= k < name.len() ==> is_letter(#[trigger] name[k])
}

/// Where the unescaped text begins with a run of letters, the text itself
/// does: unescaping neither makes a letter nor joins two.
proof fn lemma_unescaped_letters_are_copied(text: Seq<u8>, from: int, letters: Seq<u8>)
    requires
        0 <= from <= text.len(),
        all_letters(letters),
        matches_ignore_case_at(unescape_from(text, from), 0, letters),
    ensures
        matches_ignore_case_at(text, from, letters),
    decreases letters.len(),
{
    if letters.len() > 0 {
        let out = unescape_from(text, from);
        assert(from < text.len());
        assert(ascii_lower(out[0int + 0int]) == ascii_lower(letters[0]));
        assert(is_letter(letters[0]));
        if text[from] == BACKSLASH && from + 1 < text.len() {
            assert(!is_letter(out[0]));
        } else {
            let rest = unescape_from(text, from + 1);
            assert(out =~= seq![text[from]] + rest);
            let tail = letters.drop_first();
            assert(matches_ignore_case_at(rest, 0, tail)) by {
                assert forall|k: int| 0 <= k < tail.len() implies ascii_lower(rest[0int + k])
                    == ascii_lower(tail[k]) by {
                    assert(ascii_lower(out[0int + (k + 1)]) == ascii_lower(letters[k + 1]));
                    assert(out[k + 1] == rest[k]);
                }
            }
            assert(all_letters(tail)) by {
                assert forall|k: int| 0 <= k < tail.len() implies is_letter(#[trigger] tail[k]) by {
                    assert(is_letter(letters[k + 1]));
                }
            }
            lemma_unescaped_letters_are_copied(text, from + 1, tail);
            assert forall|k: int| 0 <= k < letters.len() implies ascii_lower(text[from + k])
                == ascii_lower(letters[k]) by {
                if k > 0 {
                    assert(ascii_lower(text[(from + 1) + (k - 1)]) == ascii_lower(tail[k - 1]));
                }
            }
        }
    }
}

proof fn lemma_match_shift(head: Seq<u8>, tail: Seq<u8>, at: int, name: Seq<u8>)
    requires
        at >= head.len(),
        matches_ignore_case_at(head + tail, at, name),
    ensures
        matches_ignore_case_at(tail, at - head.len(), name),
{
    assert forall|k: int| 0 <= k < name.len() implies ascii_lower(tail[at - head.len() + k])
        == ascii_lower(name[k]) by {
        assert(ascii_lower((head + tail)[at + k]) == ascii_lower(name[k]));
        assert((head + tail)[at + k] == tail[at - head.len() + k]);
    }
}

/// Unescaping makes no name: a name of letters that stands in the
/// unescaped text stands in the text itself.
pub proof fn lemma_unescape_makes_no_name(text: Seq<u8>, from: int, name: Seq<u8>, at: int)
    requires
        0 <= from <= text.len(),
        name.len() > 0,
        all_letters(name),
        matches_ignore_case_at(unescape_from(text, from), at, name),
    ensures
        exists|q: int| from <= q && matches_ignore_case_at(text, q, name),
    decreases text.len() - from,
{
    let out = unescape_from(text, from);
    assert(from < text.len());
    assert(is_letter(name[0]));
    if text[from] == BACKSLASH && from + 1 < text.len() {
        let next = text[from + 1];
        let rest = unescape_from(text, from + 2);
        if is_escape_letter(next) {
            let head = seq![escaped_byte(next)];
            assert(out =~= head + rest);
            if at == 0 {
                assert(ascii_lower(out[0int + 0int]) == ascii_lower(name[0]));
                assert(false);
            } else {
                lemma_match_shift(head, rest, at, name);
                lemma_unescape_makes_no_name(text, from + 2, name, at - 1);
                let q = choose|q: int| from + 2 <= q && matches_ignore_case_at(text, q, name);
                assert(from <= q && matches_ignore_case_at(text, q, name));
            }
        } else {
            let head = seq![BACKSLASH, next];
            assert(out =~= head + rest);
            if at == 0 {
                assert(ascii_lower(out[0int + 0int]) == ascii_lower(name[0]));
                assert(false);
            } else if at == 1 {
                let tail = name.drop_first();
                assert(matches_ignore_case_at(rest, 0, tail)) by {
                    assert forall|k: int| 0 <= k < tail.len() implies ascii_lower(rest[0int + k])
                        == ascii_lower(tail[k]) by {
                        assert(ascii_lower(out[1 + (k + 1)]) == ascii_lower(name[k + 1]));
                        assert(out[k + 2] == rest[k]);
                    }
                }
                assert(all_letters(tail)) by {
                    assert forall|k: int| 0 <= k < tail.len() implies is_letter(
                        #[trigger] tail[k],
                    ) by {
                        assert(is_letter(name[k + 1]));
                    }
                }
                lemma_unescaped_letters_are_copied(text, from + 2, tail);
                assert(ascii_lower(out[1int + 0int]) == ascii_lower(name[0]));
                assert(matches_ignore_case_at(text, from + 1, name)) by {
                    assert forall|k: int| 0 <= k < name.len() implies ascii_lower(
                        text[from + 1 + k],
                    ) == ascii_lower(name[k]) by {
                        if k > 0 {
                            assert(ascii_lower(text[(from + 2) + (k - 1)]) == ascii_lower(
                                tail[k - 1],
                            ));
                        }
                    }
                }
            } else {
                lemma_match_shift(head, rest, at, name);
                lemma_unescape_makes_no_name(text, from + 2, name, at - 2);
                let q = choose|q: int| from + 2 <= q && matches_ignore_case_at(text, q, name);
                assert(from <= q && matches_ignore_case_at(text, q, name));
            }
        }
    } else {
        let rest = unescape_from(text, from + 1);
        let head = seq![text[from]];
        assert(out =~= head + rest);
        if at == 0 {
            lemma_unescaped_letters_are_copied(text, from, name);
        } else {
            lemma_match_shift(head, rest, at, name);
            lemma_unescape_makes_no_name(text, from + 1, name, at - 1);
            let q = choose|q: int| from + 1 <= q && matches_ignore_case_at(text, q, name);
            assert(from <= q && matches_ignore_case_at(text, q, name));
        }
    }
}

/// How a value is written between quotes so that it is read back: a
/// backslash before every backslash and before every byte that is the quote.
pub open spec fn escape_value(value: Seq<u8>, quote: u8) -> Seq<u8>
    decreases value.len(),
{
    if value.len() == 0 {
        Seq::empty()
    } else if value[0] == BACKSLASH || value[0] == quote {
        seq![BACKSLASH, value[0]] + escape_value(value.drop_first(), quote)
    } else {
        seq![value[0]] + escape_value(value.drop_first(), quote)
    }
}

/// Reading does not depend on what stands before the place where it
/// begins.
pub proof fn lemma_read_quoted_shift(before: Seq<u8>, text: Seq<u8>, from: int, quote: u8)
    requires
        0 <= from,
    ensures
        read_quoted(before + text, before.len() + from, quote) == read_quoted(text, from, quote),
    decreases text.len() - from,
{
    let whole = before + text;
    if from < text.len() {
        assert(whole[before.len() + from] == text[from]);
        if text[from] == BACKSLASH {
            if from + 1 < text.len() {
                assert(whole[before.len() + from + 1] == text[from + 1]);
                lemma_read_quoted_shift(before, text, from + 2, quote);
            }
        } else if text[from] != quote {
            lemma_read_quoted_shift(before, text, from + 1, quote);
        }
    }
}

/// Escaping and reading are inverse: a value written with `escape_value`
/// and closed by its quote is read back as it was, whatever follows. The
/// quote is not one of the letters `n`, `r` and `t`.
pub proof fn lemma_escape_round_trip(value: Seq<u8>, quote: u8, rest: Seq<u8>)
    requires
        quote != LETTER_N && quote != LETTER_R && quote != LETTER_T,
        quote != BACKSLASH,
    ensures
        read_quoted(escape_value(value, quote).push(quote) + rest, 0, quote) == Some(value),
    decreases value.len(),
{
    let text = escape_value(value, quote).push(quote) + rest;
    if value.len() == 0 {
        assert(text[0] == quote);
        assert(value =~= Seq::<u8>::empty());
    } else {
        let tail = value.drop_first();
        let tail_text = escape_value(tail, quote).push(quote) + rest;
        lemma_escape_round_trip(tail, quote, rest);
        if value[0] == BACKSLASH || value[0] == quote {
            let head = seq![BACKSLASH, value[0]];
            assert(text =~= head + tail_text);
            assert(text[0] == BACKSLASH);
            assert(text[1] == value[0]);
            lemma_read_quoted_shift(head, tail_text, 0, quote);
            assert(escaped_byte(value[0]) == value[0]);
            assert(seq![value[0]] + tail =~= value);
        } else {
            let head = seq![value[0]];
            assert(text =~= head + tail_text);
            assert(text[0] == value[0]);
            lemma_read_quoted_shift(head, tail_text, 0, quote);
            assert(seq![value[0]] + tail =~= value);
        }
    }
}

/// An attribute that is written out is read back: the name, `=`, a quote,
/// the escaped value and the quote again, whatever follows, give the value.
pub proof fn lemma_written_attribute_is_read(
    attr: Seq<u8>,
    value: Seq<u8>,
    quote: u8,
    rest: Seq<u8>,
)
    requires
        is_quote(quote),
    ensures
        spec_extract_attr_value(
            attr + seq![EQUALS_SIGN, quote] + escape_value(value, quote).push(quote) + rest,
            attr,
        ) == Some(value),
{
    let head = attr + seq![EQUALS_SIGN, quote];
    let body = escape_value(value, quote).push(quote) + rest;
    let text = head + body;
    assert(text =~= attr + seq![EQUALS_SIGN, quote] + escape_value(value, quote).push(quote)
        + rest);
    let n = attr.len() as int;
    assert(text[n] == EQUALS_SIGN);
    assert(text[n + 1] == quote);
    assert(matches_ignore_case_at(text, 0, attr)) by {
        assert forall|k: int| 0 <= k < attr.len() implies ascii_lower(text[0 + k]) == ascii_lower(
            attr[k],
        ) by {
            assert(text[k] == attr[k]);
        }
    }
    assert(skip_space(text, n) == n);
    assert(skip_space(text, n + 1) == n + 1);
    lemma_read_quoted_shift(head, body, 0, quote);
    lemma_escape_round_trip(value, quote, rest);
}

fn quote(b: u8) -> (r: bool)
    ensures
        r == is_quote(b),
{
    b == DOUBLE_QUOTE || b == SINGLE_QUOTE
}

fn resolve_escape(b: u8) -> (r: u8)
    ensures
        r == escaped_byte(b),
{
    if b == LETTER_N {
        LINE_FEED
    } else if b == LETTER_R {
        CARRIAGE_RETURN
    } else if b == LETTER_T {
        TAB
    } else {
        b
    }
}

/// Whether `hay` begins with `needle`, letter case aside.
pub fn starts_with_ignore_case(hay: &[u8], needle: &[u8]) -> (r: bool)
    ensures
        r == spec_starts_with_ignore_case(hay@, needle@),
{
    if hay.len() < needle.len() {
        return false;
    }
    let mut k: usize = 0;
    while k < needle.len()
        invariant
            k <= needle.len() <= hay.len(),
            forall|j: int| 0 <= j < k ==> ascii_lower(hay@[j]) == ascii_lower(needle@[j]),
        decreases needle.len() - k,
    {
        if to_ascii_lower(hay[k]) != to_ascii_lower(needle[k]) {
            return false;
        }
        k += 1;
    }
    true
}

fn matches_at(text: &[u8], at: usize, name: &[u8]) -> (r: bool)
    requires
        at <= text.len(),
    ensures
        r == matches_ignore_case_at(text@, at as int, name@),
{
    if text.len() - at < name.len() {
        return false;
    }
    let mut k: usize = 0;
    while k < name.len()
        invariant
            k <= name.len(),
            at + name.len() <= text.len(),
            forall|j: int| 0 <= j < k ==> ascii_lower(text@[at + j]) == ascii_lower(name@[j]),
        decreases name.len() - k,
    {
        if to_ascii_lower(text[at + k]) != to_ascii_lower(name[k]) {
            return false;
        }
        k += 1;
    }
    true
}

fn skip_spaces(text: &[u8], from: usize) -> (r: usize)
    requires
        from <= text.len(),
    ensures
        r == skip_space(text@, from as int),
        from <= r <= text.len(),
{
    let mut j = from;
    while j < text.len() && ascii_space(text[j])
        invariant
            from <= j <= text.len(),
            skip_space(text@, from as int) == skip_space(text@, j as int),
        decreases text.len() - j,
    {
        j += 1;
    }
    j
}

fn read_value(text: &[u8], from: usize, quote: u8) -> (r: Option<Vec<u8>>)
    requires
        from <= text.len(),
    ensures
        match r {
            Some(v) => read_quoted(text@, from as int, quote) == Some(v@),
            None => read_quoted(text@, from as int, quote) is None,
        },
{
    let mut out: Vec<u8> = Vec::new();
    let mut j = from;
    while j < text.len()
        invariant
            from <= j <= text.len(),
            read_quoted(text@, from as int, quote) == match read_quoted(text@, j as int, quote) {
                Some(rest) => Some(out@ + rest),
                None => None,
            },
        decreases text.len() - j,
    {
        let ghost before = out@;
        let b = text[j];
        if b == BACKSLASH {
            if j + 1 < text.len() {
                out.push(resolve_escape(text[j + 1]));
                proof {
                    match read_quoted(text@, j + 2, quote) {
                        Some(rest) => {
                            assert(out@ + rest =~= before + (seq![escaped_byte(text@[j + 1])]
                                + rest));
                        },
                        None => {},
                    }
                }
                j += 2;
            } else {
                return None;
            }
        } else if b == quote {
            assert(out@ + Seq::<u8>::empty() =~= out@);
            return Some(out);
        } else {
            out.push(b);
            proof {
                match read_quoted(text@, j + 1, quote) {
                    Some(rest) => {
                        assert(out@ + rest =~= before + (seq![b] + rest));
                    },
                    None => {},
                }
            }
            j += 1;
        }
    }
    None
}

/// The outcome of reading what follows an attribute name.
enum Reading {
    Skip,
    Stop(Option<Vec<u8>>),
}

impl Reading {
    spec fn model(self) -> Attempt {
        match self {
            Reading::Skip => Attempt::Skip,
            Reading::Stop(Some(v)) => Attempt::Stop(Some(v@)),
            Reading::Stop(None) => Attempt::Stop(None),
        }
    }
}

fn read_after(text: &[u8], after: usize) -> (r: Reading)
    requires
        after <= text.len(),
    ensures
        r.model() == attempt_after(text@, after as int),
{
    let eq = skip_spaces(text, after);
    if eq >= text.len() || text[eq] != EQUALS_SIGN {
        return Reading::Skip;
    }
    let open = skip_spaces(text, eq + 1);
    if open >= text.len() {
        return Reading::Stop(None);
    }
    let q = if text[open] == BACKSLASH && open + 1 < text.len() && quote(text[open + 1]) {
        open + 1
    } else {
        open
    };
    if quote(text[q]) {
        Reading::Stop(read_value(text, q + 1, text[q]))
    } else {
        Reading::Skip
    }
}

/// Finds the first attribute named `attr` in `text`, letter case aside, and
/// returns its unescaped value.
///
/// Only a name with at least one byte after it counts. A name that is not
/// followed by `=` and a quote is passed over. Once an attribute has been
/// recognised the search ends: if the text stops before its closing quote,
/// or right after the `=`, there is no value.
pub fn extract_attr_value(text: &[u8], attr: &[u8]) -> (r: Option<Vec<u8>>)
    ensures
        match r {
            Some(v) => spec_extract_attr_value(text@, attr@) == Some(v@),
            None => spec_extract_attr_value(text@, attr@) is None,
        },
{
    if attr.len() >= text.len() {
        return None;
    }
    let last = text.len() - attr.len();
    let mut i: usize = 0;
    while i < last
        invariant
            i <= last,
            last == text.len() - attr.len(),
            attr.len() < text.len(),
            spec_extract_attr_value(text@, attr@) == extract_from(text@, attr@, i as int),
        decreases last - i,
    {
        if matches_at(text, i, attr) {
            match read_after(text, i + attr.len()) {
                Reading::Skip => {},
                Reading::Stop(value) => {
                    return value;
                },
            }
        }
        i += 1;
    }
    None
}

/// Removes one level of backslash escapes from a whole document.
pub fn unescape_source(text: &[u8]) -> (r: Vec<u8>)
    ensures
        r@ == spec_unescape_source(text@),
{
    let mut out: Vec<u8> = Vec::new();
    let mut i: usize = 0;
    assert(out@ + unescape_from(text@, 0) =~= unescape_from(text@, 0));
    while i < text.len()
        invariant
            i <= text.len(),
            spec_unescape_source(text@) == out@ + unescape_from(text@, i as int),
        decreases text.len() - i,
    {
        let ghost before = out@;
        let b = text[i];
        if b == BACKSLASH && i + 1 < text.len() {
            let next = text[i + 1];
            if next == LETTER_N || next == LETTER_R || next == LETTER_T || next == DOUBLE_QUOTE
                || next == SINGLE_QUOTE || next == BACKSLASH {
                out.push(resolve_escape(next));
                assert(out@ + unescape_from(text@, i + 2) =~= before + (seq![escaped_byte(next)]
                    + unescape_from(text@, i + 2)));
            } else {
                out.push(BACKSLASH);
                out.push(next);
                assert(out@ + unescape_from(text@, i + 2) =~= before + (seq![BACKSLASH, next]
                    + unescape_from(text@, i + 2)));
            }
            i += 2;
        } else {
            out.push(b);
            assert(out@ + unescape_from(text@, i + 1) =~= before + (seq![b] + unescape_from(
                text@,
                i + 1,
            )));
            i += 1;
        }
    }
    assert(out@ + unescape_from(text@, i as int) =~= out@);
    out
}

} // verus!
