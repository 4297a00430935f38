//! Prometheus label sanitization.
//!
//! A label value is trimmed, has its inner whitespace runs collapsed to a
//! single space, and is truncated to [`MAX_LABEL_CHARS`] characters; a
//! missing or blank value becomes `unknown`. Clean, short input is returned
//! borrowed, so the common case allocates nothing.

use std::borrow::Cow;
use vstd::prelude::*;

verus! {

/// Maximum length of a Prometheus label value, in characters.
pub const MAX_LABEL_CHARS: usize = 64;

/// `char::is_whitespace`: the Unicode `White_Space` property.
pub open spec fn is_whitespace(c: char) -> bool {
    let u = c as u32;
    ||| 0x09 <= u <= 0x0D
    ||| u == 0x20
    ||| u == 0x85
    ||| u == 0xA0
    ||| u == 0x1680
    ||| 0x2000 <= u <= 0x200A
    ||| u == 0x2028
    ||| u == 0x2029
    ||| u == 0x202F
    ||| u == 0x205F
    ||| u == 0x3000
}

/// Whitespace other than the plain ASCII space.
pub open spec fn is_other_whitespace(c: char) -> bool {
    is_whitespace(c) && c != ' '
}

pub open spec fn trim_start(s: Seq<char>) -> Seq<char>
    decreases s.len(),
{
    if s.len() > 0 && is_whitespace(s[0]) {
        trim_start(s.drop_first())
    } else {
        s
    }
}

pub open spec fn trim_end(s: Seq<char>) -> Seq<char>
    decreases s.len(),
{
    if s.len() > 0 && is_whitespace(s.last()) {
        trim_end(s.drop_last())
    } else {
        s
    }
}

/// `str::trim`: leading and trailing whitespace removed.
pub open spec fn trim(s: Seq<char>) -> Seq<char> {
    trim_end(trim_start(s))
}

/// The text holds a double space or a whitespace character other than the
/// plain space, so that it differs from its whitespace-collapsed form.
pub open spec fn needs_collapse(t: Seq<char>) -> bool {
    exists|k: int|
        0 <= k < t.len() && (is_other_whitespace(#[trigger] t[k]) || (k + 1 < t.len()
            && t[k] == ' ' && t[k + 1] == ' '))
}

/// Every maximal run of whitespace replaced by one space; `after_space`
/// tells whether the text so far ended in a collapsed run.
pub open spec fn collapse_from(s: Seq<char>, after_space: bool) -> Seq<char>
    decreases s.len(),
{
    if s.len() == 0 {
        Seq::empty()
    } else if is_whitespace(s[0]) {
        (if after_space {
            Seq::empty()
        } else {
            seq![' ']
        }) + collapse_from(s.drop_first(), true)
    } else {
        seq![s[0]] + collapse_from(s.drop_first(), false)
    }
}

/// The whitespace-separated words of a trimmed text joined by single spaces.
pub open spec fn collapse(t: Seq<char>) -> Seq<char> {
    collapse_from(t, false)
}

/// The first [`MAX_LABEL_CHARS`] characters.
pub open spec fn truncate_label(s: Seq<char>) -> Seq<char> {
    if s.len() <= 64 {
        s
    } else {
        s.take(64)
    }
}

/// Whether sanitizing the text must build a new string.
pub open spec fn needs_rewrite(t: Seq<char>) -> bool {
    needs_collapse(t) || t.len() > 64
}

/// The sanitized label value.
pub open spec fn sanitized(value: Option<Seq<char>>) -> Seq<char> {
    match value {
        None => "unknown"@,
        Some(s) => {
            let t = trim(s);
            if t.len() == 0 {
                "unknown"@
            } else if needs_rewrite(t) {
                truncate_label(collapse(t))
            } else {
                t
            }
        },
    }
}

/// Whether the sanitized value is a slice of the input or a constant
/// (as opposed to a newly built string).
pub open spec fn sanitized_borrows(value: Option<Seq<char>>) -> bool {
    match value {
        None => true,
        Some(s) => trim(s).len() == 0 || !needs_rewrite(trim(s)),
    }
}

pub open spec fn opt_view(value: Option<&str>) -> Option<Seq<char>> {
    match value {
        Some(s) => Some(s@),
        None => None,
    }
}

/// ASCII uppercase letter.
pub open spec fn is_ascii_upper(c: char) -> bool {
    'A' <= c && c <= 'Z'
}

pub open spec fn ascii_lower_char(c: char) -> char {
    if is_ascii_upper(c) {
        (((c as u32) + 32) as u32) as char
    } else {
        c
    }
}

/// Each ASCII uppercase letter mapped to its lowercase letter.
pub open spec fn ascii_lower(s: Seq<char>) -> Seq<char> {
    s.map_values(|c: char| ascii_lower_char(c))
}

/// Unicode lowercase mapping of a text (`str::to_lowercase`).
pub uninterp spec fn unicode_lowercase(s: Seq<char>) -> Seq<char>;

pub open spec fn is_ascii_text(s: Seq<char>) -> bool {
    forall|i: int| 0 <= i < s.len() ==> (#[trigger] s[i] as u32) < 128
}

/// Calls `str::to_lowercase`. The result is named by [`unicode_lowercase`]:
/// it depends on the text alone. For ASCII text the Unicode lowercase
/// mapping is the ASCII one, which is stated; the full mapping is not.
#[verifier::external_body]
pub(crate) fn to_lowercase(s: &str) -> (r: String)
    ensures
        r@ == unicode_lowercase(s@),
        is_ascii_text(s@) ==> r@ == ascii_lower(s@),
{
    s.to_lowercase()
}

fn is_whitespace_char(c: char) -> (r: bool)
    ensures
        r == is_whitespace(c),
{
    let u = c as u32;
    (0x09 <= u && u <= 0x0D) || u == 0x20 || u == 0x85 || u == 0xA0 || u == 0x1680 || (0x2000
        <= u && u <= 0x200A) || u == 0x2028 || u == 0x2029 || u == 0x202F || u == 0x205F || u
        == 0x3000
}

proof fn lemma_trim_start_at(s: Seq<char>, i: int)
    requires
        0 <= i <= s.len(),
        forall|k: int| 0 <= k < i ==> is_whitespace(#[trigger] s[k]),
        i == s.len() || !is_whitespace(s[i]),
    ensures
        trim_start(s) == s.skip(i),
    decreases i,
{
    if i == 0 {
        assert(s.skip(0) =~= s);
    } else {
        let r = s.drop_first();
        assert forall|k: int| 0 <= k < i - 1 implies is_whitespace(#[trigger] r[k]) by {
            assert(r[k] == s[k + 1]);
        }
        lemma_trim_start_at(r, i - 1);
        assert(r.skip(i - 1) =~= s.skip(i));
    }
}

proof fn lemma_trim_end_at(u: Seq<char>, j: int)
    requires
        0 <= j <= u.len(),
        forall|k: int| j <= k < u.len() ==> is_whitespace(#[trigger] u[k]),
        j == 0 || !is_whitespace(u[j - 1]),
    ensures
        trim_end(u) == u.take(j),
    decreases u.len() - j,
{
    if j == u.len() {
        assert(u.take(j) =~= u);
        if u.len() > 0 {
            assert(!is_whitespace(u.last()));
        }
    } else {
        let r = u.drop_last();
        assert(is_whitespace(u.last()));
        lemma_trim_end_at(r, j);
        assert(r.take(j) =~= u.take(j));
    }
}

/// `str::trim`.
fn trim_str(s: &str) -> (t: &str)
    ensures
        t@ == trim(s@),
{
    let n = s.unicode_len();
    let mut i: usize = 0;
    while i < n && is_whitespace_char(s.get_char(i))
        invariant
            n == s@.len(),
            i <= n,
            forall|k: int| 0 <= k < i ==> is_whitespace(#[trigger] s@[k]),
        decreases n - i,
    {
        i = i + 1;
    }
    let mut j: usize = n;
    while j > i && is_whitespace_char(s.get_char(j - 1))
        invariant
            n == s@.len(),
            i <= j <= n,
            forall|k: int| j <= k < n ==> is_whitespace(#[trigger] s@[k]),
        decreases j,
    {
        j = j - 1;
    }
    proof {
        lemma_trim_start_at(s@, i as int);
        let u = s@.skip(i as int);
        assert forall|k: int| (j - i) <= k < u.len() implies is_whitespace(#[trigger] u[k]) by {
            assert(u[k] == s@[k + i]);
        }
        if j > i {
            assert(u[j - i - 1] == s@[j - 1]);
        }
        lemma_trim_end_at(u, (j - i) as int);
        assert(u.take((j - i) as int) =~= s@.subrange(i as int, j as int));
    }
    s.substring_char(i, j)
}

/// Whether the text holds a double space or a whitespace character other
/// than the plain space.
fn has_collapsible_whitespace(t: &str) -> (r: bool)
    ensures
        r == needs_collapse(t@),
{
    let n = t.unicode_len();
    let mut k: usize = 0;
    while k < n
        invariant
            n == t@.len(),
            k <= n,
            forall|m: int|
                0 <= m < k ==> !(is_other_whitespace(#[trigger] t@[m]) || (m + 1
                    < t@.len() && t@[m] == ' ' && t@[m + 1] == ' ')),
        decreases n - k,
    {
        let c = t.get_char(k);
        if c != ' ' && is_whitespace_char(c) {
            return true;
        }
        if c == ' ' && k + 1 < n && t.get_char(k + 1) == ' ' {
            return true;
        }
        k = k + 1;
    }
    false
}

/// Collapse every whitespace run of a trimmed text to one space.
fn collapse_whitespace(t: &str) -> (out: String)
    ensures
        out@ == collapse(t@),
{
    let n = t.unicode_len();
    let mut out = String::new();
    let mut after_space = false;
    let mut i: usize = 0;
    proof {
        reveal_strlit(" ");
        assert(t@.skip(0) =~= t@);
    }
    while i < n
        invariant
            n == t@.len(),
            i <= n,
            out@ + collapse_from(t@.skip(i as int), after_space) == collapse(t@),
            " "@ == seq![' '],
        decreases n - i,
    {
        let c = t.get_char(i);
        let ghost rest = t@.skip(i as int);
        proof {
            assert(rest[0] == c);
            assert(rest.drop_first() =~= t@.skip(i + 1));
        }
        if is_whitespace_char(c) {
            if !after_space {
                out.append(" ");
            }
            after_space = true;
        } else {
            out.append(t.substring_char(i, i + 1));
            after_space = false;
        }
        proof {
            assert(out@ + collapse_from(t@.skip(i + 1), after_space) =~= collapse(t@));
        }
        i = i + 1;
    }
    proof {
        assert(t@.skip(n as int) =~= Seq::<char>::empty());
        assert(out@ =~= collapse(t@));
    }
    out
}

/// Sanitize a label value for Prometheus.
///
/// - `unknown` for a missing or blank value;
/// - surrounding whitespace trimmed; every inner run of whitespace
///   collapsed to one ASCII space;
/// - at most [`MAX_LABEL_CHARS`] characters;
/// - borrowed when no new string is needed.
pub fn sanitize_label(value: Option<&str>) -> (r: Cow<'_, str>)
    ensures
        r@ == sanitized(opt_view(value)),
        (r matches Cow::Borrowed(_)) <==> sanitized_borrows(opt_view(value)),
{
    proof {
        reveal_strlit("unknown");
    }
    let s = match value {
        None => {
            return Cow::Borrowed("unknown");
        },
        Some(s) => s,
    };
    let trimmed = trim_str(s);
    if trimmed.is_empty() {
        return Cow::Borrowed("unknown");
    }
    let collapse_needed = has_collapsible_whitespace(trimmed);
    let char_count = trimmed.unicode_len();
    if !collapse_needed && char_count <= MAX_LABEL_CHARS {
        return Cow::Borrowed(trimmed);
    }
    let out = collapse_whitespace(trimmed);
    if out.as_str().unicode_len() > MAX_LABEL_CHARS {
        let cut = out.as_str().substring_char(0, MAX_LABEL_CHARS);
        proof {
            assert(cut@ =~= out@.take(64));
        }
        Cow::Owned(cut.to_owned())
    } else {
        Cow::Owned(out)
    }
}

/// Whether the text holds an ASCII uppercase letter.
fn has_ascii_uppercase(t: &str) -> (r: bool)
    ensures
        r == exists|k: int| 0 <= k < t@.len() && is_ascii_upper(#[trigger] t@[k]),
{
    let n = t.unicode_len();
    let mut k: usize = 0;
    while k < n
        invariant
            n == t@.len(),
            k <= n,
            forall|m: int| 0 <= m < k ==> !is_ascii_upper(#[trigger] t@[m]),
        decreases n - k,
    {
        let c = t.get_char(k);
        if 'A' <= c && c <= 'Z' {
            return true;
        }
        k = k + 1;
    }
    false
}

/// `str::to_ascii_lowercase`.
pub fn to_ascii_lowercase(t: &str) -> (out: String)
    ensures
        out@ == ascii_lower(t@),
{
    let alphabet = "abcdefghijklmnopqrstuvwxyz";
    proof {
        reveal_strlit("abcdefghijklmnopqrstuvwxyz");
    }
    let n = t.unicode_len();
    let mut out = String::new();
    let mut i: usize = 0;
    while i < n
        invariant
            n == t@.len(),
            i <= n,
            out@ == ascii_lower(t@.take(i as int)),
            alphabet@ == "abcdefghijklmnopqrstuvwxyz"@,
            alphabet@.len() == 26,
            forall|k: int| 0 <= k < 26 ==> (#[trigger] alphabet@[k]) as u32 == 0x61 + k,
        decreases n - i,
    {
        let c = t.get_char(i);
        if 'A' <= c && c <= 'Z' {
            let k = (c as u32 - 0x41) as usize;
            let lower = alphabet.substring_char(k, k + 1);
            proof {
                let a = alphabet@[k as int];
                assert(a as u32 == c as u32 + 32);
                vstd::utf8::char_u32_cast(a, ((c as u32) + 32) as u32);
                assert(lower@ =~= seq![ascii_lower_char(c)]);
            }
            out.append(lower);
        } else {
            out.append(t.substring_char(i, i + 1));
        }
        assert(t@.take(i + 1) =~= t@.take(i as int).push(c));
        assert(out@ =~= ascii_lower(t@.take(i + 1)));
        i = i + 1;
    }
    assert(t@.take(n as int) =~= t@);
    out
}

/// The text of a label, borrowed from either form.
pub fn cow_as_str<'a>(c: &'a Cow<'a, str>) -> (s: &'a str)
    ensures
        s@ == c@,
{
    match c {
        Cow::Borrowed(b) => b,
        Cow::Owned(o) => o.as_str(),
    }
}

/// Like [`sanitize_label`], with ASCII letters lowercased, so that codec
/// strings such as `H264` and `h264` share one label series.
pub fn sanitize_codec_label(value: Option<&str>) -> (r: Cow<'_, str>)
    ensures
        r@ == ascii_lower(sanitized(opt_view(value))),
        (r matches Cow::Borrowed(_)) <==> (sanitized_borrows(opt_view(value)) && !exists|k: int|
            0 <= k < sanitized(opt_view(value)).len() && is_ascii_upper(
                #[trigger] sanitized(opt_view(value))[k],
            )),
{
    let label = sanitize_label(value);
    let upper = has_ascii_uppercase(cow_as_str(&label));
    if upper {
        Cow::Owned(to_ascii_lowercase(cow_as_str(&label)))
    } else {
        proof {
            assert(ascii_lower(label@) =~= label@);
        }
        label
    }
}


proof fn lemma_lower_char_class(c: char)
    ensures
        is_whitespace(ascii_lower_char(c)) == is_whitespace(c),
        is_other_whitespace(ascii_lower_char(c)) == is_other_whitespace(c),
        (ascii_lower_char(c) == ' ') == (c == ' '),
{
    if is_ascii_upper(c) {
        assert(ascii_lower_char(c) as u32 == c as u32 + 32);
    }
}

proof fn lemma_lower_concat(a: Seq<char>, b: Seq<char>)
    ensures
        ascii_lower(a + b) == ascii_lower(a) + ascii_lower(b),
{
    assert(ascii_lower(a + b) =~= ascii_lower(a) + ascii_lower(b));
}

proof fn lemma_lower_ends(s: Seq<char>)
    requires
        s.len() > 0,
    ensures
        ascii_lower(s.drop_first()) == ascii_lower(s).drop_first(),
        ascii_lower(s.drop_last()) == ascii_lower(s).drop_last(),
{
    assert(ascii_lower(s.drop_first()) =~= ascii_lower(s).drop_first());
    assert(ascii_lower(s.drop_last()) =~= ascii_lower(s).drop_last());
}

proof fn lemma_trim_start_lower(s: Seq<char>)
    ensures
        trim_start(ascii_lower(s)) == ascii_lower(trim_start(s)),
    decreases s.len(),
{
    if s.len() > 0 {
        lemma_lower_char_class(s[0]);
        lemma_lower_ends(s);
        lemma_trim_start_lower(s.drop_first());
    }
}

proof fn lemma_trim_end_lower(s: Seq<char>)
    ensures
        trim_end(ascii_lower(s)) == ascii_lower(trim_end(s)),
    decreases s.len(),
{
    if s.len() > 0 {
        lemma_lower_char_class(s.last());
        lemma_lower_ends(s);
        lemma_trim_end_lower(s.drop_last());
    }
}

proof fn lemma_needs_collapse_lower(t: Seq<char>)
    ensures
        needs_collapse(ascii_lower(t)) == needs_collapse(t),
{
    let u = ascii_lower(t);
    if needs_collapse(t) {
        let k = choose|k: int|
            0 <= k < t.len() && (is_other_whitespace(#[trigger] t[k]) || (k + 1
                < t.len() && t[k] == ' ' && t[k + 1] == ' '));
        lemma_lower_char_class(t[k]);
        if k + 1 < t.len() {
            lemma_lower_char_class(t[k + 1]);
        }
        assert(is_other_whitespace(u[k]) || (k + 1 < u.len() && u[k] == ' ' && u[k + 1]
            == ' '));
    }
    if needs_collapse(u) {
        let k = choose|k: int|
            0 <= k < u.len() && (is_other_whitespace(#[trigger] u[k]) || (k + 1
                < u.len() && u[k] == ' ' && u[k + 1] == ' '));
        lemma_lower_char_class(t[k]);
        if k + 1 < t.len() {
            lemma_lower_char_class(t[k + 1]);
        }
        assert(is_other_whitespace(t[k]) || (k + 1 < t.len() && t[k] == ' ' && t[k + 1]
            == ' '));
    }
}

proof fn lemma_collapse_lower(s: Seq<char>, after_space: bool)
    ensures
        collapse_from(ascii_lower(s), after_space) == ascii_lower(collapse_from(s, after_space)),
    decreases s.len(),
{
    if s.len() > 0 {
        lemma_lower_char_class(s[0]);
        lemma_lower_ends(s);
        lemma_collapse_lower(s.drop_first(), true);
        lemma_collapse_lower(s.drop_first(), false);
        let rest_space = collapse_from(s.drop_first(), true);
        let rest_word = collapse_from(s.drop_first(), false);
        if is_whitespace(s[0]) {
            let head: Seq<char> = if after_space {
                Seq::empty()
            } else {
                seq![' ']
            };
            lemma_lower_concat(head, rest_space);
            assert(ascii_lower(head) =~= head);
        } else {
            lemma_lower_concat(seq![s[0]], rest_word);
            assert(ascii_lower(seq![s[0]]) =~= seq![ascii_lower(s)[0]]);
        }
    }
}

/// Lowercasing commutes with sanitizing: trimming, collapsing and
/// truncating look only at whitespace and length, which lowercasing keeps.
proof fn lemma_sanitized_lower(v: Seq<char>)
    ensures
        ascii_lower(sanitized(Some(v))) == sanitized(Some(ascii_lower(v))),
{
    reveal_strlit("unknown");
    assert(ascii_lower("unknown"@) =~= "unknown"@);
    let t = trim(v);
    lemma_trim_start_lower(v);
    lemma_trim_end_lower(trim_start(v));
    assert(trim(ascii_lower(v)) == ascii_lower(t));
    lemma_needs_collapse_lower(t);
    lemma_collapse_lower(t, false);
    let c = collapse(t);
    if c.len() > 64 {
        assert(ascii_lower(c.take(64)) =~= ascii_lower(c).take(64));
    }
}

/// Codec names that differ only in the case of ASCII letters get the same
/// label, so `H264` and `h264` count in one series.
pub proof fn lemma_codec_label_ignores_case(a: Seq<char>, b: Seq<char>)
    requires
        ascii_lower(a) == ascii_lower(b),
    ensures
        ascii_lower(sanitized(Some(a))) == ascii_lower(sanitized(Some(b))),
{
    lemma_sanitized_lower(a);
    lemma_sanitized_lower(b);
}

/// A sanitized label is never empty and holds at most
/// [`MAX_LABEL_CHARS`] characters.
pub proof fn lemma_sanitized_length(value: Option<Seq<char>>)
    ensures
        1 <= sanitized(value).len() <= 64,
{
    reveal_strlit("unknown");
    if let Some(s) = value {
        let t = trim(s);
        if t.len() > 0 && needs_rewrite(t) {
            assert(collapse(t).len() >= 1);
        }
    }
}

/// A text with no whitespace but single plain spaces is its own collapsed
/// form (from a position that follows a collapsed run, the text must not
/// start with whitespace).
proof fn lemma_collapse_clean(s: Seq<char>, after_space: bool)
    requires
        !needs_collapse(s),
        after_space ==> (s.len() == 0 || !is_whitespace(s[0])),
    ensures
        collapse_from(s, after_space) == s,
    decreases s.len(),
{
    if s.len() > 0 {
        let r = s.drop_first();
        assert(!needs_collapse(r)) by {
            if needs_collapse(r) {
                let k = choose|k: int|
                    0 <= k < r.len() && (is_other_whitespace(#[trigger] r[k]) || (k + 1 < r.len()
                        && r[k] == ' ' && r[k + 1] == ' '));
                assert(s[k + 1] == r[k]);
                assert(is_other_whitespace(s[k + 1]) || (k + 2 < s.len() && s[k + 1] == ' ' && s[k
                    + 2] == ' '));
            }
        }
        if is_whitespace(s[0]) {
            assert(!is_other_whitespace(s[0]));
            assert(s[0] == ' ');
            if r.len() > 0 && is_whitespace(r[0]) {
                assert(!is_other_whitespace(s[1]));
                assert(s[1] == ' ');
            }
            lemma_collapse_clean(r, true);
            assert(collapse_from(s, after_space) =~= s);
        } else {
            lemma_collapse_clean(r, false);
            assert(collapse_from(s, after_space) =~= s);
        }
    }
}

/// A label is the value's whitespace-separated words joined by one ASCII
/// space and cut to [`MAX_LABEL_CHARS`] characters, or `unknown` when the
/// value is missing or blank; when the value is already in that form
/// (trimmed, single spaces, short), the trimmed text itself is the label.
pub proof fn lemma_sanitized_is_joined_words(value: Option<Seq<char>>)
    ensures
        sanitized(value) == match value {
            None => "unknown"@,
            Some(s) => if trim(s).len() == 0 {
                "unknown"@
            } else {
                truncate_label(collapse(trim(s)))
            },
        },
{
    if let Some(s) = value {
        let t = trim(s);
        if t.len() > 0 && !needs_rewrite(t) {
            lemma_collapse_clean(t, false);
        }
    }
}

} // verus!
