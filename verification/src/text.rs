//! Verified text utilities: whitespace handling, ASCII case folding,
//! trimming, whitespace normalization, truncation to a number of code
//! points, secret masking, and decimal rendering of integers.
//!
//! All functions state their results over `Seq<char>` views.

use vstd::prelude::*;

verus! {

/// A whitespace character, following the Unicode `White_Space` property
/// (the set recognized by `char::is_whitespace`).
pub open spec fn is_ws(c: char) -> bool {
    c == '\u{0009}' || c == '\u{000A}' || c == '\u{000B}' || c == '\u{000C}'
        || c == '\u{000D}' || c == '\u{0020}' || c == '\u{0085}' || c == '\u{00A0}'
        || c == '\u{1680}' || ('\u{2000}' <= c && c <= '\u{200A}') || c == '\u{2028}'
        || c == '\u{2029}' || c == '\u{202F}' || c == '\u{205F}' || c == '\u{3000}'
}

/// Runtime test for [`is_ws`].
pub fn is_ws_char(c: char) -> (r: bool)
    ensures
        r == is_ws(c),
{
    c == '\u{0009}' || c == '\u{000A}' || c == '\u{000B}' || c == '\u{000C}'
        || c == '\u{000D}' || c == '\u{0020}' || c == '\u{0085}' || c == '\u{00A0}'
        || c == '\u{1680}' || ('\u{2000}' <= c && c <= '\u{200A}') || c == '\u{2028}'
        || c == '\u{2029}' || c == '\u{202F}' || c == '\u{205F}' || c == '\u{3000}'
}

/// ASCII lower-casing of one character; non-ASCII-uppercase characters are
/// unchanged.
pub open spec fn lower_char(c: char) -> char {
    if 'A' <= c && c <= 'Z' {
        (((c as u8) + 32) as char)
    } else {
        c
    }
}

/// The sequence with every character ASCII-lower-cased.
pub open spec fn lower_seq(s: Seq<char>) -> Seq<char> {
    s.map_values(|c: char| lower_char(c))
}

/// Runtime ASCII lower-casing of one character.
pub fn lower_char_exec(c: char) -> (r: char)
    ensures
        r == lower_char(c),
{
    if 'A' <= c && c <= 'Z' {
        ((c as u8) + 32) as char
    } else {
        c
    }
}

/// Relies on `String::push` of std: appends one character to the string.
#[verifier::external_body]
pub fn push_char(s: &mut String, c: char)
    ensures
        final(s)@ == old(s)@.push(c),
{
    s.push(c);
}

/// Character-for-character equality of two string slices.
pub fn str_eq(a: &str, b: &str) -> (r: bool)
    ensures
        r == (a@ == b@),
{
    let alen = a.unicode_len();
    let blen = b.unicode_len();
    if alen != blen {
        assert(a@ != b@);
        return false;
    }
    let mut i: usize = 0;
    while i < alen
        invariant
            alen == a@.len(),
            alen == b@.len(),
            i <= alen,
            forall|k: int| 0 <= k < i ==> a@[k] == b@[k],
        decreases alen - i,
    {
        if a.get_char(i) != b.get_char(i) {
            return false;
        }
        i += 1;
    }
    proof {
        assert(a@ =~= b@);
    }
    true
}

/// Runtime ASCII lower-casing of a whole string.
pub fn lower_str(s: &str) -> (r: String)
    ensures
        r@ == lower_seq(s@),
{
    let len = s.unicode_len();
    let mut out = String::new();
    let mut i: usize = 0;
    while i < len
        invariant
            len == s@.len(),
            i <= len,
            out@ == lower_seq(s@.take(i as int)),
        decreases len - i,
    {
        let c = s.get_char(i);
        push_char(&mut out, lower_char_exec(c));
        proof {
            assert(s@.take(i + 1 as int) =~= s@.take(i as int).push(s@[i as int]));
            assert(lower_seq(s@.take(i + 1 as int)) =~= lower_seq(s@.take(i as int)).push(
                lower_char(s@[i as int]),
            ));
        }
        i += 1;
    }
    proof {
        assert(s@.take(len as int) =~= s@);
    }
    out
}

/// Number of leading whitespace characters.
pub open spec fn ws_prefix_len(s: Seq<char>) -> int
    decreases s.len(),
{
    if s.len() == 0 || !is_ws(s[0]) {
        0
    } else {
        1 + ws_prefix_len(s.drop_first())
    }
}

/// Number of trailing whitespace characters.
pub open spec fn ws_suffix_len(s: Seq<char>) -> int
    decreases s.len(),
{
    if s.len() == 0 || !is_ws(s[s.len() - 1]) {
        0
    } else {
        1 + ws_suffix_len(s.drop_last())
    }
}

/// The sequence with leading and trailing whitespace removed.
pub open spec fn trim_seq(s: Seq<char>) -> Seq<char> {
    let t = s.skip(ws_prefix_len(s));
    t.take(t.len() - ws_suffix_len(t))
}

/// First index at or after `from` holding a non-whitespace character, or the
/// string's length when there is none.
pub fn scan_non_ws(s: &str, from: usize) -> (r: usize)
    requires
        from <= s@.len(),
    ensures
        from <= r <= s@.len(),
        forall|k: int| from <= k < r ==> is_ws(s@[k]),
        r < s@.len() ==> !is_ws(s@[r as int]),
{
    let len = s.unicode_len();
    let mut i = from;
    while i < len
        invariant
            len == s@.len(),
            from <= i <= len,
            forall|k: int| from <= k < i ==> is_ws(s@[k]),
        decreases len - i,
    {
        if !is_ws_char(s.get_char(i)) {
            return i;
        }
        i += 1;
    }
    i
}

/// `ws_prefix_len` of a suffix, computed from a scan's stopping point.
pub proof fn lemma_ws_prefix_len_from_scan(s: Seq<char>, m: int)
    requires
        0 <= m <= s.len(),
        forall|k: int| 0 <= k < m ==> is_ws(s[k]),
        m < s.len() ==> !is_ws(s[m]),
    ensures
        ws_prefix_len(s) == m,
    decreases s.len(),
{
    if m > 0 {
        assert(is_ws(s[0]));
        lemma_ws_prefix_len_from_scan(s.drop_first(), m - 1);
    }
}

/// `ws_suffix_len` from a scan's stopping point (counted from the end).
proof fn lemma_ws_suffix_len_from_scan(s: Seq<char>, m: int)
    requires
        0 <= m <= s.len(),
        forall|k: int| s.len() - m <= k < s.len() ==> is_ws(s[k]),
        m < s.len() ==> !is_ws(s[s.len() - 1 - m]),
    ensures
        ws_suffix_len(s) == m,
    decreases s.len(),
{
    if m > 0 {
        assert(is_ws(s[s.len() - 1]));
        lemma_ws_suffix_len_from_scan(s.drop_last(), m - 1);
    }
}

/// The slice of `s` with leading and trailing whitespace removed.
pub fn trim_str<'a>(s: &'a str) -> (r: &'a str)
    ensures
        r@ == trim_seq(s@),
{
    let len = s.unicode_len();
    let start = scan_non_ws(s, 0);
    proof {
        lemma_ws_prefix_len_from_scan(s@, start as int);
    }
    if start == len {
        proof {
            assert(trim_seq(s@) =~= s@.skip(start as int));
        }
        return s.substring_char(start, len);
    }
    // scan backwards for the last non-whitespace character
    let mut end = len;
    while end > start
        invariant
            len == s@.len(),
            start <= end <= len,
            start < len,
            ws_prefix_len(s@) == start as int,
            !is_ws(s@[start as int]),
            forall|k: int| end <= k < len ==> is_ws(s@[k]),
        decreases end,
    {
        if !is_ws_char(s.get_char(end - 1)) {
            proof {
                let t = s@.skip(start as int);
                assert forall|k: int| t.len() - (len - end) <= k < t.len() implies is_ws(
                    t[k],
                ) by {
                    assert(t[k] == s@[k + start]);
                }
                assert(t[t.len() - 1 - (len - end)] == s@[end - 1]);
                lemma_ws_suffix_len_from_scan(t, len - end);
                assert(ws_suffix_len(t) == len - end);
                assert(t.len() - ws_suffix_len(t) == end - start);
                assert(ws_prefix_len(s@) == start as int);
                assert(trim_seq(s@) == t.take(t.len() - ws_suffix_len(t)));
                assert(trim_seq(s@) == t.take(end - start));
                assert(t.take(end - start) =~= s@.subrange(start as int, end as int));
            }
            return s.substring_char(start, end);
        }
        end -= 1;
    }
    proof {
        let t = s@.skip(start as int);
        assert(is_ws(s@[start as int]));  // contradiction: start < len scanned non-ws
        assert(false);
    }
    s.substring_char(start, len)
}

/// `***` followed by the last (up to) four characters of the secret.
pub open spec fn mask_spec(s: Seq<char>) -> Seq<char> {
    let keep = if s.len() < 4 {
        s.len() as int
    } else {
        4
    };
    seq!['*', '*', '*'] + s.skip(s.len() - keep)
}

/// Masks a secret: `***` plus the last (up to) four characters.
pub fn mask_secret_chars(secret: &str) -> (r: String)
    ensures
        r@ == mask_spec(secret@),
{
    let len = secret.unicode_len();
    let keep: usize = if len < 4 {
        len
    } else {
        4
    };
    let tail = secret.substring_char(len - keep, len);
    let mut out = String::new();
    push_char(&mut out, '*');
    push_char(&mut out, '*');
    push_char(&mut out, '*');
    let r = out.concat(tail);
    proof {
        assert(r@ =~= mask_spec(secret@));
    }
    r
}

/// Decimal digit character of a value below ten.
pub open spec fn dec_digit(n: int) -> char {
    ((n + 0x30) as u8) as char
}

/// Decimal rendering of a natural number, most significant digit first.
pub open spec fn dec_str(n: int) -> Seq<char>
    decreases n,
{
    if n < 0 {
        Seq::empty()
    } else if n < 10 {
        seq![dec_digit(n)]
    } else {
        dec_str(n / 10) + seq![dec_digit(n % 10)]
    }
}

/// Renders a number in decimal.
pub fn u64_to_string(n: u64) -> (r: String)
    ensures
        r@ == dec_str(n as int),
    decreases n,
{
    if n < 10 {
        let mut out = String::new();
        push_char(&mut out, ((n as u8) + 0x30) as char);
        proof {
            assert(out@ =~= dec_str(n as int));
        }
        out
    } else {
        let mut head = u64_to_string(n / 10);
        push_char(&mut head, (((n % 10) as u8) + 0x30) as char);
        proof {
            assert(head@ =~= dec_str(n as int));
        }
        head
    }
}

/// Renders a usize in decimal.
pub fn usize_to_string(n: usize) -> (r: String)
    ensures
        r@ == dec_str(n as int),
{
    u64_to_string(n as u64)
}

/// Length of the leading run of non-whitespace characters.
pub open spec fn word_prefix_len(s: Seq<char>) -> int
    decreases s.len(),
{
    if s.len() == 0 || is_ws(s[0]) {
        0
    } else {
        1 + word_prefix_len(s.drop_first())
    }
}

/// The maximal whitespace-free words of a sequence, in order.
pub open spec fn words(s: Seq<char>) -> Seq<Seq<char>>
    decreases s.len(),
    via words_decreases
{
    if s.len() == 0 {
        Seq::empty()
    } else if is_ws(s[0]) {
        words(s.drop_first())
    } else {
        seq![s.take(word_prefix_len(s))] + words(s.skip(word_prefix_len(s)))
    }
}

#[via_fn]
proof fn words_decreases(s: Seq<char>) {
    if s.len() > 0 && !is_ws(s[0]) {
        lemma_word_prefix_len_bound(s);
    }
}

/// The given words joined by single spaces.
pub open spec fn join_words(ws: Seq<Seq<char>>) -> Seq<char>
    decreases ws.len(),
{
    if ws.len() == 0 {
        Seq::empty()
    } else if ws.len() == 1 {
        ws[0]
    } else {
        ws[0] + seq![' '] + join_words(ws.drop_first())
    }
}

/// Whitespace-normalized form: words joined by single spaces. Leading and
/// trailing whitespace disappears; inner whitespace runs become one space.
pub open spec fn squash_spec(s: Seq<char>) -> Seq<char> {
    join_words(words(s))
}

pub proof fn lemma_word_prefix_len_bound(s: Seq<char>)
    ensures
        0 <= word_prefix_len(s) <= s.len(),
        forall|k: int| 0 <= k < word_prefix_len(s) ==> !is_ws(s[k]),
        word_prefix_len(s) < s.len() ==> is_ws(s[word_prefix_len(s)]),
    decreases s.len(),
{
    if s.len() > 0 && !is_ws(s[0]) {
        lemma_word_prefix_len_bound(s.drop_first());
        assert forall|k: int| 0 <= k < word_prefix_len(s) implies !is_ws(s[k]) by {
            if k > 0 {
                assert(!is_ws(s.drop_first()[k - 1]));
            }
        }
    }
}

/// `word_prefix_len` from a scan's stopping point.
proof fn lemma_word_prefix_len_from_scan(s: Seq<char>, m: int)
    requires
        0 <= m <= s.len(),
        forall|k: int| 0 <= k < m ==> !is_ws(s[k]),
        m < s.len() ==> is_ws(s[m]),
    ensures
        word_prefix_len(s) == m,
    decreases s.len(),
{
    if m > 0 {
        assert(!is_ws(s[0]));
        lemma_word_prefix_len_from_scan(s.drop_first(), m - 1);
    }
}

/// Every word is non-empty.
pub proof fn lemma_words_nonempty(s: Seq<char>)
    ensures
        forall|k: int| 0 <= k < words(s).len() ==> #[trigger] words(s)[k].len() > 0,
    decreases s.len(),
{
    if s.len() == 0 {
    } else if is_ws(s[0]) {
        lemma_words_nonempty(s.drop_first());
        assert(words(s) == words(s.drop_first()));
    } else {
        lemma_word_prefix_len_bound(s);
        lemma_words_nonempty(s.skip(word_prefix_len(s)));
        let w = word_prefix_len(s);
        assert(words(s) == seq![s.take(w)] + words(s.skip(w)));
        assert forall|k: int| 0 <= k < words(s).len() implies #[trigger] words(s)[k].len()
            > 0 by {
            if k == 0 {
                assert(words(s)[0] == s.take(w));
            } else {
                assert(words(s)[k] == words(s.skip(w))[k - 1]);
            }
        }
    }
}

/// Joining non-empty words yields an empty sequence only for no words.
pub proof fn lemma_join_words_empty(ws: Seq<Seq<char>>)
    requires
        forall|k: int| 0 <= k < ws.len() ==> #[trigger] ws[k].len() > 0,
    ensures
        join_words(ws).len() == 0 <==> ws.len() == 0,
    decreases ws.len(),
{
    if ws.len() > 1 {
        lemma_join_words_empty(ws.drop_first());
    }
}

/// First index at or after `from` holding a whitespace character, or the
/// string's length when there is none.
fn scan_ws(s: &str, from: usize) -> (r: usize)
    requires
        from <= s@.len(),
    ensures
        from <= r <= s@.len(),
        forall|k: int| from <= k < r ==> !is_ws(s@[k]),
        r < s@.len() ==> is_ws(s@[r as int]),
{
    let len = s.unicode_len();
    let mut i = from;
    while i < len
        invariant
            len == s@.len(),
            from <= i <= len,
            forall|k: int| from <= k < i ==> !is_ws(s@[k]),
        decreases len - i,
    {
        if is_ws_char(s.get_char(i)) {
            return i;
        }
        i += 1;
    }
    i
}

/// Skipping one leading whitespace character keeps the word list.
proof fn lemma_words_skip_ws(s: Seq<char>, i: int)
    requires
        0 <= i <= s.len(),
        forall|k: int| 0 <= k < i ==> is_ws(s[k]),
    ensures
        words(s) == words(s.skip(i)),
    decreases i,
{
    if i > 0 {
        assert(is_ws(s[0]));
        assert(s.drop_first() =~= s.skip(1));
        assert forall|k: int| 0 <= k < i - 1 implies is_ws(s.skip(1)[k]) by {
            assert(s.skip(1)[k] == s[k + 1]);
        }
        lemma_words_skip_ws(s.skip(1), i - 1);
        assert(s.skip(1).skip(i - 1) =~= s.skip(i));
    } else {
        assert(s.skip(0) =~= s);
    }
}

/// Whitespace-normalizes the suffix of `s` beginning at `i`.
fn squash_from(s: &str, i: usize) -> (r: String)
    requires
        i <= s@.len(),
    ensures
        r@ == squash_spec(s@.skip(i as int)),
    decreases s@.len() - i,
{
    let start = scan_non_ws(s, i);
    proof {
        lemma_words_skip_ws(s@.skip(i as int), start - i);
        assert(s@.skip(i as int).skip(start - i) =~= s@.skip(start as int));
    }
    let len = s.unicode_len();
    if start == len {
        proof {
            assert(s@.skip(start as int) =~= Seq::<char>::empty());
        }
        return String::new();
    }
    let wend = scan_ws(s, start);
    proof {
        let t = s@.skip(start as int);
        assert forall|k: int| 0 <= k < wend - start implies !is_ws(t[k]) by {
            assert(t[k] == s@[k + start]);
        }
        if wend < len {
            assert(t[wend - start] == s@[wend as int]);
        }
        lemma_word_prefix_len_from_scan(t, wend - start);
        assert(t.take(wend - start) =~= s@.subrange(start as int, wend as int));
        assert(t.skip(wend - start) =~= s@.skip(wend as int));
    }
    let word = s.substring_char(start, wend);
    let rest = squash_from(s, wend);
    proof {
        lemma_words_nonempty(s@.skip(wend as int));
        lemma_join_words_empty(words(s@.skip(wend as int)));
    }
    if rest.as_str().unicode_len() == 0 {
        proof {
            let t = s@.skip(start as int);
            assert(words(t) =~= seq![word@] + words(s@.skip(wend as int)));
            assert(words(t) =~= seq![word@]);
        }
        String::from_str(word)
    } else {
        let mut out = String::from_str(word);
        push_char(&mut out, ' ');
        let out2 = out.concat(rest.as_str());
        proof {
            let t = s@.skip(start as int);
            assert(words(t) =~= seq![word@] + words(s@.skip(wend as int)));
            assert(words(t).drop_first() =~= words(s@.skip(wend as int)));
            assert(out2@ =~= squash_spec(t));
        }
        out2
    }
}

/// Collapses every whitespace run to one space and trims the ends.
pub fn squash_ws(s: &str) -> (r: String)
    ensures
        r@ == squash_spec(s@),
{
    let r = squash_from(s, 0);
    proof {
        assert(s@.skip(0) =~= s@);
    }
    r
}

/// Whitespace-normalized, ASCII-lower-cased comparison form of a text.
pub open spec fn normalize_spec(s: Seq<char>) -> Seq<char> {
    squash_spec(lower_seq(s))
}

/// Lower-cases and whitespace-normalizes a text, the form used to compare
/// roles and texts.
pub fn normalize_text(value: &str) -> (r: String)
    ensures
        r@ == normalize_spec(value@),
{
    let lowered = lower_str(value);
    squash_ws(lowered.as_str())
}

/// Trimmed text, cut to at most `max_chars` code points with `...` appended
/// when it was longer.
pub open spec fn truncate_spec(s: Seq<char>, max_chars: int) -> Seq<char> {
    let t = trim_seq(s);
    if t.len() <= max_chars {
        t
    } else {
        t.take(max_chars) + seq!['.', '.', '.']
    }
}

/// Trims a text and cuts it to at most `max_chars` code points, appending
/// `...` when something was cut.
pub fn truncate(text: &str, max_chars: usize) -> (r: String)
    ensures
        r@ == truncate_spec(text@, max_chars as int),
{
    let trimmed = trim_str(text);
    let tlen = trimmed.unicode_len();
    if tlen <= max_chars {
        String::from_str(trimmed)
    } else {
        let head = trimmed.substring_char(0, max_chars);
        let mut out = String::from_str(head);
        push_char(&mut out, '.');
        push_char(&mut out, '.');
        push_char(&mut out, '.');
        proof {
            assert(out@ =~= truncate_spec(text@, max_chars as int));
        }
        out
    }
}

/// `needle` occurs contiguously in `hay`.
pub open spec fn contains_seq(hay: Seq<char>, needle: Seq<char>) -> bool {
    exists|i: int|
        0 <= i <= hay.len() - needle.len() && #[trigger] hay.subrange(i, i + needle.len())
            == needle
}

/// Substring search.
pub fn str_contains(hay: &str, needle: &str) -> (r: bool)
    ensures
        r == contains_seq(hay@, needle@),
{
    let hlen = hay.unicode_len();
    let nlen = needle.unicode_len();
    if nlen > hlen {
        assert(!contains_seq(hay@, needle@));
        return false;
    }
    if nlen == 0 {
        proof {
            assert(hay@.subrange(0, 0 + needle@.len() as int) =~= needle@);
        }
        return true;
    }
    let mut i: usize = 0;
    while i <= hlen - nlen
        invariant
            hlen == hay@.len(),
            nlen == needle@.len(),
            1 <= nlen <= hlen,
            i <= hlen - nlen + 1,
            forall|j: int| 0 <= j < i ==> #[trigger] hay@.subrange(j, j + nlen) != needle@,
        decreases hlen - i,
    {
        let cand = hay.substring_char(i, i + nlen);
        if str_eq(cand, needle) {
            assert(contains_seq(hay@, needle@));
            return true;
        }
        i += 1;
    }
    proof {
        assert(!contains_seq(hay@, needle@));
    }
    false
}

/// The sequence starts with the given prefix.
pub open spec fn starts_with_seq(s: Seq<char>, prefix: Seq<char>) -> bool {
    s.len() >= prefix.len() && s.take(prefix.len() as int) == prefix
}

/// Prefix test.
pub fn str_starts_with(s: &str, prefix: &str) -> (r: bool)
    ensures
        r == starts_with_seq(s@, prefix@),
{
    let slen = s.unicode_len();
    let plen = prefix.unicode_len();
    if plen > slen {
        return false;
    }
    let head = s.substring_char(0, plen);
    str_eq(head, prefix)
}

} // verus!
