//! Laws of texts and bytes: what trimming leaves, what a search finds, what a number is
//! written as and read from.
use crate::{bytes, text};
use vstd::prelude::*;

verus! {

/// Trimming drops whitespace at either end, all of it, and nothing else.
pub proof fn law_trim_drops_whitespace_at_the_ends(s: &[char], out: &[char])
    requires
        call_ensures(text::trim, (s,), out),
    ensures
        out@ == text::trimmed(s@),
        exists|a: int, b: int| #[trigger] inner(s@, a, b) && out@ == s@.subrange(a, b),
        out@.len() > 0 ==> !text::is_whitespace_char(out@[0]) && !text::is_whitespace_char(
            out@[out@.len() - 1],
        ),
{
    lemma_trimmed(s@);
}

/// Outside of the range there is nothing but whitespace.
pub open spec fn inner(s: Seq<char>, a: int, b: int) -> bool {
    &&& 0 <= a <= b <= s.len()
    &&& forall|i: int| 0 <= i < a ==> text::is_whitespace_char(#[trigger] s[i])
    &&& forall|i: int| b <= i < s.len() ==> text::is_whitespace_char(#[trigger] s[i])
}

proof fn lemma_trimmed_start(s: Seq<char>) -> (a: int)
    ensures
        0 <= a <= s.len(),
        text::trimmed_start(s) == s.skip(a),
        forall|i: int| 0 <= i < a ==> text::is_whitespace_char(#[trigger] s[i]),
        a < s.len() ==> !text::is_whitespace_char(s[a]),
    decreases s.len(),
{
    if s.len() > 0 && text::is_whitespace_char(s[0]) {
        let rest = s.skip(1);
        let a = lemma_trimmed_start(rest);
        assert(rest.skip(a) =~= s.skip(a + 1));
        assert forall|i: int| 0 <= i < a + 1 implies text::is_whitespace_char(#[trigger] s[i]) by {
            if i > 0 {
                assert(rest[i - 1] == s[i]);
            }
        }
        if a + 1 < s.len() {
            assert(rest[a] == s[a + 1]);
        }
        a + 1
    } else {
        assert(s.skip(0) =~= s);
        0
    }
}

proof fn lemma_trimmed_end(s: Seq<char>) -> (b: int)
    ensures
        0 <= b <= s.len(),
        text::trimmed_end(s) == s.take(b),
        forall|i: int| b <= i < s.len() ==> text::is_whitespace_char(#[trigger] s[i]),
        b > 0 ==> !text::is_whitespace_char(s[b - 1]),
    decreases s.len(),
{
    if s.len() > 0 && text::is_whitespace_char(s.last()) {
        let rest = s.drop_last();
        let b = lemma_trimmed_end(rest);
        assert(rest.take(b) =~= s.take(b));
        assert forall|i: int| b <= i < s.len() implies text::is_whitespace_char(#[trigger] s[i]) by {
            if i < rest.len() {
                assert(rest[i] == s[i]);
            }
        }
        b
    } else {
        assert(s.take(s.len() as int) =~= s);
        s.len() as int
    }
}

proof fn lemma_trimmed(s: Seq<char>)
    ensures
        exists|a: int, b: int| #[trigger] inner(s, a, b) && text::trimmed(s) == s.subrange(a, b),
        text::trimmed(s).len() > 0 ==> !text::is_whitespace_char(text::trimmed(s)[0])
            && !text::is_whitespace_char(text::trimmed(s).last()),
{
    let a = lemma_trimmed_start(s);
    let mid = s.skip(a);
    let b = lemma_trimmed_end(mid);
    assert(mid.take(b) =~= s.subrange(a, a + b));
    assert forall|i: int| a + b <= i < s.len() implies text::is_whitespace_char(#[trigger] s[i]) by {
        assert(mid[i - a] == s[i]);
    }
    assert(inner(s, a, a + b));
    if b > 0 {
        assert(mid[0] == s[a]);
    }
}

/// A text without whitespace at its ends is its own trim.
pub proof fn law_trimmed_text_stays(s: Seq<char>)
    requires
        s.len() > 0,
        !text::is_whitespace_char(s[0]),
        !text::is_whitespace_char(s[s.len() - 1]),
    ensures
        text::trimmed(s) == s,
{
}

/// Space, tab, line feed and carriage return are whitespace; no digit, letter or
/// punctuation of ASCII is.
pub proof fn law_ascii_whitespace(c: char, ws: bool)
    requires
        call_ensures(text::is_whitespace, (c,), ws),
        (c as u32) < 0x80,
    ensures
        ws <==> c == ' ' || (0x09 <= c as u32 && c as u32 <= 0x0d),
        c == ' ' || c == '\t' || c == '\n' || c == '\r' ==> ws,
        (c as u32) > 0x20 ==> !ws,
{
}

/// A search for the first of some characters stops at one of them, with none before it,
/// or at the end.
pub proof fn law_search_stops_at_the_first(s: &[char], stops: &[char], n: usize)
    requires
        call_ensures(text::find_any, (s, stops), n),
    ensures
        n <= s@.len(),
        forall|i: int| 0 <= i < n ==> !stops@.contains(#[trigger] s@[i]),
        n < s@.len() ==> stops@.contains(s@[n as int]),
{
    lemma_run_until(s@, stops@);
}

/// Before the place there is no stop, and at it there is one, or the text ends.
pub proof fn lemma_run_until(s: Seq<char>, stops: Seq<char>)
    ensures
        text::run_until(s, stops) <= s.len(),
        forall|i: int| 0 <= i < text::run_until(s, stops) ==> !stops.contains(#[trigger] s[i]),
        text::run_until(s, stops) < s.len() ==> stops.contains(
            s[text::run_until(s, stops) as int],
        ),
    decreases s.len(),
{
    if s.len() > 0 && !stops.contains(s[0]) {
        let rest = s.skip(1);
        lemma_run_until(rest, stops);
        assert forall|i: int| 0 <= i < text::run_until(s, stops) implies !stops.contains(
            #[trigger] s[i],
        ) by {
            if i > 0 {
                assert(rest[i - 1] == s[i]);
            }
        }
        if text::run_until(s, stops) < s.len() {
            assert(rest[text::run_until(rest, stops) as int] == s[text::run_until(
                s,
                stops,
            ) as int]);
        }
    }
}

/// A search from the end finds the last occurrence, if there is one.
pub proof fn law_search_from_the_end_finds_the_last(s: &[char], c: char, at: Option<usize>)
    requires
        call_ensures(text::rfind, (s, c), at),
    ensures
        at is Some <==> s@.contains(c),
        at matches Some(i) ==> i < s@.len() && s@[i as int] == c && forall|j: int|
            i < j < s@.len() ==> #[trigger] s@[j] != c,
{
    lemma_last_index(s@, c);
}

/// The last place of a character, if it has one.
pub proof fn lemma_last_index(s: Seq<char>, c: char)
    ensures
        text::last_index(s, c) is Some <==> s.contains(c),
        text::last_index(s, c) matches Some(i) ==> i < s.len() && s[i as int] == c && forall|j: int|
            i < j < s.len() ==> #[trigger] s[j] != c,
    decreases s.len(),
{
    if s.len() > 0 {
        if s.last() == c {
            assert(s[s.len() - 1] == c);
        } else {
            let rest = s.drop_last();
            lemma_last_index(rest, c);
            if s.contains(c) {
                let j = choose|j: int| 0 <= j < s.len() && s[j] == c;
                assert(rest[j] == c);
            }
            if rest.contains(c) {
                let j = choose|j: int| 0 <= j < rest.len() && rest[j] == c;
                assert(s[j] == c);
            }
            if let Some(i) = text::last_index(s, c) {
                assert forall|j: int| i < j < s.len() implies #[trigger] s[j] != c by {
                    if j < rest.len() {
                        assert(rest[j] == s[j]);
                    }
                }
            }
        }
    }
}

/// A number in decimal has digits alone, no zero in front but for zero itself, and is
/// read back as the number.
pub proof fn law_decimal_is_read_back(n: u64, out: String)
    requires
        call_ensures(text::decimal_string, (n,), out),
    ensures
        out@.len() > 0,
        forall|i: int| 0 <= i < out@.len() ==> '0' <= #[trigger] out@[i] && out@[i] <= '9',
        text::digits_value(out@) == n,
        out@[0] == '0' ==> n == 0 && out@.len() == 1,
{
    lemma_decimal(n as nat);
}

/// The digits of a number.
pub proof fn lemma_decimal(n: nat)
    ensures
        text::decimal(n).len() > 0,
        text::all_digits(text::decimal(n)),
        text::digits_value(text::decimal(n)) == n,
        text::decimal(n)[0] == '0' <==> n == 0,
        n == 0 ==> text::decimal(n).len() == 1,
    decreases n,
{
    let s = text::decimal(n);
    if n < 10 {
        assert(s.drop_last() =~= Seq::empty());
        assert(text::digits_value(s.drop_last()) == 0);
        assert(text::digit_value(text::digit_char(n)) == n);
    } else {
        lemma_decimal(n / 10);
        let head = text::decimal(n / 10);
        assert(s.drop_last() =~= head);
        assert(text::digit_value(text::digit_char(n % 10)) == n % 10);
        assert(s[0] == head[0]);
        assert forall|i: int| 0 <= i < s.len() implies text::is_digit_char(#[trigger] s[i]) by {
            if i < head.len() {
                assert(head[i] == s[i]);
            }
        }
    }
}

/// Each further digit counts the ones before it tenfold.
pub proof fn law_digits_count_tenfold(s: Seq<char>, c: char)
    requires
        '0' <= c <= '9',
    ensures
        text::digits_value(Seq::empty()) == 0,
        text::digits_value(s.push(c)) == 10 * text::digits_value(s) + (c as u32 - '0' as u32),
{
    assert(s.push(c).drop_last() =~= s);
}

/// A port is read from digits, with a plus in front of them or not, if what they say
/// fits; from nothing else.
pub proof fn law_port_is_read_from_digits(s: &[char], out: Option<u16>)
    requires
        call_ensures(text::parse_u16, (s,), out),
    ensures
        s@.len() > 0 && s@[0] == '+' ==> is_read(s@.skip(1), out),
        !(s@.len() > 0 && s@[0] == '+') ==> is_read(s@, out),
{
}

/// The digits fit sixteen bits, are digits and at least one, and this is what they say;
/// or else there is nothing to read.
pub open spec fn is_read(digits: Seq<char>, out: Option<u16>) -> bool {
    &&& out matches Some(n) ==> n == text::digits_value(digits)
    &&& out is Some <==> digits.len() > 0 && text::digits_value(digits) <= 65535 && forall|i: int|
        0 <= i < digits.len() ==> '0' <= #[trigger] digits[i] && digits[i] <= '9'
}

/// A port is read back from its decimal digits.
pub proof fn law_port_round_trip(port: u16)
    ensures
        text::u16_value(text::decimal(port as nat)) == Some(port),
{
    lemma_decimal(port as nat);
    let s = text::decimal(port as nat);
    assert(text::is_digit_char(s[0]));
}

/// A text begins with another exactly if its first characters are the other's.
pub proof fn law_prefix_is_what_comes_first(s: &[char], prefix: &[char], yes: bool)
    requires
        call_ensures(text::starts_with, (s, prefix), yes),
    ensures
        yes <==> prefix@.len() <= s@.len() && forall|i: int|
            0 <= i < prefix@.len() ==> #[trigger] s@[i] == prefix@[i],
{
    if yes {
        assert forall|i: int| 0 <= i < prefix@.len() implies #[trigger] s@[i] == prefix@[i] by {
            assert(s@.subrange(0, prefix@.len() as int)[i] == s@[i]);
        }
    }
    if prefix@.len() <= s@.len() && forall|i: int|
        0 <= i < prefix@.len() ==> #[trigger] s@[i] == prefix@[i] {
        assert(prefix@ =~= s@.subrange(0, prefix@.len() as int));
    }
}

/// Appending a text or a number adds it at the end; copies are the same text.
pub proof fn law_texts_are_copied_and_appended(
    out: &mut String,
    tail: &str,
    numbered: &mut String,
    n: u64,
    s: &str,
    chars: Vec<char>,
    slice: &[char],
    again: String,
    other: &str,
    eq: bool,
)
    requires
        call_ensures(text::push_str, (out, tail), ()),
        call_ensures(text::push_decimal, (numbered, n), ()),
        call_ensures(text::chars_of, (s,), chars),
        call_ensures(text::string_of, (slice,), again),
        call_ensures(text::same, (s, other), eq),
    ensures
        final(out)@ == old(out)@ + tail@,
        final(numbered)@ == old(numbered)@ + text::decimal(n as nat),
        chars@ == s@,
        again@ == slice@,
        eq <==> s@ == other@,
{
}

/// The first place of a byte string in another: there it stands, and nowhere before.
pub proof fn law_first_match_is_the_first(haystack: &[u8], needle: &[u8], at: Option<usize>)
    requires
        needle@.len() > 0,
        call_ensures(bytes::find_subslice, (haystack, needle), at),
    ensures
        at matches Some(i) ==> {
            &&& i + needle@.len() <= haystack@.len()
            &&& haystack@.subrange(i as int, i + needle@.len()) == needle@
            &&& forall|j: int|
                0 <= j < i ==> #[trigger] haystack@.subrange(j, j + needle@.len()) != needle@
        },
        at is None ==> forall|j: int|
            0 <= j && j + needle@.len() <= haystack@.len() ==> #[trigger] haystack@.subrange(
                j,
                j + needle@.len(),
            ) != needle@,
{
    lemma_first_match(haystack@, needle@);
}

/// The first place of a byte string in another.
pub proof fn lemma_first_match(haystack: Seq<u8>, needle: Seq<u8>)
    requires
        needle.len() > 0,
    ensures
        bytes::first_match(haystack, needle) matches Some(i) ==> {
            &&& i + needle.len() <= haystack.len()
            &&& haystack.subrange(i as int, i as int + needle.len()) == needle
            &&& forall|j: int|
                0 <= j < i ==> #[trigger] haystack.subrange(j, j + needle.len()) != needle
        },
        bytes::first_match(haystack, needle) is None ==> forall|j: int|
            0 <= j && j + needle.len() <= haystack.len() ==> #[trigger] haystack.subrange(
                j,
                j + needle.len(),
            ) != needle,
    decreases haystack.len(),
{
    let n = needle.len() as int;
    if haystack.len() >= n {
        assert(haystack.take(n) =~= haystack.subrange(0, n));
        if haystack.take(n) != needle {
            let rest = haystack.skip(1);
            lemma_first_match(rest, needle);
            if let Some(i) = bytes::first_match(rest, needle) {
                assert(rest.subrange(i as int, i + n) =~= haystack.subrange(i as int + 1, i as int + 1 + n));
                assert forall|j: int| 0 <= j < i + 1 implies #[trigger] haystack.subrange(
                    j,
                    j + n,
                ) != needle by {
                    if j > 0 {
                        assert(rest.subrange(j - 1, j - 1 + n) =~= haystack.subrange(j, j + n));
                    }
                }
            } else {
                assert forall|j: int|
                    0 <= j && j + n <= haystack.len() implies #[trigger] haystack.subrange(
                    j,
                    j + n,
                ) != needle by {
                    if j > 0 {
                        assert(rest.subrange(j - 1, j - 1 + n) =~= haystack.subrange(j, j + n));
                    }
                }
            }
        }
    }
}

/// Trimming at one end drops the whitespace there, all of it, and nothing else.
pub proof fn law_trim_at_one_end(s: &[char], start: &[char], end: &[char])
    requires
        call_ensures(text::trim_start, (s,), start),
        call_ensures(text::trim_end, (s,), end),
    ensures
        exists|a: int| #[trigger] inner(s@, a, s@.len() as int) && start@ == s@.skip(a),
        start@.len() > 0 ==> !text::is_whitespace_char(start@[0]),
        exists|b: int| #[trigger] inner(s@, 0, b) && end@ == s@.take(b),
        end@.len() > 0 ==> !text::is_whitespace_char(end@[end@.len() - 1]),
{
    let a = lemma_trimmed_start(s@);
    let b = lemma_trimmed_end(s@);
    assert(inner(s@, a, s@.len() as int));
    assert(inner(s@, 0, b));
}

/// Byte strings are the same if all their bytes are, and a copy is the same; a character
/// is one of a set if the set has it.
pub proof fn law_bytes_compare_and_copy(
    a: &[u8],
    b: &[u8],
    eq: bool,
    copy: Vec<u8>,
    c: char,
    set: &[char],
    member: bool,
)
    requires
        call_ensures(bytes::same, (a, b), eq),
        call_ensures(bytes::copy_of, (a,), copy),
        call_ensures(text::is_one_of, (c, set), member),
    ensures
        eq <==> a@ == b@,
        copy@ == a@,
        member <==> exists|i: int| 0 <= i < set@.len() && set@[i] == c,
{
}

} // verus!
