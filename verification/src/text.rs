//! Text: white space, words, lines, decimal numbers, and the order of texts.

use vstd::prelude::*;
use vstd::string::*;
use vstd::utf8::*;

verus! {

/// Trusted: `String::push`.
///
/// The character comes behind the text.
pub assume_specification[ String::push ](text: &mut String, ch: char)
    ensures
        final(text)@ == old(text)@.push(ch),
;

/// The characters with the Unicode `White_Space` property.
pub open spec fn white_space(c: char) -> bool {
    let n = c as u32;
    ||| 0x9 <= n <= 0xd
    ||| n == 0x20
    ||| n == 0x85
    ||| n == 0xa0
    ||| n == 0x1680
    ||| 0x2000 <= n <= 0x200a
    ||| n == 0x2028
    ||| n == 0x2029
    ||| n == 0x202f
    ||| n == 0x205f
    ||| n == 0x3000
}

/// Whether a character has the Unicode `White_Space` property.
pub fn is_white_space(c: char) -> (r: bool)
    ensures
        r == white_space(c),
{
    let n: u32 = c as u32;
    (0x9 <= n && n <= 0xd) || n == 0x20 || n == 0x85 || n == 0xa0 || n == 0x1680
        || (0x2000 <= n && n <= 0x200a) || n == 0x2028 || n == 0x2029 || n == 0x202f
        || n == 0x205f || n == 0x3000
}

/// The characters of a text.
pub fn chars_of(s: &str) -> (r: Vec<char>)
    ensures
        r@ == s@,
{
    let mut out: Vec<char> = Vec::new();
    for c in it: s.chars()
        invariant
            out@ == it.seq().take(it.index() as int),
            it.seq() == s@,
    {
        out.push(c);
    }
    out
}

/// The text between `from` and `to`.
pub fn string_of(chars: &Vec<char>, from: usize, to: usize) -> (r: String)
    requires
        from <= to <= chars@.len(),
    ensures
        r@ == chars@.subrange(from as int, to as int),
{
    let mut out = String::new();
    let mut i: usize = from;
    while i < to
        invariant
            from <= i <= to <= chars@.len(),
            out@ == chars@.subrange(from as int, i as int),
        decreases to - i,
    {
        out.push(chars[i]);
        i += 1;
    }
    out
}

/// Whether two texts are the same.
pub fn same_text(a: &str, b: &str) -> (r: bool)
    ensures
        r == (a@ == b@),
{
    let x = a.as_bytes();
    let y = b.as_bytes();
    proof {
        encode_utf8_decode_utf8(a@);
        encode_utf8_decode_utf8(b@);
    }
    if x.len() != y.len() {
        return false;
    }
    let mut i: usize = 0;
    while i < x.len()
        invariant
            i <= x@.len() == y@.len(),
            x@ == encode_utf8(a@),
            y@ == encode_utf8(b@),
            forall|j: int| 0 <= j < i ==> x@[j] == y@[j],
        decreases x@.len() - i,
    {
        if x[i] != y[i] {
            return false;
        }
        i += 1;
    }
    assert(x@ =~= y@);
    true
}

/// The number of characters before the first white space.
pub open spec fn word_len(s: Seq<char>) -> nat
    decreases s.len(),
{
    if s.len() == 0 || white_space(s[0]) {
        0
    } else {
        1 + word_len(s.drop_first())
    }
}

/// The maximal runs of characters that are no white space, in order.
pub open spec fn words(s: Seq<char>) -> Seq<Seq<char>>
    decreases s.len(),
{
    if s.len() == 0 {
        seq![]
    } else if white_space(s[0]) {
        words(s.drop_first())
    } else {
        proof {
            lemma_word_len_bound(s);
        }
        seq![s.take(word_len(s) as int)] + words(s.skip(word_len(s) as int))
    }
}

/// The second of the words of `s`, where there are two.
pub open spec fn second_word(s: Seq<char>) -> Option<Seq<char>> {
    if words(s).len() > 1 {
        Some(words(s)[1])
    } else {
        None
    }
}

/// A word is no longer than the text that it begins.
pub proof fn lemma_word_len_bound(s: Seq<char>)
    ensures
        word_len(s) <= s.len(),
    decreases s.len(),
{
    if s.len() > 0 && !white_space(s[0]) {
        lemma_word_len_bound(s.drop_first());
    }
}

/// A run of `k` characters without white space, ended by white space or by the end.
proof fn lemma_word_len(s: Seq<char>, k: int)
    requires
        0 <= k <= s.len(),
        forall|j: int| 0 <= j < k ==> !white_space(#[trigger] s[j]),
        k == s.len() || white_space(s[k]),
    ensures
        word_len(s) == k,
    decreases k,
{
    if k > 0 {
        let rest = s.drop_first();
        assert forall|j: int| 0 <= j < k - 1 implies !white_space(#[trigger] rest[j]) by {
            assert(rest[j] == s[j + 1]);
        }
        lemma_word_len(rest, k - 1);
    }
}

/// Leading white space holds no word.
proof fn lemma_words_after_white(s: Seq<char>, k: int)
    requires
        0 <= k <= s.len(),
        forall|j: int| 0 <= j < k ==> white_space(#[trigger] s[j]),
    ensures
        words(s) == words(s.skip(k)),
    decreases k,
{
    if k == 0 {
        assert(s.skip(0) =~= s);
    } else {
        let rest = s.drop_first();
        assert forall|j: int| 0 <= j < k - 1 implies white_space(#[trigger] rest[j]) by {
            assert(rest[j] == s[j + 1]);
        }
        lemma_words_after_white(rest, k - 1);
        assert(rest.skip(k - 1) =~= s.skip(k));
    }
}

/// The first place at or after `from` that holds no white space.
fn skip_white(chars: &Vec<char>, from: usize, to: usize) -> (r: usize)
    requires
        from <= to <= chars@.len(),
    ensures
        from <= r <= to,
        forall|j: int| from <= j < r ==> white_space(#[trigger] chars@[j]),
        r < to ==> !white_space(chars@[r as int]),
{
    let mut i: usize = from;
    while i < to && is_white_space(chars[i])
        invariant
            from <= i <= to <= chars@.len(),
            forall|j: int| from <= j < i ==> white_space(#[trigger] chars@[j]),
        decreases to - i,
    {
        i += 1;
    }
    i
}

/// The first place at or after `from` that holds white space.
fn skip_word(chars: &Vec<char>, from: usize, to: usize) -> (r: usize)
    requires
        from <= to <= chars@.len(),
    ensures
        from <= r <= to,
        forall|j: int| from <= j < r ==> !white_space(#[trigger] chars@[j]),
        r < to ==> white_space(chars@[r as int]),
{
    let mut i: usize = from;
    while i < to && !is_white_space(chars[i])
        invariant
            from <= i <= to <= chars@.len(),
            forall|j: int| from <= j < i ==> !white_space(#[trigger] chars@[j]),
        decreases to - i,
    {
        i += 1;
    }
    i
}

/// Where the second word of the first `to` characters lies.
fn find_second_word(chars: &Vec<char>, to: usize) -> (r: Option<(usize, usize)>)
    requires
        to <= chars@.len(),
    ensures
        match r {
            Some((from, end)) => from <= end <= to && second_word(chars@.take(to as int)) == Some(
                chars@.subrange(from as int, end as int),
            ),
            None => second_word(chars@.take(to as int)) is None,
        },
{
    let a = skip_white(chars, 0, to);
    let b = skip_word(chars, a, to);
    let c = skip_white(chars, b, to);
    let d = skip_word(chars, c, to);
    proof {
        let s = chars@.take(to as int);
        lemma_words_after_white(s, a as int);
        let s1 = s.skip(a as int);
        if a < to {
            assert(s1[0] == chars@[a as int]);
            assert forall|j: int| 0 <= j < b - a implies !white_space(#[trigger] s1[j]) by {
                assert(s1[j] == chars@[a + j]);
            }
            lemma_word_len(s1, b - a);
            let s2 = s1.skip(b - a);
            assert forall|j: int| 0 <= j < c - b implies white_space(#[trigger] s2[j]) by {
                assert(s2[j] == chars@[b + j]);
            }
            lemma_words_after_white(s2, c - b);
            let s3 = s2.skip(c - b);
            assert(words(s) == seq![s1.take(b - a)] + words(s3));
            if c < to {
                assert(s3[0] == chars@[c as int]);
                assert forall|j: int| 0 <= j < d - c implies !white_space(#[trigger] s3[j]) by {
                    assert(s3[j] == chars@[c + j]);
                }
                lemma_word_len(s3, d - c);
                assert(s3.take(d - c) =~= chars@.subrange(c as int, d as int));
                assert(words(s)[1] == words(s3)[0]);
            } else {
                assert(s3.len() == 0);
                assert(words(s3) =~= seq![]);
            }
        } else {
            assert(s1.len() == 0);
        }
    }
    if a < to && c < to {
        Some((c, d))
    } else {
        None
    }
}

/// `s` without the white space before it.
pub open spec fn trim_start(s: Seq<char>) -> Seq<char>
    decreases s.len(),
{
    if s.len() > 0 && white_space(s[0]) {
        trim_start(s.drop_first())
    } else {
        s
    }
}

/// `s` without the white space behind it.
pub open spec fn trim_end(s: Seq<char>) -> Seq<char>
    decreases s.len(),
{
    if s.len() > 0 && white_space(s.last()) {
        trim_end(s.drop_last())
    } else {
        s
    }
}

/// `s` without the white space at either end.
pub open spec fn trim(s: Seq<char>) -> Seq<char> {
    trim_end(trim_start(s))
}

/// A carriage return or a line feed.
pub open spec fn line_break(c: char) -> bool {
    c == '\r' || c == '\n'
}

/// `s` without the carriage returns and line feeds at its end.
pub open spec fn without_line_end(s: Seq<char>) -> Seq<char>
    decreases s.len(),
{
    if s.len() > 0 && line_break(s.last()) {
        without_line_end(s.drop_last())
    } else {
        s
    }
}

proof fn lemma_trim_start(s: Seq<char>, k: int)
    requires
        0 <= k <= s.len(),
        forall|j: int| 0 <= j < k ==> white_space(#[trigger] s[j]),
        k == s.len() || !white_space(s[k]),
    ensures
        trim_start(s) == s.skip(k),
    decreases k,
{
    if k == 0 {
        assert(s.skip(0) =~= s);
    } else {
        let rest = s.drop_first();
        assert forall|j: int| 0 <= j < k - 1 implies white_space(#[trigger] rest[j]) by {
            assert(rest[j] == s[j + 1]);
        }
        lemma_trim_start(rest, k - 1);
        assert(rest.skip(k - 1) =~= s.skip(k));
    }
}

proof fn lemma_trim_end(s: Seq<char>, k: int)
    requires
        0 <= k <= s.len(),
        forall|j: int| k <= j < s.len() ==> white_space(#[trigger] s[j]),
        k == 0 || !white_space(s[k - 1]),
    ensures
        trim_end(s) == s.take(k),
    decreases s.len(),
{
    if k == s.len() {
        assert(s.take(k) =~= s);
    } else {
        lemma_trim_end(s.drop_last(), k);
        assert(s.drop_last().take(k) =~= s.take(k));
    }
}

proof fn lemma_without_line_end(s: Seq<char>, k: int)
    requires
        0 <= k <= s.len(),
        forall|j: int| k <= j < s.len() ==> line_break(#[trigger] s[j]),
        k == 0 || !line_break(s[k - 1]),
    ensures
        without_line_end(s) == s.take(k),
    decreases s.len(),
{
    if k == s.len() {
        assert(s.take(k) =~= s);
    } else {
        lemma_without_line_end(s.drop_last(), k);
        assert(s.drop_last().take(k) =~= s.take(k));
    }
}

/// The place behind the last character that is no white space.
fn trimmed_end(chars: &Vec<char>, from: usize, to: usize) -> (r: usize)
    requires
        from <= to <= chars@.len(),
    ensures
        from <= r <= to,
        trim_end(chars@.subrange(from as int, to as int)) == chars@.subrange(from as int, r as int),
{
    let mut i: usize = to;
    while i > from && is_white_space(chars[i - 1])
        invariant
            from <= i <= to <= chars@.len(),
            forall|j: int| i <= j < to ==> white_space(#[trigger] chars@[j]),
        decreases i,
    {
        i -= 1;
    }
    proof {
        let s = chars@.subrange(from as int, to as int);
        lemma_trim_end(s, i - from);
        assert(s.take(i - from) =~= chars@.subrange(from as int, i as int));
    }
    i
}

/// The text between `from` and `to`, without the white space before it.
pub(crate) fn trim_start_of(chars: &Vec<char>, from: usize, to: usize) -> (r: String)
    requires
        from <= to <= chars@.len(),
    ensures
        r@ == trim_start(chars@.subrange(from as int, to as int)),
{
    let a = skip_white(chars, from, to);
    proof {
        let s = chars@.subrange(from as int, to as int);
        assert forall|j: int| 0 <= j < a - from implies white_space(#[trigger] s[j]) by {
            assert(s[j] == chars@[from + j]);
        }
        lemma_trim_start(s, a - from);
        assert(s.skip(a - from) =~= chars@.subrange(a as int, to as int));
    }
    string_of(chars, a, to)
}

/// Where the text between `from` and `to` lies, without the white space round it.
fn trim_range(chars: &Vec<char>, from: usize, to: usize) -> (r: (usize, usize))
    requires
        from <= to <= chars@.len(),
    ensures
        from <= r.0 <= r.1 <= to,
        chars@.subrange(r.0 as int, r.1 as int) == trim(chars@.subrange(from as int, to as int)),
{
    let a = skip_white(chars, from, to);
    proof {
        let s = chars@.subrange(from as int, to as int);
        assert forall|j: int| 0 <= j < a - from implies white_space(#[trigger] s[j]) by {
            assert(s[j] == chars@[from + j]);
        }
        lemma_trim_start(s, a - from);
        assert(s.skip(a - from) =~= chars@.subrange(a as int, to as int));
    }
    let b = trimmed_end(chars, a, to);
    (a, b)
}

/// The text between `from` and `to`, without the white space round it.
pub(crate) fn trim_of(chars: &Vec<char>, from: usize, to: usize) -> (r: String)
    requires
        from <= to <= chars@.len(),
    ensures
        r@ == trim(chars@.subrange(from as int, to as int)),
{
    let (a, b) = trim_range(chars, from, to);
    string_of(chars, a, b)
}

/// The length of `chars` without the line breaks at its end.
pub(crate) fn line_len(chars: &Vec<char>) -> (r: usize)
    ensures
        r <= chars@.len(),
        without_line_end(chars@) == chars@.take(r as int),
{
    let mut i: usize = chars.len();
    while i > 0 && (chars[i - 1] == '\r' || chars[i - 1] == '\n')
        invariant
            i <= chars@.len(),
            forall|j: int| i <= j < chars@.len() ==> line_break(#[trigger] chars@[j]),
        decreases i,
    {
        i -= 1;
    }
    proof {
        lemma_without_line_end(chars@, i as int);
    }
    i
}

/// Whether `chars` begin with `prefix`, up to the place `to`.
pub(crate) fn has_prefix(chars: &Vec<char>, to: usize, prefix: &str) -> (r: bool)
    requires
        to <= chars@.len(),
    ensures
        r == prefix@.is_prefix_of(chars@.take(to as int)),
{
    let p = chars_of(prefix);
    if p.len() > to {
        return false;
    }
    let mut i: usize = 0;
    while i < p.len()
        invariant
            i <= p@.len() <= to <= chars@.len(),
            p@ == prefix@,
            forall|j: int| 0 <= j < i ==> p@[j] == chars@[j],
        decreases p@.len() - i,
    {
        if chars[i] != p[i] {
            assert(chars@.take(to as int)[i as int] != prefix@[i as int]);
            return false;
        }
        i += 1;
    }
    assert(prefix@ =~= chars@.take(to as int).subrange(0, prefix@.len() as int));
    true
}

/// The decimal digit worth `d`.
pub open spec fn digit(d: nat) -> char {
    (48 + d) as char
}

/// The decimal numeral of `n`, without leading zeros.
pub open spec fn decimal(n: nat) -> Seq<char>
    decreases n,
{
    if n < 10 {
        seq![digit(n)]
    } else {
        decimal(n / 10).push(digit(n % 10))
    }
}

/// Writes the decimal numeral of `n` behind `out`.
pub(crate) fn push_decimal(out: &mut String, n: usize)
    ensures
        final(out)@ == old(out)@ + decimal(n as nat),
    decreases n,
{
    let ghost before = out@;
    if n >= 10 {
        push_decimal(out, n / 10);
    }
    let d: u8 = (n % 10) as u8;
    out.push((48 + d) as char);
    proof {
        assert(out@ =~= before + decimal(n as nat));
    }
}

/// A decimal digit.
pub open spec fn is_digit(c: char) -> bool {
    48 <= c as u32 <= 57
}

/// A text of decimal digits alone.
pub open spec fn all_digits(s: Seq<char>) -> bool {
    forall|i: int| 0 <= i < s.len() ==> is_digit(#[trigger] s[i])
}

/// What a string of decimal digits is worth.
pub open spec fn digits_value(s: Seq<char>) -> nat
    decreases s.len(),
{
    if s.len() == 0 {
        0
    } else {
        (digits_value(s.drop_last()) * 10 + (s.last() as u32 - 48)) as nat
    }
}

/// `s` without a plus sign before it.
pub open spec fn unsigned_part(s: Seq<char>) -> Seq<char> {
    if s.len() > 0 && s[0] == '+' {
        s.drop_first()
    } else {
        s
    }
}

/// The number that `s` writes: an optional plus sign, then one or more decimal digits,
/// worth at most `u16::MAX`.
pub open spec fn number_u16(s: Seq<char>) -> Option<u16> {
    let digits = unsigned_part(s);
    if digits.len() > 0 && all_digits(digits) && digits_value(digits) <= u16::MAX {
        Some(digits_value(digits) as u16)
    } else {
        None
    }
}

proof fn lemma_digits_value_grows(s: Seq<char>, k: int)
    requires
        0 <= k <= s.len(),
        all_digits(s),
    ensures
        digits_value(s.take(k)) <= digits_value(s),
    decreases s.len(),
{
    if k == s.len() {
        assert(s.take(k) =~= s);
    } else {
        let front = s.drop_last();
        assert(all_digits(front)) by {
            assert forall|i: int| 0 <= i < front.len() implies is_digit(#[trigger] front[i]) by {
                assert(front[i] == s[i]);
            }
        }
        lemma_digits_value_grows(front, k);
        assert(front.take(k) =~= s.take(k));
        assert(is_digit(s[s.len() - 1]));
    }
}

/// Reads the number between `from` and `to`.
fn parse_u16(chars: &Vec<char>, from: usize, to: usize) -> (r: Option<u16>)
    requires
        from <= to <= chars@.len(),
    ensures
        r == number_u16(chars@.subrange(from as int, to as int)),
{
    let ghost s = chars@.subrange(from as int, to as int);
    let ghost digits = unsigned_part(s);
    let start: usize = if from < to && chars[from] == '+' { from + 1 } else { from };
    assert(digits =~= chars@.subrange(start as int, to as int));
    if start == to {
        return None;
    }
    let mut acc: u32 = 0;
    let mut i: usize = start;
    while i < to
        invariant
            start <= i <= to <= chars@.len(),
            digits == unsigned_part(s),
            digits == chars@.subrange(start as int, to as int),
            s == chars@.subrange(from as int, to as int),
            acc <= u16::MAX,
            acc == digits_value(digits.take(i - start)),
            all_digits(digits.take(i - start)),
        decreases to - i,
    {
        let n: u32 = chars[i] as u32;
        let ghost k = i - start;
        assert(digits[k] == chars@[i as int]);
        if n < 48 || n > 57 {
            assert(!is_digit(digits[k]));
            return None;
        }
        acc = acc * 10 + (n - 48);
        proof {
            assert(digits.take(k + 1).drop_last() =~= digits.take(k));
            assert(digits.take(k + 1).last() == digits[k]);
            assert forall|j: int| 0 <= j < k + 1 implies is_digit(
                #[trigger] digits.take(k + 1)[j],
            ) by {
                if j < k {
                    assert(digits.take(k)[j] == digits[j]);
                }
            }
        }
        if acc > 65535 {
            proof {
                if all_digits(digits) {
                    lemma_digits_value_grows(digits, k + 1);
                }
            }
            return None;
        }
        i += 1;
    }
    assert(digits.take(to - start) =~= digits);
    Some(acc as u16)
}

/// The number that the second word of `s` writes.
pub open spec fn second_number(s: Seq<char>) -> Option<u16> {
    match second_word(s) {
        Some(w) => number_u16(w),
        None => None,
    }
}

/// The number that the second word of the first `to` characters writes.
pub(crate) fn read_second_number(chars: &Vec<char>, to: usize) -> (r: Option<u16>)
    requires
        to <= chars@.len(),
    ensures
        r == second_number(chars@.take(to as int)),
{
    match find_second_word(chars, to) {
        Some((from, end)) => parse_u16(chars, from, end),
        None => None,
    }
}

/// The number that a text writes, with white space round it.
pub(crate) fn read_trimmed_number(s: &str) -> (r: Option<u16>)
    ensures
        r == number_u16(trim(s@)),
{
    let chars = chars_of(s);
    let (a, b) = trim_range(&chars, 0, chars.len());
    assert(chars@.subrange(0, chars@.len() as int) =~= s@);
    parse_u16(&chars, a, b)
}

/// The order of byte strings: lexicographic, by byte values.
pub open spec fn bytes_less(a: Seq<u8>, b: Seq<u8>) -> bool
    decreases a.len(),
{
    if b.len() == 0 {
        false
    } else if a.len() == 0 {
        true
    } else if a[0] != b[0] {
        a[0] < b[0]
    } else {
        bytes_less(a.drop_first(), b.drop_first())
    }
}

/// The order of texts: by the bytes of their UTF-8 form.
pub open spec fn text_less(a: Seq<char>, b: Seq<char>) -> bool {
    bytes_less(encode_utf8(a), encode_utf8(b))
}

/// No text comes before itself.
pub proof fn lemma_text_less_irreflexive(a: Seq<char>)
    ensures
        !text_less(a, a),
{
    lemma_bytes_less_irreflexive(encode_utf8(a));
}

/// What comes before a text comes before what that text comes before.
pub proof fn lemma_text_less_transitive(a: Seq<char>, b: Seq<char>, c: Seq<char>)
    requires
        text_less(a, b),
        text_less(b, c),
    ensures
        text_less(a, c),
{
    lemma_bytes_less_transitive(encode_utf8(a), encode_utf8(b), encode_utf8(c));
}

/// Of two different texts, one comes before the other.
pub proof fn lemma_text_less_total(a: Seq<char>, b: Seq<char>)
    ensures
        a == b || text_less(a, b) || text_less(b, a),
{
    lemma_bytes_less_total(encode_utf8(a), encode_utf8(b));
    encode_utf8_decode_utf8(a);
    encode_utf8_decode_utf8(b);
}

proof fn lemma_bytes_less_irreflexive(a: Seq<u8>)
    ensures
        !bytes_less(a, a),
    decreases a.len(),
{
    if a.len() > 0 {
        lemma_bytes_less_irreflexive(a.drop_first());
    }
}

proof fn lemma_bytes_less_transitive(a: Seq<u8>, b: Seq<u8>, c: Seq<u8>)
    requires
        bytes_less(a, b),
        bytes_less(b, c),
    ensures
        bytes_less(a, c),
    decreases a.len(),
{
    if a.len() > 0 && a[0] == b[0] && b[0] == c[0] {
        lemma_bytes_less_transitive(a.drop_first(), b.drop_first(), c.drop_first());
    }
}

proof fn lemma_bytes_less_total(a: Seq<u8>, b: Seq<u8>)
    ensures
        a == b || bytes_less(a, b) || bytes_less(b, a),
    decreases a.len(),
{
    if a.len() == 0 || b.len() == 0 {
        if a.len() == b.len() {
            assert(a =~= b);
        }
    } else if a[0] == b[0] {
        lemma_bytes_less_total(a.drop_first(), b.drop_first());
        if a.drop_first() == b.drop_first() {
            assert(a =~= seq![a[0]] + a.drop_first());
            assert(b =~= seq![b[0]] + b.drop_first());
        }
    }
}

/// Whether `a` comes before `b`.
pub(crate) fn is_text_less(a: &str, b: &str) -> (r: bool)
    ensures
        r == text_less(a@, b@),
{
    let x = a.as_bytes();
    let y = b.as_bytes();
    assert(x@.skip(0) =~= x@);
    assert(y@.skip(0) =~= y@);
    let mut i: usize = 0;
    while i < x.len() && i < y.len()
        invariant
            i <= x@.len(),
            i <= y@.len(),
            text_less(a@, b@) == bytes_less(x@.skip(i as int), y@.skip(i as int)),
        decreases x@.len() - i,
    {
        assert(x@.skip(i as int)[0] == x@[i as int]);
        assert(y@.skip(i as int)[0] == y@[i as int]);
        assert(x@.skip(i as int).drop_first() =~= x@.skip(i + 1));
        assert(y@.skip(i as int).drop_first() =~= y@.skip(i + 1));
        if x[i] != y[i] {
            return x[i] < y[i];
        }
        i += 1;
    }
    i < y.len()
}

/// Trusted: `std::str::from_utf8`.
///
/// Bytes are a text exactly where they are valid UTF-8, and the text is the one that they
/// encode.
#[verifier::external_body]
pub(crate) fn utf8_text(bytes: &[u8]) -> (r: Option<&str>)
    ensures
        match r {
            Some(s) => valid_utf8(bytes@) && s@ == decode_utf8(bytes@),
            None => !valid_utf8(bytes@),
        },
{
    std::str::from_utf8(bytes).ok()
}

/// The text that `String::from_utf8_lossy` makes of bytes.
pub uninterp spec fn lossy_text(bytes: Seq<u8>) -> Seq<char>;

/// Trusted: `String::from_utf8_lossy`.
///
/// The text is a function of the bytes alone, named [`lossy_text`]; of valid UTF-8 it is
/// the text that the bytes encode. Which replacement characters stand for invalid bytes is
/// not stated beyond the name.
#[verifier::external_body]
pub(crate) fn utf8_lossy(bytes: &[u8]) -> (r: String)
    ensures
        r@ == lossy_text(bytes@),
        valid_utf8(bytes@) ==> r@ == decode_utf8(bytes@),
{
    String::from_utf8_lossy(bytes).into_owned()
}

/// A decimal numeral is made of digits and is worth the number that it was written for.
pub proof fn law_decimal_value(n: nat)
    ensures
        decimal(n).len() > 0,
        all_digits(decimal(n)),
        digits_value(decimal(n)) == n,
    decreases n,
{
    if n < 10 {
        let s = decimal(n);
        assert(s.last() == digit(n));
        assert(s.drop_last() =~= seq![]);
        assert(digits_value(s.drop_last()) == 0);
    } else {
        law_decimal_value(n / 10);
        let front = decimal(n / 10);
        let s = decimal(n);
        assert(s.last() == digit(n % 10));
        assert(s.drop_last() =~= front);
        assert forall|i: int| 0 <= i < s.len() implies is_digit(#[trigger] s[i]) by {
            if i < front.len() {
                assert(s[i] == front[i]);
            }
        }
    }
}

/// A number written in decimal reads back as that number.
pub proof fn law_decimal_reads_back(n: u16)
    ensures
        number_u16(decimal(n as nat)) == Some(n),
{
    law_decimal_value(n as nat);
    let s = decimal(n as nat);
    assert(is_digit(s[0]));
    assert(unsigned_part(s) == s);
}

/// Two numbers with the same decimal numeral are the same.
pub proof fn law_decimal_injective(a: nat, b: nat)
    requires
        decimal(a) == decimal(b),
    ensures
        a == b,
{
    law_decimal_value(a);
    law_decimal_value(b);
}

/// Trimming takes away the white space round a text that begins and ends without any.
pub proof fn law_trim(before: Seq<char>, core: Seq<char>, after: Seq<char>)
    requires
        forall|i: int| 0 <= i < before.len() ==> white_space(#[trigger] before[i]),
        forall|i: int| 0 <= i < after.len() ==> white_space(#[trigger] after[i]),
        core.len() > 0,
        !white_space(core[0]),
        !white_space(core.last()),
    ensures
        trim(before + core + after) == core,
{
    let s = before + core + after;
    assert forall|j: int| 0 <= j < before.len() implies white_space(#[trigger] s[j]) by {
        assert(s[j] == before[j]);
    }
    assert(s[before.len() as int] == core[0]);
    lemma_trim_start(s, before.len() as int);
    let rest = s.skip(before.len() as int);
    assert(rest =~= core + after);
    assert forall|j: int| core.len() <= j < rest.len() implies white_space(#[trigger] rest[j]) by {
        assert(rest[j] == after[j - core.len()]);
    }
    assert(rest[core.len() - 1] == core.last());
    lemma_trim_end(rest, core.len() as int);
    assert(rest.take(core.len() as int) =~= core);
}

/// The second word of a line that begins with one word, one space, a second word and a
/// space.
pub proof fn law_second_word(first: Seq<char>, second: Seq<char>, rest: Seq<char>)
    requires
        first.len() > 0,
        second.len() > 0,
        forall|i: int| 0 <= i < first.len() ==> !white_space(#[trigger] first[i]),
        forall|i: int| 0 <= i < second.len() ==> !white_space(#[trigger] second[i]),
    ensures
        second_word(first + seq![' '] + second + seq![' '] + rest) == Some(second),
{
    let s = first + seq![' '] + second + seq![' '] + rest;
    assert(s[0] == first[0]);
    assert forall|j: int| 0 <= j < first.len() implies !white_space(#[trigger] s[j]) by {
        assert(s[j] == first[j]);
    }
    assert(s[first.len() as int] == ' ');
    lemma_word_len(s, first.len() as int);
    let s1 = s.skip(first.len() as int);
    assert(s1[0] == ' ');
    let s2 = s1.drop_first();
    assert(s2 =~= second + seq![' '] + rest);
    assert forall|j: int| 0 <= j < second.len() implies !white_space(#[trigger] s2[j]) by {
        assert(s2[j] == second[j]);
    }
    assert(s2[second.len() as int] == ' ');
    assert(!white_space(s2[0]));
    lemma_word_len(s2, second.len() as int);
    assert(s2.take(second.len() as int) =~= second);
    assert(words(s1) == words(s2));
    assert(words(s) =~= seq![first] + words(s2)) by {
        assert(s.take(first.len() as int) =~= first);
    }
    assert(words(s2)[0] == second);
}

/// The second word of a text: two runs of characters without white space, with white space
/// between them, and with any white space or none before them. What comes behind the second,
/// if anything, begins with white space.
pub proof fn law_second_word_found(
    lead: Seq<char>,
    first: Seq<char>,
    gap: Seq<char>,
    second: Seq<char>,
    rest: Seq<char>,
)
    requires
        forall|i: int| 0 <= i < lead.len() ==> white_space(#[trigger] lead[i]),
        first.len() > 0,
        forall|i: int| 0 <= i < first.len() ==> !white_space(#[trigger] first[i]),
        gap.len() > 0,
        forall|i: int| 0 <= i < gap.len() ==> white_space(#[trigger] gap[i]),
        second.len() > 0,
        forall|i: int| 0 <= i < second.len() ==> !white_space(#[trigger] second[i]),
        rest.len() == 0 || white_space(rest[0]),
    ensures
        second_word(lead + first + gap + second + rest) == Some(second),
        second_number(lead + first + gap + second + rest) == number_u16(second),
{
    let s = lead + first + gap + second + rest;
    assert forall|j: int| 0 <= j < lead.len() implies white_space(#[trigger] s[j]) by {
        assert(s[j] == lead[j]);
    }
    lemma_words_after_white(s, lead.len() as int);
    let s1 = s.skip(lead.len() as int);
    assert(s1 =~= first + (gap + second + rest));
    assert forall|j: int| 0 <= j < first.len() implies !white_space(#[trigger] s1[j]) by {
        assert(s1[j] == first[j]);
    }
    assert(s1[first.len() as int] == gap[0]);
    assert(s1[0] == first[0]);
    lemma_word_len(s1, first.len() as int);
    let s2 = s1.skip(first.len() as int);
    assert(s2 =~= gap + (second + rest));
    assert forall|j: int| 0 <= j < gap.len() implies white_space(#[trigger] s2[j]) by {
        assert(s2[j] == gap[j]);
    }
    lemma_words_after_white(s2, gap.len() as int);
    let s3 = s2.skip(gap.len() as int);
    assert(s3 =~= second + rest);
    assert forall|j: int| 0 <= j < second.len() implies !white_space(#[trigger] s3[j]) by {
        assert(s3[j] == second[j]);
    }
    if rest.len() > 0 {
        assert(s3[second.len() as int] == rest[0]);
    }
    assert(s3[0] == second[0]);
    lemma_word_len(s3, second.len() as int);
    assert(s3.take(second.len() as int) =~= second);
    assert(words(s) == seq![s1.take(first.len() as int)] + words(s3));
    assert(words(s3)[0] == second);
}

/// A text that holds at most one run of characters without white space has no second word.
pub proof fn law_no_second_word(lead: Seq<char>, first: Seq<char>, tail: Seq<char>)
    requires
        forall|i: int| 0 <= i < lead.len() ==> white_space(#[trigger] lead[i]),
        forall|i: int| 0 <= i < first.len() ==> !white_space(#[trigger] first[i]),
        forall|i: int| 0 <= i < tail.len() ==> white_space(#[trigger] tail[i]),
    ensures
        second_word(lead + first + tail) is None,
        second_number(lead + first + tail) is None,
{
    let s = lead + first + tail;
    assert forall|j: int| 0 <= j < lead.len() implies white_space(#[trigger] s[j]) by {
        assert(s[j] == lead[j]);
    }
    lemma_words_after_white(s, lead.len() as int);
    let s1 = s.skip(lead.len() as int);
    assert(s1 =~= first + tail);
    let s2 = if first.len() == 0 {
        s1
    } else {
        s1.skip(first.len() as int)
    };
    assert(s2 =~= tail);
    lemma_words_after_white(s2, tail.len() as int);
    assert(s2.skip(tail.len() as int).len() == 0);
    assert(words(s2).len() == 0);
    if first.len() > 0 {
        assert forall|j: int| 0 <= j < first.len() implies !white_space(#[trigger] s1[j]) by {
            assert(s1[j] == first[j]);
        }
        if tail.len() > 0 {
            assert(s1[first.len() as int] == tail[0]);
        }
        assert(s1[0] == first[0]);
        lemma_word_len(s1, first.len() as int);
    }
}

/// A character is a decimal digit exactly where it lies between `0` and `9`.
proof fn lemma_is_digit(c: char)
    ensures
        is_digit(c) <==> '0' <= c <= '9',
{
}

/// A digit more makes the number ten times as large and adds what the digit is worth.
pub proof fn law_digit_is_added(s: Seq<char>, d: nat)
    requires
        d < 10,
    ensures
        digits_value(Seq::<char>::empty()) == 0,
        digits_value(s.push("0123456789"@[d as int])) == 10 * digits_value(s) + d,
        decimal(d) == seq!["0123456789"@[d as int]],
{
    reveal_strlit("0123456789");
    let c = "0123456789"@[d as int];
    assert(c == digit(d));
    assert(s.push(c).drop_last() =~= s);
    assert(s.push(c).last() == c);
}

/// Digits alone write the number that they are worth, with a plus sign before them or not,
/// and however many zeros they begin with; where they are worth more than `u16::MAX`, they
/// write none.
pub proof fn law_number_of_digits(digits: Seq<char>)
    requires
        digits.len() > 0,
        forall|i: int| 0 <= i < digits.len() ==> '0' <= #[trigger] digits[i] <= '9',
    ensures
        number_u16(digits) == number_u16(seq!['+'] + digits),
        digits_value(digits) <= 65535 ==> number_u16(digits) == Some(digits_value(digits) as u16),
        digits_value(digits) > 65535 ==> number_u16(digits) is None,
{
    assert forall|i: int| 0 <= i < digits.len() implies is_digit(#[trigger] digits[i]) by {
        lemma_is_digit(digits[i]);
    }
    assert('0' <= digits[0]);
    assert((seq!['+'] + digits).drop_first() =~= digits);
    assert(unsigned_part(seq!['+'] + digits) == digits);
    assert(unsigned_part(digits) == digits);
}

/// A text with any character but digits in it, save a plus sign at its beginning, writes no
/// number, and neither does one without digits.
pub proof fn law_no_number(s: Seq<char>, i: int)
    requires
        s.len() == 0 || s == seq!['+'] || (0 <= i < s.len() && !('0' <= s[i] <= '9') && !(i == 0
            && s[i] == '+')),
    ensures
        number_u16(s) is None,
{
    let digits = unsigned_part(s);
    if s.len() > 0 && s != seq!['+'] {
        lemma_is_digit(s[i]);
        if s[0] == '+' {
            assert(digits[i - 1] == s[i]);
        } else {
            assert(digits[i] == s[i]);
        }
        assert(!all_digits(digits));
    }
}

/// A decimal numeral begins with no zero, save the numeral of zero.
pub proof fn law_decimal_is_shortest(n: nat)
    ensures
        decimal(n).len() > 0,
        decimal(n)[0] == '0' ==> n == 0 && decimal(n).len() == 1,
    decreases n,
{
    if n >= 10 {
        law_decimal_is_shortest(n / 10);
        assert(decimal(n)[0] == decimal(n / 10)[0]);
    }
}

/// White space alone is trimmed to nothing.
pub proof fn law_trim_white(s: Seq<char>)
    requires
        forall|i: int| 0 <= i < s.len() ==> white_space(#[trigger] s[i]),
    ensures
        trim(s).len() == 0,
        trim_start(s).len() == 0,
{
    lemma_trim_start(s, s.len() as int);
}

/// Trimming the start takes away the white space before a text, and nothing behind it.
pub proof fn law_trim_start(before: Seq<char>, core: Seq<char>)
    requires
        forall|i: int| 0 <= i < before.len() ==> white_space(#[trigger] before[i]),
        core.len() > 0 ==> !white_space(core[0]),
    ensures
        trim_start(before + core) == core,
{
    let s = before + core;
    assert forall|j: int| 0 <= j < before.len() implies white_space(#[trigger] s[j]) by {
        assert(s[j] == before[j]);
    }
    if core.len() > 0 {
        assert(s[before.len() as int] == core[0]);
    }
    lemma_trim_start(s, before.len() as int);
    assert(s.skip(before.len() as int) =~= core);
}

/// A line loses the carriage returns and line feeds at its end, and nothing else.
pub proof fn law_line_end(content: Seq<char>, end: Seq<char>)
    requires
        content.len() > 0 ==> content.last() != '\r' && content.last() != '\n',
        forall|i: int| 0 <= i < end.len() ==> (#[trigger] end[i] == '\r' || end[i] == '\n'),
    ensures
        without_line_end(content + end) == content,
{
    let s = content + end;
    let k = content.len() as int;
    assert forall|j: int| k <= j < s.len() implies line_break(#[trigger] s[j]) by {
        assert(s[j] == end[j - k]);
    }
    if k > 0 {
        assert(s[k - 1] == content.last());
    }
    lemma_without_line_end(s, k);
    assert(s.take(k) =~= content);
}

/// The first byte in which two byte strings differ decides which comes before the other; a
/// byte string comes before every longer one that begins with it.
pub proof fn law_first_difference_decides(p: Seq<u8>, x: u8, s: Seq<u8>, y: u8, t: Seq<u8>)
    ensures
        x != y ==> (bytes_less(p.push(x) + s, p.push(y) + t) <==> x < y),
        bytes_less(p, p.push(y) + t),
        !bytes_less(p.push(x) + s, p),
        !bytes_less(p, p),
    decreases p.len(),
{
    let a = p.push(x) + s;
    let b = p.push(y) + t;
    if p.len() > 0 {
        let rest = p.drop_first();
        law_first_difference_decides(rest, x, s, y, t);
        assert(a.drop_first() =~= rest.push(x) + s);
        assert(b.drop_first() =~= rest.push(y) + t);
        assert(a[0] == p[0] && b[0] == p[0]);
    } else {
        assert(a[0] == x && b[0] == y);
    }
}

/// Texts are ordered as the bytes of their UTF-8 form.
pub proof fn law_texts_order_by_bytes(a: Seq<char>, b: Seq<char>)
    ensures
        text_less(a, b) <==> bytes_less(encode_utf8(a), encode_utf8(b)),
{
}

} // verus!
