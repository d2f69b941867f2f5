//! Character-level helpers: building strings and reading numbers, stated
//! over `Seq<char>`.

use vstd::prelude::*;

verus! {

broadcast use vstd::string::group_string_axioms;

/// Appends one character to a string (`String::push`).
#[verifier::external_body]
pub(crate) fn push_char(s: &mut String, c: char)
    ensures
        final(s)@ == old(s)@.push(c),
{
    s.push(c);
}

/// The characters of `s`, in order.
pub fn chars_of(s: &str) -> (r: Vec<char>)
    ensures
        r@ == s@,
{
    let mut out: Vec<char> = Vec::new();
    for c in it: s.chars()
        invariant
            out@ == it.seq().take(it.index() as int),
            it.seq() == s@,
    {
        out.push(c);
    }
    out
}

/// The string made of the characters `v`.
pub fn string_of(v: &[char]) -> (r: String)
    ensures
        r@ == v@,
{
    let mut s = String::new();
    let mut i: usize = 0;
    while i < v.len()
        invariant
            i <= v.len(),
            s@ == v@.take(i as int),
        decreases v.len() - i,
    {
        push_char(&mut s, v[i]);
        i += 1;
        assert(s@ =~= v@.take(i as int));
    }
    assert(v@.take(v.len() as int) =~= v@);
    s
}

// ---------------------------------------------------------------------------
// Digits
// ---------------------------------------------------------------------------

/// The decimal digit character for `d` (0..=9).
pub open spec fn digit_char(d: nat) -> char {
    ((48 + d) as u8) as char
}

/// Decimal text of `n`, without leading zeros.
pub open spec fn decimal(n: nat) -> Seq<char>
    decreases n,
{
    if n < 10 {
        seq![digit_char(n)]
    } else {
        decimal(n / 10).push(digit_char(n % 10))
    }
}

/// Decimal text of a signed value: a minus sign before the magnitude.
pub open spec fn signed_decimal(n: int) -> Seq<char> {
    if n < 0 {
        seq!['-'] + decimal((-n) as nat)
    } else {
        decimal(n as nat)
    }
}

/// Decimal text of `n`, padded on the left with zeros to at least `width`.
pub open spec fn zero_padded(n: nat, width: nat) -> Seq<char> {
    let d = decimal(n);
    if d.len() >= width {
        d
    } else {
        Seq::new((width - d.len()) as nat, |_i: int| '0') + d
    }
}

/// Lower-case hexadecimal digit for `d` (0..=15).
pub open spec fn hex_digit(d: nat) -> char {
    if d < 10 {
        digit_char(d)
    } else {
        ((87 + d) as u8) as char
    }
}

/// Two lower-case hexadecimal digits of a byte.
pub open spec fn hex2(b: u8) -> Seq<char> {
    seq![hex_digit((b / 16) as nat), hex_digit((b % 16) as nat)]
}

/// A decimal numeral has at least one digit.
pub proof fn lemma_decimal_len_pos(n: nat)
    ensures
        decimal(n).len() >= 1,
    decreases n,
{
    if n >= 10 {
        lemma_decimal_len_pos(n / 10);
    }
}

fn digit(d: u64) -> (c: char)
    requires
        d < 10,
    ensures
        c == digit_char(d as nat),
{
    ((48 + d) as u8) as char
}

/// Appends the decimal text of `n`.
pub fn push_decimal(s: &mut String, n: u64)
    ensures
        final(s)@ == old(s)@ + decimal(n as nat),
    decreases n,
{
    if n >= 10 {
        push_decimal(s, n / 10);
    }
    push_char(s, digit(n % 10));
    proof {
        if n >= 10 {
            assert(decimal(n as nat) == decimal((n / 10) as nat).push(digit_char((n % 10) as nat)));
        }
    }
    assert(s@ =~= old(s)@ + decimal(n as nat));
}

/// Appends the decimal text of a signed value.
pub fn push_signed(s: &mut String, n: i64)
    ensures
        final(s)@ == old(s)@ + signed_decimal(n as int),
{
    if n < 0 {
        push_char(s, '-');
        let m: u64 = if n == i64::MIN {
            9223372036854775808u64
        } else {
            (-n) as u64
        };
        push_decimal(s, m);
        assert(s@ =~= old(s)@ + signed_decimal(n as int));
    } else {
        push_decimal(s, n as u64);
    }
}

/// Appends the decimal text of `n`, zero-padded to `width` characters.
pub fn push_zero_padded(s: &mut String, n: u64, width: usize)
    ensures
        final(s)@ == old(s)@ + zero_padded(n as nat, width as nat),
{
    let mut digits = String::new();
    push_decimal(&mut digits, n);
    let len = digits.unicode_len();
    let ghost start = s@;
    if len < width {
        let pad = width - len;
        let mut i: usize = 0;
        while i < pad
            invariant
                i <= pad,
                s@ == start + Seq::new(i as nat, |_j: int| '0'),
            decreases pad - i,
        {
            push_char(s, '0');
            i += 1;
            assert(s@ =~= start + Seq::new(i as nat, |_j: int| '0'));
        }
    }
    s.append(digits.as_str());
    assert(s@ =~= start + zero_padded(n as nat, width as nat));
}

fn hex_char(d: u8) -> (c: char)
    requires
        d < 16,
    ensures
        c == hex_digit(d as nat),
{
    if d < 10 {
        ((48 + d) as u8) as char
    } else {
        ((87 + d) as u8) as char
    }
}

/// Appends two lower-case hexadecimal digits of `b`.
pub fn push_hex2(s: &mut String, b: u8)
    ensures
        final(s)@ == old(s)@ + hex2(b),
{
    push_char(s, hex_char(b / 16));
    push_char(s, hex_char(b % 16));
    assert(s@ =~= old(s)@ + hex2(b));
}


// ---------------------------------------------------------------------------
// Comparing and slicing character sequences
// ---------------------------------------------------------------------------

/// Whether two strings hold the same characters.
pub fn str_eq(a: &str, b: &str) -> (r: bool)
    ensures
        r == (a@ == b@),
{
    let n = a.unicode_len();
    if n != b.unicode_len() {
        return false;
    }
    let mut i: usize = 0;
    while i < n
        invariant
            n == a@.len(),
            n == b@.len(),
            i <= n,
            a@.take(i as int) == b@.take(i as int),
        decreases n - i,
    {
        if a.get_char(i) != b.get_char(i) {
            return false;
        }
        assert(a@.take(i as int + 1) =~= a@.take(i as int).push(a@[i as int]));
        assert(b@.take(i as int + 1) =~= b@.take(i as int).push(b@[i as int]));
        i += 1;
    }
    assert(a@ =~= a@.take(n as int));
    assert(b@ =~= b@.take(n as int));
    true
}

/// Whether `s` holds the characters of `lit`.
pub fn chars_eq(s: &[char], lit: &str) -> (r: bool)
    ensures
        r == (s@ == lit@),
{
    let n = lit.unicode_len();
    if s.len() != n {
        return false;
    }
    assert(s@.take(n as int) =~= s@);
    starts_with(s, lit)
}

/// Whether `s` begins with the characters of `prefix`.
pub fn starts_with(s: &[char], prefix: &str) -> (r: bool)
    ensures
        r == (prefix@.len() <= s@.len() && s@.take(prefix@.len() as int) == prefix@),
{
    let n = prefix.unicode_len();
    if n > s.len() {
        return false;
    }
    let mut i: usize = 0;
    while i < n
        invariant
            n == prefix@.len(),
            n <= s@.len(),
            i <= n,
            s@.take(i as int) == prefix@.take(i as int),
        decreases n - i,
    {
        if s[i] != prefix.get_char(i) {
            assert(s@.take(n as int)[i as int] != prefix@[i as int]);
            return false;
        }
        assert(s@.take(i as int + 1) =~= s@.take(i as int).push(s@[i as int]));
        assert(prefix@.take(i as int + 1) =~= prefix@.take(i as int).push(prefix@[i as int]));
        i += 1;
    }
    assert(prefix@ =~= prefix@.take(n as int));
    true
}

/// Whether `c` occurs in `s`.
pub fn contains_char(s: &[char], c: char) -> (r: bool)
    ensures
        r == s@.contains(c),
{
    let mut i: usize = 0;
    while i < s.len()
        invariant
            i <= s.len(),
            forall|j: int| 0 <= j < i ==> s@[j] != c,
        decreases s.len() - i,
    {
        if s[i] == c {
            assert(s@[i as int] == c);
            return true;
        }
        i += 1;
    }
    false
}

/// The position of the last `c` in `s`.
pub open spec fn spec_rfind(s: Seq<char>, c: char) -> Option<int>
    decreases s.len(),
{
    if s.len() == 0 {
        None
    } else if s.last() == c {
        Some(s.len() - 1)
    } else {
        spec_rfind(s.drop_last(), c)
    }
}

/// The position of the first `c` in `s`.
pub open spec fn spec_find(s: Seq<char>, c: char) -> Option<int>
    decreases s.len(),
{
    if s.len() == 0 {
        None
    } else if s[0] == c {
        Some(0)
    } else {
        match spec_find(s.drop_first(), c) {
            Some(i) => Some(i + 1),
            None => None,
        }
    }
}

pub proof fn lemma_rfind_range(s: Seq<char>, c: char)
    ensures
        spec_rfind(s, c) matches Some(i) ==> 0 <= i < s.len() && s[i] == c,
    decreases s.len(),
{
    if s.len() > 0 && s.last() != c {
        lemma_rfind_range(s.drop_last(), c);
    }
}

/// The position of the last `c` in `s`.
pub fn rfind(s: &[char], c: char) -> (r: Option<usize>)
    ensures
        r == (match spec_rfind(s@, c) {
            Some(i) => Some(i as usize),
            None => None::<usize>,
        }),
        r matches Some(i) ==> i < s.len() && s@[i as int] == c,
        spec_rfind(s@, c) matches Some(i) ==> 0 <= i < s.len(),
    decreases s.len(),
{
    proof { lemma_rfind_range(s@, c); }
    let mut i: usize = s.len();
    assert(s@.take(i as int) =~= s@);
    while i > 0
        invariant
            i <= s.len(),
            spec_rfind(s@, c) == spec_rfind(s@.take(i as int), c),
        decreases i,
    {
        assert(s@.take(i as int).drop_last() =~= s@.take(i as int - 1));
        if s[i - 1] == c {
            proof { lemma_rfind_range(s@, c); }
            return Some(i - 1);
        }
        i -= 1;
    }
    assert(s@.take(0) =~= Seq::<char>::empty());
    None
}

proof fn lemma_find_range(s: Seq<char>, c: char)
    ensures
        spec_find(s, c) matches Some(i) ==> 0 <= i < s.len() && s[i] == c,
    decreases s.len(),
{
    if s.len() > 0 && s[0] != c {
        lemma_find_range(s.drop_first(), c);
    }
}

/// The position of the first `c` in `s`.
pub fn find(s: &[char], c: char) -> (r: Option<usize>)
    ensures
        r == (match spec_find(s@, c) {
            Some(i) => Some(i as usize),
            None => None::<usize>,
        }),
        r matches Some(i) ==> i < s.len() && s@[i as int] == c,
        spec_find(s@, c) matches Some(i) ==> 0 <= i < s.len(),
{
    proof { lemma_find_range(s@, c); }
    let mut i: usize = 0;
    assert(s@.skip(0) =~= s@);
    while i < s.len()
        invariant
            i <= s.len(),
            spec_find(s@, c) == (match spec_find(s@.skip(i as int), c) {
                Some(j) => Some(j + i),
                None => None,
            }),
        decreases s.len() - i,
    {
        assert(s@.skip(i as int).drop_first() =~= s@.skip(i as int + 1));
        if s[i] == c {
            return Some(i);
        }
        i += 1;
    }
    assert(s@.skip(s.len() as int) =~= Seq::<char>::empty());
    None
}

/// The characters of `s` from `lo` up to `hi`.
pub fn sub_chars(s: &[char], lo: usize, hi: usize) -> (r: Vec<char>)
    requires
        lo <= hi <= s.len(),
    ensures
        r@ == s@.subrange(lo as int, hi as int),
{
    let mut out: Vec<char> = Vec::new();
    let mut i: usize = lo;
    while i < hi
        invariant
            lo <= i <= hi <= s.len(),
            out@ == s@.subrange(lo as int, i as int),
        decreases hi - i,
    {
        out.push(s[i]);
        i += 1;
        assert(out@ =~= s@.subrange(lo as int, i as int));
    }
    out
}

// ---------------------------------------------------------------------------
// Upper case
// ---------------------------------------------------------------------------

/// ASCII upper case of one character (`char::to_ascii_uppercase`).
pub open spec fn ascii_upper(c: char) -> char {
    if 'a' <= c && c <= 'z' {
        ((c as u32) - 32) as char
    } else {
        c
    }
}

pub fn to_ascii_upper(c: char) -> (r: char)
    ensures
        r == ascii_upper(c),
{
    if 'a' <= c && c <= 'z' {
        let v: u8 = (c as u8) - 32;
        v as char
    } else {
        c
    }
}

/// ASCII upper case of every character of `s`.
pub fn upper_chars(s: &[char]) -> (r: Vec<char>)
    ensures
        r@ == s@.map_values(|c: char| ascii_upper(c)),
{
    let mut out: Vec<char> = Vec::new();
    let mut i: usize = 0;
    while i < s.len()
        invariant
            i <= s.len(),
            out@ == s@.take(i as int).map_values(|c: char| ascii_upper(c)),
        decreases s.len() - i,
    {
        out.push(to_ascii_upper(s[i]));
        i += 1;
        assert(out@ =~= s@.take(i as int).map_values(|c: char| ascii_upper(c)));
    }
    assert(s@.take(s.len() as int) =~= s@);
    out
}

// ---------------------------------------------------------------------------
// Splitting
// ---------------------------------------------------------------------------

/// The pieces of `s` between occurrences of `sep` (`str::split`): one more
/// piece than there are separators, empty pieces kept.
pub open spec fn spec_split(s: Seq<char>, sep: char) -> Seq<Seq<char>>
    decreases s.len(),
{
    if s.len() == 0 {
        seq![Seq::<char>::empty()]
    } else {
        let prev = spec_split(s.drop_last(), sep);
        if s.last() == sep {
            prev.push(Seq::<char>::empty())
        } else {
            prev.update(prev.len() - 1, prev.last().push(s.last()))
        }
    }
}

proof fn lemma_split_nonempty(s: Seq<char>, sep: char)
    ensures
        spec_split(s, sep).len() >= 1,
    decreases s.len(),
{
    if s.len() > 0 {
        lemma_split_nonempty(s.drop_last(), sep);
    }
}

/// Splits `s` at every `sep`.
pub fn split_on(s: &[char], sep: char) -> (r: Vec<Vec<char>>)
    ensures
        r@.len() == spec_split(s@, sep).len(),
        forall|k: int| 0 <= k < r@.len() ==> #[trigger] r@[k]@ == spec_split(s@, sep)[k],
{
    let mut out: Vec<Vec<char>> = Vec::new();
    out.push(Vec::new());
    let mut i: usize = 0;
    assert(s@.take(0) =~= Seq::<char>::empty());
    while i < s.len()
        invariant
            i <= s.len(),
            out@.len() == spec_split(s@.take(i as int), sep).len(),
            forall|k: int| 0 <= k < out@.len() ==> #[trigger] out@[k]@ == spec_split(s@.take(i as int), sep)[k],
        decreases s.len() - i,
    {
        let ghost prev = spec_split(s@.take(i as int), sep);
        proof {
            lemma_split_nonempty(s@.take(i as int), sep);
            assert(s@.take(i as int + 1).drop_last() =~= s@.take(i as int));
        }
        let c = s[i];
        if c == sep {
            out.push(Vec::new());
        } else {
            let mut last = out.pop().unwrap();
            last.push(c);
            out.push(last);
        }
        i += 1;
        proof {
            let cur = spec_split(s@.take(i as int), sep);
            assert(cur.len() == out@.len());
            assert forall|k: int| 0 <= k < out@.len() implies #[trigger] out@[k]@ == cur[k] by {
                if k < out@.len() - 1 {
                    assert(out@[k]@ == prev[k]);
                }
            }
        }
    }
    assert(s@.take(s.len() as int) =~= s@);
    out
}

/// Whitespace as `char::is_whitespace` knows it (Unicode `White_Space`).
pub open spec fn is_ws(c: char) -> bool {
    ||| c == ' '
    ||| ('\t' <= c && c <= '\r')
    ||| c == '\u{85}'
    ||| c == '\u{a0}'
    ||| c == '\u{1680}'
    ||| ('\u{2000}' <= c && c <= '\u{200a}')
    ||| c == '\u{2028}'
    ||| c == '\u{2029}'
    ||| c == '\u{202f}'
    ||| c == '\u{205f}'
    ||| c == '\u{3000}'
}

pub fn is_whitespace(c: char) -> (r: bool)
    ensures
        r == is_ws(c),
{
    c == ' ' || ('\t' <= c && c <= '\r') || c == '\u{85}' || c == '\u{a0}' || c == '\u{1680}'
        || ('\u{2000}' <= c && c <= '\u{200a}') || c == '\u{2028}' || c == '\u{2029}'
        || c == '\u{202f}' || c == '\u{205f}' || c == '\u{3000}'
}

/// The words of `s` (`str::split_whitespace`): the maximal runs of
/// characters that are not whitespace, in order.
pub open spec fn spec_words(s: Seq<char>) -> Seq<Seq<char>>
    decreases s.len(),
{
    if s.len() == 0 {
        seq![]
    } else {
        let w = spec_words(s.drop_last());
        let c = s.last();
        if is_ws(c) {
            w
        } else if s.len() >= 2 && !is_ws(s[s.len() - 2]) {
            w.update(w.len() - 1, w.last().push(c))
        } else {
            w.push(seq![c])
        }
    }
}

proof fn lemma_words_nonempty(s: Seq<char>)
    requires
        s.len() > 0,
        !is_ws(s.last()),
    ensures
        spec_words(s).len() >= 1,
    decreases s.len(),
{
    if s.len() >= 2 && !is_ws(s[s.len() - 2]) {
        assert(s.drop_last().last() == s[s.len() - 2]);
        lemma_words_nonempty(s.drop_last());
    }
}

/// Splits `s` into its words.
pub fn words(s: &[char]) -> (r: Vec<Vec<char>>)
    ensures
        r@.len() == spec_words(s@).len(),
        forall|k: int| 0 <= k < r@.len() ==> #[trigger] r@[k]@ == spec_words(s@)[k],
{
    let mut out: Vec<Vec<char>> = Vec::new();
    let mut i: usize = 0;
    let mut prev_ws = true;
    assert(s@.take(0) =~= Seq::<char>::empty());
    while i < s.len()
        invariant
            i <= s.len(),
            prev_ws == (i == 0 || is_ws(s@[i - 1])),
            out@.len() == spec_words(s@.take(i as int)).len(),
            forall|k: int| 0 <= k < out@.len() ==> #[trigger] out@[k]@ == spec_words(s@.take(i as int))[k],
        decreases s.len() - i,
    {
        let ghost prev = spec_words(s@.take(i as int));
        let c = s[i];
        let ws = is_whitespace(c);
        proof {
            assert(s@.take(i as int + 1).drop_last() =~= s@.take(i as int));
            if i > 0 {
                assert(s@.take(i as int + 1)[i - 1] == s@[i - 1]);
                if !prev_ws {
                    assert(s@.take(i as int).last() == s@[i - 1]);
                    lemma_words_nonempty(s@.take(i as int));
                }
            }
        }
        if ws {
        } else if !prev_ws {
            let mut last = out.pop().unwrap();
            last.push(c);
            out.push(last);
        } else {
            let mut w: Vec<char> = Vec::new();
            w.push(c);
            out.push(w);
        }
        prev_ws = ws;
        i += 1;
        proof {
            let cur = spec_words(s@.take(i as int));
            assert(cur.len() == out@.len());
            assert forall|k: int| 0 <= k < out@.len() implies #[trigger] out@[k]@ == cur[k] by {
                if k < prev.len() && !(k == prev.len() - 1 && !ws && i >= 2 && !is_ws(s@[i - 2])) {
                    assert(out@[k]@ == prev[k]);
                }
                if k == out@.len() - 1 && !ws {
                    assert(cur[k] =~= out@[k]@);
                }
            }
        }
    }
    assert(s@.take(s.len() as int) =~= s@);
    out
}

// ---------------------------------------------------------------------------
// Reading numbers
// ---------------------------------------------------------------------------

pub open spec fn is_digit(c: char) -> bool {
    '0' <= c && c <= '9'
}

pub open spec fn all_digits(s: Seq<char>) -> bool {
    forall|i: int| 0 <= i < s.len() ==> is_digit(#[trigger] s[i])
}

/// The value of a run of decimal digits.
pub open spec fn digits_value(s: Seq<char>) -> nat
    decreases s.len(),
{
    if s.len() == 0 {
        0
    } else {
        digits_value(s.drop_last()) * 10 + (s.last() as nat - 48) as nat
    }
}

/// The magnitude text of a number: `s` without one leading sign among `signs`.
pub open spec fn unsigned_part(s: Seq<char>, minus_allowed: bool) -> Seq<char> {
    if s.len() > 0 && (s[0] == '+' || (minus_allowed && s[0] == '-')) {
        s.drop_first()
    } else {
        s
    }
}

/// What `str::parse::<u32>` gives: an optional `+`, then one or more
/// decimal digits whose value fits.
pub open spec fn spec_parse_u32(s: Seq<char>) -> Option<u32> {
    let t = unsigned_part(s, false);
    if t.len() > 0 && all_digits(t) && digits_value(t) <= u32::MAX {
        Some(digits_value(t) as u32)
    } else {
        None
    }
}

/// What `str::parse::<i32>` gives: an optional sign, then one or more
/// decimal digits whose signed value fits.
pub open spec fn spec_parse_i32(s: Seq<char>) -> Option<i32> {
    let t = unsigned_part(s, true);
    let neg = s.len() > 0 && s[0] == '-';
    let v: int = if neg { -(digits_value(t) as int) } else { digits_value(t) as int };
    if t.len() > 0 && all_digits(t) && i32::MIN <= v <= i32::MAX {
        Some(v as i32)
    } else {
        None
    }
}

proof fn lemma_digits_value_mono(s: Seq<char>, i: int)
    requires
        0 <= i <= s.len(),
        all_digits(s),
    ensures
        digits_value(s.take(i)) <= digits_value(s),
    decreases s.len() - i,
{
    if i < s.len() {
        lemma_digits_value_mono(s, i + 1);
        assert(s.take(i + 1).drop_last() =~= s.take(i));
    } else {
        assert(s.take(i) =~= s);
    }
}

/// Reads the digits of `t` (no sign) if they are all digits and their
/// value is at most `limit`.
fn digits_up_to(t: &[char], limit: u64) -> (r: Option<u64>)
    requires
        limit <= u32::MAX + 1,
    ensures
        r matches Some(v) ==> t@.len() > 0 && all_digits(t@) && v == digits_value(t@) && v <= limit,
        r is None ==> !(t@.len() > 0 && all_digits(t@) && digits_value(t@) <= limit),
{
    if t.len() == 0 {
        return None;
    }
    let mut v: u64 = 0;
    let mut i: usize = 0;
    while i < t.len()
        invariant
            i <= t.len(),
            all_digits(t@.take(i as int)),
            v == digits_value(t@.take(i as int)),
            v <= limit,
            limit <= u32::MAX + 1,
        decreases t.len() - i,
    {
        let c = t[i];
        assert(t@.take(i as int + 1).drop_last() =~= t@.take(i as int));
        if !('0' <= c && c <= '9') {
            proof {
                if all_digits(t@) {
                    assert(is_digit(t@[i as int]));
                }
            }
            return None;
        }
        let d = (c as u64) - 48;
        let nv = v * 10 + d;
        if nv > limit {
            proof {
                if all_digits(t@) {
                    lemma_digits_value_mono(t@, i as int + 1);
                }
            }
            return None;
        }
        v = nv;
        i += 1;
        assert(all_digits(t@.take(i as int)));
    }
    assert(t@.take(t.len() as int) =~= t@);
    Some(v)
}

/// Reads an unsigned 32-bit number the way `str::parse::<u32>` does.
pub fn parse_u32(s: &[char]) -> (r: Option<u32>)
    ensures
        r == spec_parse_u32(s@),
{
    let start: usize = if s.len() > 0 && s[0] == '+' { 1 } else { 0 };
    let t = sub_chars(s, start, s.len());
    assert(t@ == unsigned_part(s@, false));
    match digits_up_to(&t, 0xffff_ffff) {
        Some(v) => Some(v as u32),
        None => None,
    }
}

/// Reads a signed 32-bit number the way `str::parse::<i32>` does.
pub fn parse_i32(s: &[char]) -> (r: Option<i32>)
    ensures
        r == spec_parse_i32(s@),
{
    let neg = s.len() > 0 && s[0] == '-';
    let start: usize = if s.len() > 0 && (s[0] == '+' || s[0] == '-') { 1 } else { 0 };
    let t = sub_chars(s, start, s.len());
    assert(t@ == unsigned_part(s@, true));
    let limit: u64 = if neg { 0x8000_0000 } else { 0x7fff_ffff };
    match digits_up_to(&t, limit) {
        Some(v) => {
            if neg {
                if v == 0x8000_0000 {
                    Some(i32::MIN)
                } else {
                    Some(-(v as i32))
                }
            } else {
                Some(v as i32)
            }
        },
        None => None,
    }
}


// ---------------------------------------------------------------------------
// Lines
// ---------------------------------------------------------------------------

/// A line without the carriage return that ends it, if any.
pub open spec fn strip_cr(p: Seq<char>) -> Seq<char> {
    if p.len() > 0 && p.last() == '\r' {
        p.drop_last()
    } else {
        p
    }
}

/// The lines of `s` (`str::lines`): the pieces between newlines, a final
/// empty piece dropped, and a carriage return before a newline removed.
pub open spec fn spec_lines(s: Seq<char>) -> Seq<Seq<char>> {
    let parts = spec_split(s, '\n');
    let n: int = if parts.last().len() == 0 { parts.len() - 1 } else { parts.len() as int };
    Seq::new(n as nat, |k: int| if k < parts.len() - 1 { strip_cr(parts[k]) } else { parts[k] })
}

/// Splits `s` into its lines.
pub fn lines(s: &[char]) -> (r: Vec<Vec<char>>)
    ensures
        r@.len() == spec_lines(s@).len(),
        forall|k: int| 0 <= k < r@.len() ==> #[trigger] r@[k]@ == spec_lines(s@)[k],
{
    let parts = split_on(s, '\n');
    proof { lemma_split_nonempty(s@, '\n'); }
    let ghost sp = spec_split(s@, '\n');
    let np = parts.len();
    let n: usize = if parts[np - 1].len() == 0 { np - 1 } else { np };
    let mut out: Vec<Vec<char>> = Vec::new();
    let mut k: usize = 0;
    while k < n
        invariant
            n <= np,
            np == parts@.len(),
            np == sp.len(),
            n as int == spec_lines(s@).len(),
            sp == spec_split(s@, '\n'),
            forall|j: int| 0 <= j < parts@.len() ==> #[trigger] parts@[j]@ == sp[j],
            k <= n,
            out@.len() == k,
            forall|j: int| 0 <= j < k ==> #[trigger] out@[j]@ == spec_lines(s@)[j],
        decreases n - k,
    {
        let p = &parts[k];
        let line = if k + 1 < np && p.len() > 0 && p[p.len() - 1] == '\r' {
            let t = sub_chars(p, 0, p.len() - 1);
            assert(t@ =~= p@.drop_last());
            t
        } else {
            sub_chars(p, 0, p.len())
        };
        assert(line@ =~= spec_lines(s@)[k as int]);
        out.push(line);
        k += 1;
    }
    out
}


/// Whether two character sequences are equal.
pub fn same_chars(a: &[char], b: &[char]) -> (r: bool)
    ensures
        r == (a@ == b@),
{
    if a.len() != b.len() {
        return false;
    }
    let mut i: usize = 0;
    while i < a.len()
        invariant
            a.len() == b.len(),
            i <= a.len(),
            a@.take(i as int) == b@.take(i as int),
        decreases a.len() - i,
    {
        if a[i] != b[i] {
            assert(a@[i as int] != b@[i as int]);
            return false;
        }
        assert(a@.take(i as int + 1) =~= a@.take(i as int).push(a@[i as int]));
        assert(b@.take(i as int + 1) =~= b@.take(i as int).push(b@[i as int]));
        i += 1;
    }
    assert(a@ =~= a@.take(i as int));
    assert(b@ =~= b@.take(i as int));
    true
}

/// Whether `a` and `lit` are equal when ASCII letters are compared without
/// regard to case (`str::eq_ignore_ascii_case`).
pub fn eq_ignore_case(a: &[char], lit: &str) -> (r: bool)
    ensures
        r == (a@.map_values(|c: char| ascii_upper(c)) == lit@.map_values(|c: char| ascii_upper(c))),
{
    let l = chars_of(lit);
    let ua = upper_chars(a);
    let ul = upper_chars(&l);
    same_chars(&ua, &ul)
}


// ---------------------------------------------------------------------------
// Trimming, lower case, substrings
// ---------------------------------------------------------------------------

/// How many whitespace characters `s` starts with.
pub open spec fn lead_ws(s: Seq<char>) -> nat
    decreases s.len(),
{
    if s.len() > 0 && is_ws(s[0]) {
        1 + lead_ws(s.drop_first())
    } else {
        0
    }
}

/// How many whitespace characters `s` ends with.
pub open spec fn trail_ws(s: Seq<char>) -> nat
    decreases s.len(),
{
    if s.len() > 0 && is_ws(s.last()) {
        1 + trail_ws(s.drop_last())
    } else {
        0
    }
}

proof fn lemma_lead_ws_le(s: Seq<char>)
    ensures
        lead_ws(s) <= s.len(),
    decreases s.len(),
{
    if s.len() > 0 && is_ws(s[0]) {
        lemma_lead_ws_le(s.drop_first());
    }
}

proof fn lemma_trail_ws_le(s: Seq<char>)
    ensures
        trail_ws(s) <= s.len(),
    decreases s.len(),
{
    if s.len() > 0 && is_ws(s.last()) {
        lemma_trail_ws_le(s.drop_last());
    }
}

/// `s` without whitespace at either end (`str::trim`).
pub open spec fn spec_trim(s: Seq<char>) -> Seq<char> {
    let t = s.skip(lead_ws(s) as int);
    t.take(t.len() - trail_ws(t))
}

pub fn trim_chars(s: &[char]) -> (r: Vec<char>)
    ensures
        r@ == spec_trim(s@),
{
    let mut lo: usize = 0;
    proof { lemma_lead_ws_le(s@); }
    assert(s@.skip(0) =~= s@);
    while lo < s.len() && is_whitespace(s[lo])
        invariant
            lo <= s.len(),
            lead_ws(s@) == lo + lead_ws(s@.skip(lo as int)),
        decreases s.len() - lo,
    {
        assert(s@.skip(lo as int).drop_first() =~= s@.skip(lo as int + 1));
        lo += 1;
    }
    assert(lead_ws(s@.skip(lo as int)) == 0);
    let t = sub_chars(s, lo, s.len());
    assert(t@ =~= s@.skip(lo as int));
    let mut hi: usize = t.len();
    proof { lemma_trail_ws_le(t@); }
    assert(t@.take(hi as int) =~= t@);
    while hi > 0 && is_whitespace(t[hi - 1])
        invariant
            hi <= t.len(),
            trail_ws(t@) == (t.len() - hi) + trail_ws(t@.take(hi as int)),
        decreases hi,
    {
        assert(t@.take(hi as int).drop_last() =~= t@.take(hi as int - 1));
        hi -= 1;
    }
    assert(trail_ws(t@.take(hi as int)) == 0);
    sub_chars(&t, 0, hi)
}

/// ASCII lower case of one character (`char::to_ascii_lowercase`).
pub open spec fn ascii_lower(c: char) -> char {
    if 'A' <= c && c <= 'Z' {
        ((c as u32) + 32) as char
    } else {
        c
    }
}

pub fn lower_chars(s: &[char]) -> (r: Vec<char>)
    ensures
        r@ == s@.map_values(|c: char| ascii_lower(c)),
{
    let mut out: Vec<char> = Vec::new();
    let mut i: usize = 0;
    while i < s.len()
        invariant
            i <= s.len(),
            out@ == s@.take(i as int).map_values(|c: char| ascii_lower(c)),
        decreases s.len() - i,
    {
        let c = s[i];
        let l = if 'A' <= c && c <= 'Z' {
            let v: u8 = (c as u8) + 32;
            v as char
        } else {
            c
        };
        out.push(l);
        i += 1;
        assert(out@ =~= s@.take(i as int).map_values(|c: char| ascii_lower(c)));
    }
    assert(s@.take(s.len() as int) =~= s@);
    out
}

/// Whether `p` occurs in `s` as a run of consecutive characters.
pub open spec fn has_sub(s: Seq<char>, p: Seq<char>) -> bool {
    exists|i: int| 0 <= i && i + p.len() <= s.len() && #[trigger] s.subrange(i, i + p.len()) == p
}

/// Whether `lit` occurs in `s` (`str::contains`).
pub fn contains_str(s: &[char], lit: &str) -> (r: bool)
    ensures
        r == has_sub(s@, lit@),
{
    let p = chars_of(lit);
    let n = p.len();
    if n > s.len() {
        return false;
    }
    if n == 0 {
        assert(s@.subrange(0int, 0int + lit@.len()) =~= lit@);
        return true;
    }
    let mut i: usize = 0;
    let last = s.len() - n;
    while i <= last
        invariant
            n == lit@.len(),
            p@ == lit@,
            1 <= n <= s.len(),
            last == s.len() - n,
            i <= last + 1,
            forall|j: int| 0 <= j < i ==> #[trigger] s@.subrange(j, j + n) != lit@,
        decreases last + 1 - i,
    {
        let w = sub_chars(s, i, i + n);
        if same_chars(&w, &p) {
            return true;
        }
        i += 1;
    }
    false
}


// ---------------------------------------------------------------------------
// More numbers: 64-bit and hexadecimal
// ---------------------------------------------------------------------------

/// What `str::parse::<u64>` gives: an optional `+`, then one or more
/// decimal digits whose value fits.
pub open spec fn spec_parse_u64(s: Seq<char>) -> Option<u64> {
    let t = unsigned_part(s, false);
    if t.len() > 0 && all_digits(t) && digits_value(t) <= u64::MAX {
        Some(digits_value(t) as u64)
    } else {
        None
    }
}

/// What `str::parse::<i64>` gives: an optional sign, then one or more
/// decimal digits whose signed value fits.
pub open spec fn spec_parse_i64(s: Seq<char>) -> Option<i64> {
    let t = unsigned_part(s, true);
    let neg = s.len() > 0 && s[0] == '-';
    let v: int = if neg { -(digits_value(t) as int) } else { digits_value(t) as int };
    if t.len() > 0 && all_digits(t) && i64::MIN <= v <= i64::MAX {
        Some(v as i64)
    } else {
        None
    }
}

/// Reads the digits of `t` (no sign) if they are all digits and their
/// value is at most `limit`, in 128 bits.
fn digits_up_to_wide(t: &[char], limit: u128) -> (r: Option<u128>)
    requires
        limit <= u64::MAX as u128 + 1,
    ensures
        r matches Some(v) ==> t@.len() > 0 && all_digits(t@) && v == digits_value(t@) && v <= limit,
        r is None ==> !(t@.len() > 0 && all_digits(t@) && digits_value(t@) <= limit),
{
    if t.len() == 0 {
        return None;
    }
    let mut v: u128 = 0;
    let mut i: usize = 0;
    while i < t.len()
        invariant
            i <= t.len(),
            all_digits(t@.take(i as int)),
            v == digits_value(t@.take(i as int)),
            v <= limit,
            limit <= u64::MAX as u128 + 1,
        decreases t.len() - i,
    {
        let c = t[i];
        assert(t@.take(i as int + 1).drop_last() =~= t@.take(i as int));
        if !('0' <= c && c <= '9') {
            proof {
                if all_digits(t@) {
                    assert(is_digit(t@[i as int]));
                }
            }
            return None;
        }
        let d = (c as u128) - 48;
        let nv = v * 10 + d;
        if nv > limit {
            proof {
                if all_digits(t@) {
                    lemma_digits_value_mono(t@, i as int + 1);
                }
            }
            return None;
        }
        v = nv;
        i += 1;
        assert(all_digits(t@.take(i as int)));
    }
    assert(t@.take(t.len() as int) =~= t@);
    Some(v)
}

/// Reads an unsigned 64-bit number the way `str::parse::<u64>` does.
pub fn parse_u64(s: &[char]) -> (r: Option<u64>)
    ensures
        r == spec_parse_u64(s@),
{
    let start: usize = if s.len() > 0 && s[0] == '+' { 1 } else { 0 };
    let t = sub_chars(s, start, s.len());
    assert(t@ == unsigned_part(s@, false));
    match digits_up_to_wide(&t, 0xffff_ffff_ffff_ffff) {
        Some(v) => Some(v as u64),
        None => None,
    }
}

/// Reads a signed 64-bit number the way `str::parse::<i64>` does.
pub fn parse_i64(s: &[char]) -> (r: Option<i64>)
    ensures
        r == spec_parse_i64(s@),
{
    let neg = s.len() > 0 && s[0] == '-';
    let start: usize = if s.len() > 0 && (s[0] == '+' || s[0] == '-') { 1 } else { 0 };
    let t = sub_chars(s, start, s.len());
    assert(t@ == unsigned_part(s@, true));
    let limit: u128 = if neg { 0x8000_0000_0000_0000 } else { 0x7fff_ffff_ffff_ffff };
    match digits_up_to_wide(&t, limit) {
        Some(v) => {
            if neg {
                if v == 0x8000_0000_0000_0000 {
                    Some(i64::MIN)
                } else {
                    Some(-(v as i64))
                }
            } else {
                Some(v as i64)
            }
        },
        None => None,
    }
}

/// The value of a hexadecimal digit (either case), if it is one.
pub open spec fn hex_value(c: char) -> Option<nat> {
    if '0' <= c && c <= '9' {
        Some((c as nat - 48) as nat)
    } else if 'a' <= c && c <= 'f' {
        Some((c as nat - 87) as nat)
    } else if 'A' <= c && c <= 'F' {
        Some((c as nat - 55) as nat)
    } else {
        None
    }
}

pub open spec fn all_hex(s: Seq<char>) -> bool {
    forall|i: int| 0 <= i < s.len() ==> #[trigger] hex_value(s[i]) is Some
}

/// The value of a run of hexadecimal digits.
pub open spec fn hex_digits_value(s: Seq<char>) -> nat
    decreases s.len(),
{
    if s.len() == 0 {
        0
    } else {
        hex_digits_value(s.drop_last()) * 16 + match hex_value(s.last()) {
            Some(d) => d,
            None => 0,
        }
    }
}

/// What `u32::from_str_radix(s, 16)` (or `u8::`, with `limit` 255) gives:
/// an optional `+`, then one or more hexadecimal digits whose value is at
/// most `limit`.
pub open spec fn spec_parse_hex(s: Seq<char>, limit: nat) -> Option<nat> {
    let t = unsigned_part(s, false);
    if t.len() > 0 && all_hex(t) && hex_digits_value(t) <= limit {
        Some(hex_digits_value(t))
    } else {
        None
    }
}

proof fn lemma_hex_value_mono(s: Seq<char>, i: int)
    requires
        0 <= i <= s.len(),
        all_hex(s),
    ensures
        hex_digits_value(s.take(i)) <= hex_digits_value(s),
    decreases s.len() - i,
{
    if i < s.len() {
        lemma_hex_value_mono(s, i + 1);
        assert(s.take(i + 1).drop_last() =~= s.take(i));
    } else {
        assert(s.take(i) =~= s);
    }
}

fn hex_digit_value(c: char) -> (r: Option<u64>)
    ensures
        match hex_value(c) {
            Some(d) => r == Some(d as u64),
            None => r is None,
        },
{
    if '0' <= c && c <= '9' {
        Some((c as u64) - 48)
    } else if 'a' <= c && c <= 'f' {
        Some((c as u64) - 87)
    } else if 'A' <= c && c <= 'F' {
        Some((c as u64) - 55)
    } else {
        None
    }
}

/// Reads a hexadecimal number the way `from_str_radix(s, 16)` does for an
/// unsigned type whose largest value is `limit`.
pub fn parse_hex(s: &[char], limit: u64) -> (r: Option<u64>)
    requires
        limit <= u32::MAX,
    ensures
        match r {
            Some(v) => spec_parse_hex(s@, limit as nat) == Some(v as nat),
            None => spec_parse_hex(s@, limit as nat) is None,
        },
{
    let start: usize = if s.len() > 0 && s[0] == '+' { 1 } else { 0 };
    let t = sub_chars(s, start, s.len());
    assert(t@ == unsigned_part(s@, false));
    if t.len() == 0 {
        return None;
    }
    let mut v: u64 = 0;
    let mut i: usize = 0;
    while i < t.len()
        invariant
            i <= t.len(),
            all_hex(t@.take(i as int)),
            v == hex_digits_value(t@.take(i as int)),
            v <= limit,
            limit <= u32::MAX,
            t@ == unsigned_part(s@, false),
        decreases t.len() - i,
    {
        assert(t@.take(i as int + 1).drop_last() =~= t@.take(i as int));
        let d = match hex_digit_value(t[i]) {
            Some(d) => d,
            None => {
                proof {
                    if all_hex(t@) {
                        assert(hex_value(t@[i as int]) is Some);
                    }
                }
                return None;
            },
        };
        let nv = v * 16 + d;
        if nv > limit {
            proof {
                if all_hex(t@) {
                    lemma_hex_value_mono(t@, i as int + 1);
                }
            }
            return None;
        }
        v = nv;
        i += 1;
        assert(all_hex(t@.take(i as int)));
    }
    assert(t@.take(t.len() as int) =~= t@);
    Some(v)
}

/// `s` without every leading repetition of `p` (`trim_start_matches`).
pub open spec fn strip_all_prefix(s: Seq<char>, p: Seq<char>) -> Seq<char>
    decreases s.len(),
{
    if p.len() > 0 && p.len() <= s.len() && s.take(p.len() as int) == p {
        strip_all_prefix(s.skip(p.len() as int), p)
    } else {
        s
    }
}

/// `s` without every leading `0x`.
pub fn strip_hex_prefix(s: &[char]) -> (r: Vec<char>)
    ensures
        r@ == strip_all_prefix(s@, "0x"@),
{
    proof {
        reveal_strlit("0x");
    }
    let mut i: usize = 0;
    assert(s@.skip(0) =~= s@);
    while s.len() - i >= 2 && s[i] == '0' && s[i + 1] == 'x'
        invariant
            i <= s.len(),
            "0x"@ == seq!['0', 'x'],
            strip_all_prefix(s@, "0x"@) == strip_all_prefix(s@.skip(i as int), "0x"@),
        decreases s.len() - i,
    {
        let ghost rest = s@.skip(i as int);
        assert(rest.take(2) =~= "0x"@);
        assert(rest.skip(2) =~= s@.skip(i as int + 2));
        i += 2;
    }
    let ghost rest = s@.skip(i as int);
    proof {
        if 2 <= rest.len() && rest.take(2) == "0x"@ {
            assert(rest[0] == '0' && rest[1] == 'x');
        }
    }
    let r = sub_chars(s, i, s.len());
    assert(r@ =~= rest);
    r
}

/// The position where `lit` first occurs in `s`.
pub open spec fn first_sub(s: Seq<char>, lit: Seq<char>) -> Option<int> {
    if exists|i: int| 0 <= i && i + lit.len() <= s.len() && #[trigger] s.subrange(i, i + lit.len()) == lit {
        Some(choose|i: int| 0 <= i && i + lit.len() <= s.len() && #[trigger] s.subrange(i, i + lit.len()) == lit
            && forall|j: int| 0 <= j < i ==> #[trigger] s.subrange(j, j + lit.len()) != lit)
    } else {
        None
    }
}

/// Finds where `lit` first occurs in `s` (`str::find`).
pub fn find_str(s: &[char], lit: &str) -> (r: Option<usize>)
    ensures
        match r {
            Some(i) => i + lit@.len() <= s@.len() && s@.subrange(i as int, i + lit@.len()) == lit@
                && forall|j: int| 0 <= j < i ==> #[trigger] s@.subrange(j, j + lit@.len()) != lit@,
            None => !has_sub(s@, lit@),
        },
{
    let p = chars_of(lit);
    let n = p.len();
    if n > s.len() {
        return None;
    }
    let mut i: usize = 0;
    let last = s.len() - n;
    while i <= last
        invariant
            n == lit@.len(),
            p@ == lit@,
            n <= s.len(),
            last == s.len() - n,
            i <= last + 1,
            forall|j: int| 0 <= j < i ==> #[trigger] s@.subrange(j, j + n) != lit@,
        decreases last + 1 - i,
    {
        let w = sub_chars(s, i, i + n);
        if same_chars(&w, &p) {
            return Some(i);
        }
        if i == last {
            assert forall|j: int| 0 <= j && j + n <= s.len() implies #[trigger] s@.subrange(j, j + n) != lit@ by {
                assert(j <= last);
            }
            return None;
        }
        i += 1;
    }
    None
}

} // verus!
