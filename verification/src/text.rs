//! Character-level text helpers: whitespace trimming, number parsing and formatting.
use vstd::prelude::*;
use vstd::string::{StrSliceExecFns, StringExecFns};

verus! {

/// The characters with the Unicode `White_Space` property, which `char::is_whitespace`
/// and `str::trim` use.
pub open spec fn is_whitespace(c: char) -> bool {
    ||| c == ' ' || c == '\t' || c == '\n' || c == '\u{0B}' || c == '\u{0C}' || c == '\r'
    ||| c == '\u{85}' || c == '\u{A0}' || c == '\u{1680}'
    ||| ('\u{2000}' <= c && c <= '\u{200A}')
    ||| c == '\u{2028}' || c == '\u{2029}' || c == '\u{202F}' || c == '\u{205F}' || c == '\u{3000}'
}

/// Whether `c` is Unicode whitespace.
pub fn is_whitespace_char(c: char) -> (r: bool)
    ensures
        r == is_whitespace(c),
{
    c == ' ' || c == '\t' || c == '\n' || c == '\u{0B}' || c == '\u{0C}' || c == '\r' || c
        == '\u{85}' || c == '\u{A0}' || c == '\u{1680}' || ('\u{2000}' <= c && c <= '\u{200A}')
        || c == '\u{2028}' || c == '\u{2029}' || c == '\u{202F}' || c == '\u{205F}' || c
        == '\u{3000}'
}

/// `s` without its leading whitespace.
pub open spec fn trim_front(s: Seq<char>) -> Seq<char>
    decreases s.len(),
{
    if s.len() > 0 && is_whitespace(s[0]) {
        trim_front(s.drop_first())
    } else {
        s
    }
}

/// `s` without its trailing whitespace.
pub open spec fn trim_back(s: Seq<char>) -> Seq<char>
    decreases s.len(),
{
    if s.len() > 0 && is_whitespace(s.last()) {
        trim_back(s.drop_last())
    } else {
        s
    }
}

/// `s` without leading and trailing whitespace, as `str::trim` gives it.
pub open spec fn trim(s: Seq<char>) -> Seq<char> {
    trim_back(trim_front(s))
}

/// The characters of `s`.
pub fn chars_of(s: &str) -> (v: Vec<char>)
    ensures
        v@ == s@,
{
    let n = s.unicode_len();
    let mut v: Vec<char> = Vec::new();
    let mut i: usize = 0;
    while i < n
        invariant
            n == s@.len(),
            i <= n,
            v@ == s@.take(i as int),
        decreases n - i,
    {
        v.push(s.get_char(i));
        assert(v@ =~= s@.take(i + 1));
        i = i + 1;
    }
    assert(v@ =~= s@);
    v
}

/// The bounds `(a, b)` of `v[from..to]` with its surrounding whitespace removed.
pub fn trim_bounds(v: &Vec<char>, from: usize, to: usize) -> (r: (usize, usize))
    requires
        from <= to <= v@.len(),
    ensures
        from <= r.0 <= r.1 <= to,
        v@.subrange(r.0 as int, r.1 as int) == trim(v@.subrange(from as int, to as int)),
{
    let mut a = from;
    while a < to && is_whitespace_char(v[a])
        invariant
            from <= a <= to <= v@.len(),
            trim_front(v@.subrange(from as int, to as int)) == trim_front(
                v@.subrange(a as int, to as int),
            ),
        decreases to - a,
    {
        assert(v@.subrange(a as int, to as int).drop_first() =~= v@.subrange(a + 1, to as int));
        a = a + 1;
    }
    assert(trim_front(v@.subrange(a as int, to as int)) == v@.subrange(a as int, to as int));
    let mut b = to;
    while b > a && is_whitespace_char(v[b - 1])
        invariant
            from <= a <= b <= to <= v@.len(),
            trim_back(v@.subrange(a as int, to as int)) == trim_back(
                v@.subrange(a as int, b as int),
            ),
        decreases b - a,
    {
        assert(v@.subrange(a as int, b as int).drop_last() =~= v@.subrange(a as int, b - 1));
        b = b - 1;
    }
    (a, b)
}

/// The ASCII lowercase of `c`; other characters are kept.
pub open spec fn ascii_lower(c: char) -> char {
    if 'A' <= c && c <= 'Z' {
        ((c as int) + 32) as char
    } else {
        c
    }
}

/// Whether `v[from..to]`, with ASCII letters lowercased, spells `word`.
pub fn lower_equals(v: &Vec<char>, from: usize, to: usize, word: &str) -> (r: bool)
    requires
        from <= to <= v@.len(),
    ensures
        r == (v@.subrange(from as int, to as int).map_values(|c: char| ascii_lower(c)) == word@),
{
    let ghost lowered = v@.subrange(from as int, to as int).map_values(|c: char| ascii_lower(c));
    let n = word.unicode_len();
    if to - from != n {
        assert(lowered.len() != word@.len());
        return false;
    }
    let mut j: usize = 0;
    while j < n
        invariant
            from <= to <= v@.len(),
            to - from == n,
            n == word@.len(),
            lowered == v@.subrange(from as int, to as int).map_values(|c: char| ascii_lower(c)),
            j <= n,
            forall|k: int| 0 <= k < j ==> lowered[k] == word@[k],
        decreases n - j,
    {
        let c = v[from + j];
        let w = word.get_char(j);
        let lc = if 'A' <= c && c <= 'Z' {
            ((c as u32) + 32) == (w as u32)
        } else {
            c == w
        };
        assert(lowered[j as int] == ascii_lower(v@[from + j]));
        if !lc {
            assert(lowered[j as int] != word@[j as int]);
            return false;
        }
        j = j + 1;
    }
    assert(lowered =~= word@);
    true
}

/// The value of a decimal digit character.
pub open spec fn dec_digit(c: char) -> Option<int> {
    if '0' <= c && c <= '9' {
        Some(c as int - '0' as int)
    } else {
        None
    }
}

/// The value of a hexadecimal digit character (either case).
pub open spec fn hex_digit(c: char) -> Option<int> {
    if '0' <= c && c <= '9' {
        Some(c as int - '0' as int)
    } else if 'a' <= c && c <= 'f' {
        Some(c as int - 'a' as int + 10)
    } else if 'A' <= c && c <= 'F' {
        Some(c as int - 'A' as int + 10)
    } else {
        None
    }
}

/// The value of the decimal digit string `d`, if every character is a digit.
pub open spec fn dec_value(d: Seq<char>) -> Option<int>
    decreases d.len(),
{
    if d.len() == 0 {
        Some(0)
    } else {
        match (dec_value(d.drop_last()), dec_digit(d.last())) {
            (Some(hi), Some(lo)) => Some(10 * hi + lo),
            _ => None,
        }
    }
}

/// The value of the hexadecimal digit string `d`, if every character is a hex digit.
pub open spec fn hex_value(d: Seq<char>) -> Option<int>
    decreases d.len(),
{
    if d.len() == 0 {
        Some(0)
    } else {
        match (hex_value(d.drop_last()), hex_digit(d.last())) {
            (Some(hi), Some(lo)) => Some(16 * hi + lo),
            _ => None,
        }
    }
}

/// The digits that `u8::from_str_radix` reads: a leading `+` is dropped; a lone sign has none.
pub open spec fn unsigned_digits(s: Seq<char>) -> Option<Seq<char>> {
    if s.len() == 0 {
        None
    } else if s.len() == 1 && (s[0] == '+' || s[0] == '-') {
        None
    } else if s[0] == '+' {
        Some(s.drop_first())
    } else {
        Some(s)
    }
}

/// The `u8` that `s.parse::<u8>()` gives: optional `+`, then decimal digits, at most 255.
pub open spec fn parse_u8_dec(s: Seq<char>) -> Option<u8> {
    match unsigned_digits(s) {
        Some(d) => match dec_value(d) {
            Some(v) => if v <= 255 {
                Some(v as u8)
            } else {
                None
            },
            None => None,
        },
        None => None,
    }
}

/// The `u8` that `u8::from_str_radix(s, 16)` gives: optional `+`, then hex digits, at most 255.
pub open spec fn parse_u8_hex(s: Seq<char>) -> Option<u8> {
    match unsigned_digits(s) {
        Some(d) => match hex_value(d) {
            Some(v) => if v <= 255 {
                Some(v as u8)
            } else {
                None
            },
            None => None,
        },
        None => None,
    }
}

proof fn lemma_dec_value_nonneg(d: Seq<char>)
    ensures
        dec_value(d) matches Some(v) ==> v >= 0,
    decreases d.len(),
{
    if d.len() > 0 {
        lemma_dec_value_nonneg(d.drop_last());
    }
}

proof fn lemma_hex_value_nonneg(d: Seq<char>)
    ensures
        hex_value(d) matches Some(v) ==> v >= 0,
    decreases d.len(),
{
    if d.len() > 0 {
        lemma_hex_value_nonneg(d.drop_last());
    }
}

/// Parses `v[from..to]` as `str::parse::<u8>` (radix 10) or `u8::from_str_radix(_, 16)` would.
pub fn parse_u8_in(v: &Vec<char>, from: usize, to: usize, hex: bool) -> (r: Option<u8>)
    requires
        from <= to <= v@.len(),
    ensures
        hex ==> r == parse_u8_hex(v@.subrange(from as int, to as int)),
        !hex ==> r == parse_u8_dec(v@.subrange(from as int, to as int)),
{
    let ghost s = v@.subrange(from as int, to as int);
    if from == to {
        return None;
    }
    if to - from == 1 && (v[from] == '+' || v[from] == '-') {
        return None;
    }
    let start = if v[from] == '+' {
        from + 1
    } else {
        from
    };
    let ghost d = v@.subrange(start as int, to as int);
    assert(unsigned_digits(s) == Some(d)) by {
        if v@[from as int] == '+' {
            assert(s.drop_first() =~= d);
        } else {
            assert(s =~= d);
        }
    }
    let radix: u32 = if hex {
        16
    } else {
        10
    };
    let mut acc: u32 = 0;
    let mut k = start;
    while k < to
        invariant
            from <= start <= k <= to <= v@.len(),
            d == v@.subrange(start as int, to as int),
            unsigned_digits(v@.subrange(from as int, to as int)) == Some(d),
            radix == (if hex { 16u32 } else { 10u32 }),
            acc <= 255,
            hex ==> hex_value(v@.subrange(start as int, k as int)) == Some(acc as int),
            !hex ==> dec_value(v@.subrange(start as int, k as int)) == Some(acc as int),
        decreases to - k,
    {
        let c = v[k];
        let digit: Option<u32> = if '0' <= c && c <= '9' {
            Some((c as u32) - ('0' as u32))
        } else if hex && 'a' <= c && c <= 'f' {
            Some((c as u32) - ('a' as u32) + 10)
        } else if hex && 'A' <= c && c <= 'F' {
            Some((c as u32) - ('A' as u32) + 10)
        } else {
            None
        };
        let ghost pre = v@.subrange(start as int, k as int);
        let ghost next = v@.subrange(start as int, k + 1);
        assert(next.drop_last() =~= pre);
        assert(next.last() == c);
        assert(d[(k - start) as int] == c);
        assert(d.take((k - start + 1) as int) =~= next);
        proof {
            if hex {
                assert(digit matches Some(dv) ==> hex_digit(c) == Some(dv as int));
                assert(digit is None ==> hex_digit(c) is None);
            } else {
                assert(digit matches Some(dv) ==> dec_digit(c) == Some(dv as int));
                assert(digit is None ==> dec_digit(c) is None);
            }
        }
        match digit {
            None => {
                proof {
                    // a non-digit makes the whole string unparsable
                    lemma_bad_char_spoils(d, (k - start) as int, hex);
                }
                return None;
            },
            Some(dv) => {
                let next_acc = acc * radix + dv;
                if next_acc > 255 {
                    proof {
                        lemma_big_prefix_spoils(d, (k - start + 1) as int, hex);
                    }
                    return None;
                }
                acc = next_acc;
            },
        }
        k = k + 1;
    }
    assert(d =~= v@.subrange(start as int, k as int));
    Some(acc as u8)
}

/// A character that is not a digit spoils every extension of the prefix before it.
proof fn lemma_bad_char_spoils(d: Seq<char>, k: int, hex: bool)
    requires
        0 <= k < d.len(),
        hex ==> hex_digit(d[k]) is None,
        !hex ==> dec_digit(d[k]) is None,
    ensures
        hex ==> hex_value(d) is None,
        !hex ==> dec_value(d) is None,
    decreases d.len(),
{
    if k < d.len() - 1 {
        lemma_bad_char_spoils(d.drop_last(), k, hex);
    }
}

/// A prefix whose value is already above 255 keeps every extension above 255.
proof fn lemma_big_prefix_spoils(d: Seq<char>, k: int, hex: bool)
    requires
        0 < k <= d.len(),
        hex ==> (hex_value(d.take(k)) matches Some(v) && v > 255),
        !hex ==> (dec_value(d.take(k)) matches Some(v) && v > 255),
    ensures
        hex ==> !(hex_value(d) matches Some(v) && v <= 255),
        !hex ==> !(dec_value(d) matches Some(v) && v <= 255),
    decreases d.len(),
{
    if k < d.len() {
        assert(d.drop_last().take(k) =~= d.take(k));
        lemma_big_prefix_spoils(d.drop_last(), k, hex);
        lemma_dec_value_nonneg(d.drop_last());
        lemma_hex_value_nonneg(d.drop_last());
    } else {
        assert(d.take(k) =~= d);
    }
}

/// The upper-case hexadecimal digit of `d` (0..=15).
pub open spec fn hex_upper(d: int) -> char {
    if d < 10 {
        (('0' as int) + d) as char
    } else {
        (('A' as int) + d - 10) as char
    }
}

/// The upper-case hexadecimal digit of `d`.
pub fn hex_digit_str(d: u8) -> (r: &'static str)
    requires
        d < 16,
    ensures
        r@ == seq![hex_upper(d as int)],
{
    match d {
        0 => {
            proof {
                reveal_strlit("0");
            }
            "0"
        },
        1 => {
            proof {
                reveal_strlit("1");
            }
            "1"
        },
        2 => {
            proof {
                reveal_strlit("2");
            }
            "2"
        },
        3 => {
            proof {
                reveal_strlit("3");
            }
            "3"
        },
        4 => {
            proof {
                reveal_strlit("4");
            }
            "4"
        },
        5 => {
            proof {
                reveal_strlit("5");
            }
            "5"
        },
        6 => {
            proof {
                reveal_strlit("6");
            }
            "6"
        },
        7 => {
            proof {
                reveal_strlit("7");
            }
            "7"
        },
        8 => {
            proof {
                reveal_strlit("8");
            }
            "8"
        },
        9 => {
            proof {
                reveal_strlit("9");
            }
            "9"
        },
        10 => {
            proof {
                reveal_strlit("A");
            }
            "A"
        },
        11 => {
            proof {
                reveal_strlit("B");
            }
            "B"
        },
        12 => {
            proof {
                reveal_strlit("C");
            }
            "C"
        },
        13 => {
            proof {
                reveal_strlit("D");
            }
            "D"
        },
        14 => {
            proof {
                reveal_strlit("E");
            }
            "E"
        },
        _ => {
            proof {
                reveal_strlit("F");
            }
            "F"
        },
    }
}

/// The decimal digits of `n`, most significant first, without leading zeros.
pub open spec fn decimal(n: nat) -> Seq<char>
    decreases n,
{
    if n < 10 {
        seq![hex_upper(n as int)]
    } else {
        decimal(n / 10) + seq![hex_upper((n % 10) as int)]
    }
}

/// Appends the decimal digits of `n` to `out`.
pub fn push_decimal(out: &mut String, n: u64)
    ensures
        final(out)@ == old(out)@ + decimal(n as nat),
    decreases n,
{
    if n >= 10 {
        push_decimal(out, n / 10);
    }
    out.append(hex_digit_str((n % 10) as u8));
    assert(out@ =~= old(out)@ + decimal(n as nat));
}

/// The two decimal digits of `n` (below 100), zero-padded as `{:02}` writes them.
pub open spec fn two_digits(n: nat) -> Seq<char> {
    seq![hex_upper((n / 10) as int), hex_upper((n % 10) as int)]
}

/// Appends `n` (below 100) as two zero-padded decimal digits.
pub fn push_two_digits(out: &mut String, n: u32)
    requires
        n < 100,
    ensures
        final(out)@ == old(out)@ + two_digits(n as nat),
{
    out.append(hex_digit_str((n / 10) as u8));
    out.append(hex_digit_str((n % 10) as u8));
    assert(out@ =~= old(out)@ + two_digits(n as nat));
}

/// Whether two strings hold the same characters.
pub fn str_equals(a: &str, b: &str) -> (r: bool)
    ensures
        r == (a@ == b@),
{
    let n = a.unicode_len();
    if n != b.unicode_len() {
        return false;
    }
    let mut i: usize = 0;
    while i < n
        invariant
            n == a@.len(),
            n == b@.len(),
            i <= n,
            forall|k: int| 0 <= k < i ==> a@[k] == b@[k],
        decreases n - i,
    {
        if a.get_char(i) != b.get_char(i) {
            return false;
        }
        i = i + 1;
    }
    assert(a@ =~= b@);
    true
}

/// Whether `s` ends with `suffix`.
pub fn str_ends_with(s: &str, suffix: &str) -> (r: bool)
    ensures
        r == (s@.len() >= suffix@.len() && s@.subrange(s@.len() - suffix@.len(), s@.len() as int)
            == suffix@),
{
    let n = s.unicode_len();
    let m = suffix.unicode_len();
    if m > n {
        return false;
    }
    let base = n - m;
    let mut i: usize = 0;
    while i < m
        invariant
            n == s@.len(),
            m == suffix@.len(),
            base == n - m,
            i <= m,
            forall|k: int| 0 <= k < i ==> s@[base + k] == suffix@[k],
        decreases m - i,
    {
        if s.get_char(base + i) != suffix.get_char(i) {
            assert(s@.subrange(base as int, n as int)[i as int] != suffix@[i as int]);
            return false;
        }
        i = i + 1;
    }
    assert(s@.subrange(base as int, n as int) =~= suffix@);
    true
}

/// `s` with every non-overlapping occurrence of `from` (scanned left to right) replaced by
/// `to`, as `str::replace` does for a non-empty pattern.
pub open spec fn replaced(s: Seq<char>, from: Seq<char>, to: Seq<char>) -> Seq<char>
    decreases s.len(),
{
    if s.len() == 0 || from.len() == 0 {
        s
    } else if from.len() <= s.len() && s.take(from.len() as int) == from {
        to + replaced(s.skip(from.len() as int), from, to)
    } else {
        seq![s[0]] + replaced(s.drop_first(), from, to)
    }
}

/// Whether `v[at..]` starts with `pat`.
fn chars_match_at(v: &Vec<char>, at: usize, pat: &Vec<char>) -> (r: bool)
    requires
        at <= v@.len(),
    ensures
        r == (pat@.len() <= v@.len() - at && v@.skip(at as int).take(pat@.len() as int) == pat@),
{
    let vl = v.len();
    if pat.len() > vl - at {
        return false;
    }
    let mut k: usize = 0;
    while k < pat.len()
        invariant
            vl == v@.len(),
            at + pat@.len() <= v@.len(),
            k <= pat@.len(),
            forall|j: int| 0 <= j < k ==> v@[at + j] == pat@[j],
        decreases pat@.len() - k,
    {
        if v[at + k] != pat[k] {
            assert(v@.skip(at as int).take(pat@.len() as int)[k as int] != pat@[k as int]);
            return false;
        }
        k = k + 1;
    }
    assert(v@.skip(at as int).take(pat@.len() as int) =~= pat@);
    true
}

/// Replaces every non-overlapping occurrence of `from` in `s` by `to`, as `str::replace`.
pub fn replace_all(s: &str, from: &str, to: &str) -> (r: String)
    requires
        from@.len() > 0,
    ensures
        r@ == replaced(s@, from@, to@),
{
    let v = chars_of(s);
    let pat = chars_of(from);
    let n = v.len();
    let mut out = String::new();
    let mut i: usize = 0;
    proof {
        assert(s@.skip(0) =~= s@);
        assert(out@ + replaced(s@.skip(0), from@, to@) =~= replaced(s@, from@, to@));
    }
    while i < n
        invariant
            v@ == s@,
            pat@ == from@,
            pat@.len() > 0,
            n == s@.len(),
            i <= n,
            out@ + replaced(s@.skip(i as int), from@, to@) == replaced(s@, from@, to@),
        decreases n - i,
    {
        let ghost rest = s@.skip(i as int);
        if chars_match_at(&v, i, &pat) {
            proof {
                assert(rest.take(from@.len() as int) =~= v@.skip(i as int).take(pat@.len() as int));
                assert(rest.skip(from@.len() as int) =~= s@.skip(i + from@.len()));
                assert(out@ + to@ + replaced(s@.skip(i + from@.len()), from@, to@) =~= out@ + replaced(rest, from@, to@));
            }
            out.append(to);
            i = i + pat.len();
        } else {
            let piece = s.substring_char(i, i + 1);
            proof {
                assert(!(from@.len() <= rest.len() && rest.take(from@.len() as int) == from@)) by {
                    if from@.len() <= rest.len() {
                        assert(rest.take(from@.len() as int) =~= v@.skip(i as int).take(pat@.len() as int));
                    }
                }
                assert(piece@ =~= seq![rest[0]]);
                assert(rest.drop_first() =~= s@.skip(i + 1));
                assert(out@ + piece@ + replaced(s@.skip(i + 1), from@, to@) =~= out@ + replaced(rest, from@, to@));
            }
            out.append(piece);
            i = i + 1;
        }
    }
    proof {
        assert(s@.skip(n as int) =~= Seq::<char>::empty());
        assert(out@ =~= out@ + replaced(s@.skip(n as int), from@, to@));
    }
    out
}

/// Why a string is not an unsigned integer, as `core::num::IntErrorKind` tells it.
#[derive(Debug, Clone, Copy, PartialEq, Eq, Structural)]
pub enum NumberError {
    /// The string is empty.
    Empty,
    /// A character is not a digit of the radix (a lone sign counts as one).
    InvalidDigit,
    /// The value does not fit the type.
    PosOverflow,
}

/// The value of `c` as a digit of `radix` (10 or 16).
pub open spec fn radix_digit(c: char, radix: int) -> Option<int> {
    if radix == 16 {
        hex_digit(c)
    } else {
        dec_digit(c)
    }
}

/// Reads the digits `d` from left to right onto `acc`, stopping at the first character that
/// is not a digit or the first step that passes `u32::MAX`.
pub open spec fn accumulate_u32(d: Seq<char>, radix: int, acc: int) -> Result<u32, NumberError>
    decreases d.len(),
{
    if d.len() == 0 {
        Ok(acc as u32)
    } else {
        match radix_digit(d[0], radix) {
            None => Err(NumberError::InvalidDigit),
            Some(v) => if acc * radix + v > u32::MAX {
                Err(NumberError::PosOverflow)
            } else {
                accumulate_u32(d.drop_first(), radix, acc * radix + v)
            },
        }
    }
}

/// What `u32::from_str_radix(s, radix)` gives for `radix` 10 or 16.
pub open spec fn parse_u32_radix(s: Seq<char>, radix: int) -> Result<u32, NumberError> {
    if s.len() == 0 {
        Err(NumberError::Empty)
    } else if s.len() == 1 && (s[0] == '+' || s[0] == '-') {
        Err(NumberError::InvalidDigit)
    } else if s[0] == '+' {
        accumulate_u32(s.drop_first(), radix, 0)
    } else {
        accumulate_u32(s, radix, 0)
    }
}

/// Parses `v[from..to]` as `u32::from_str_radix` does, for radix 10 or 16.
pub fn parse_u32_in(v: &Vec<char>, from: usize, to: usize, hex: bool) -> (r: Result<
    u32,
    NumberError,
>)
    requires
        from <= to <= v@.len(),
    ensures
        r == parse_u32_radix(v@.subrange(from as int, to as int), if hex { 16int } else { 10int }),
{
    let ghost s = v@.subrange(from as int, to as int);
    let ghost radix_i: int = if hex { 16int } else { 10int };
    if from == to {
        return Err(NumberError::Empty);
    }
    if to - from == 1 && (v[from] == '+' || v[from] == '-') {
        return Err(NumberError::InvalidDigit);
    }
    let start = if v[from] == '+' {
        from + 1
    } else {
        from
    };
    assert(parse_u32_radix(s, radix_i) == accumulate_u32(v@.subrange(start as int, to as int), radix_i, 0)) by {
        if v@[from as int] == '+' {
            assert(s.drop_first() =~= v@.subrange(start as int, to as int));
        } else {
            assert(s =~= v@.subrange(start as int, to as int));
        }
    }
    let radix: u64 = if hex {
        16
    } else {
        10
    };
    let mut acc: u64 = 0;
    let mut k = start;
    while k < to
        invariant
            from <= start <= k <= to <= v@.len(),
            radix == radix_i,
            s == v@.subrange(from as int, to as int),
            radix_i == (if hex { 16int } else { 10int }),
            acc <= u32::MAX,
            parse_u32_radix(s, radix_i) == accumulate_u32(v@.subrange(k as int, to as int), radix_i, acc as int),
        decreases to - k,
    {
        let c = v[k];
        let digit: Option<u64> = if '0' <= c && c <= '9' {
            Some((c as u64) - ('0' as u64))
        } else if hex && 'a' <= c && c <= 'f' {
            Some((c as u64) - ('a' as u64) + 10)
        } else if hex && 'A' <= c && c <= 'F' {
            Some((c as u64) - ('A' as u64) + 10)
        } else {
            None
        };
        let ghost rest = v@.subrange(k as int, to as int);
        assert(rest[0] == c);
        assert(rest.drop_first() =~= v@.subrange(k + 1, to as int));
        assert(digit matches Some(dv) ==> radix_digit(c, radix_i) == Some(dv as int));
        assert(digit is None ==> radix_digit(c, radix_i) is None);
        match digit {
            None => {
                return Err(NumberError::InvalidDigit);
            },
            Some(dv) => {
                let next = acc * radix + dv;
                if next > 0xffff_ffff {
                    return Err(NumberError::PosOverflow);
                }
                acc = next;
            },
        }
        k = k + 1;
    }
    assert(v@.subrange(k as int, to as int) =~= Seq::<char>::empty());
    Ok(acc as u32)
}

/// The text with which `ParseIntError` displays each kind of error.
pub open spec fn number_error_text(e: NumberError) -> Seq<char> {
    match e {
        NumberError::Empty => "cannot parse integer from empty string"@,
        NumberError::InvalidDigit => "invalid digit found in string"@,
        NumberError::PosOverflow => "number too large to fit in target type"@,
    }
}

impl NumberError {
    /// The text with which `ParseIntError` displays this kind of error.
    pub fn text(&self) -> (r: &'static str)
        ensures
            r@ == number_error_text(*self),
    {
        match self {
            NumberError::Empty => "cannot parse integer from empty string",
            NumberError::InvalidDigit => "invalid digit found in string",
            NumberError::PosOverflow => "number too large to fit in target type",
        }
    }
}

/// The lower-case hexadecimal digit of `d` (0..=15).
pub open spec fn hex_lower(d: int) -> char {
    if d < 10 {
        (('0' as int) + d) as char
    } else {
        (('a' as int) + d - 10) as char
    }
}

/// The lower-case hexadecimal digits of the `n` low nibbles of `x`, zero padded
/// (as `{:0nx}` prints a value below 16^n).
pub open spec fn hex_lower_padded(x: nat, n: nat) -> Seq<char>
    decreases n,
{
    if n == 0 {
        Seq::empty()
    } else {
        hex_lower_padded(x / 16, (n - 1) as nat) + seq![hex_lower((x % 16) as int)]
    }
}

/// The lower-case hexadecimal digit of `d`.
fn hex_lower_str(d: u32) -> (r: &'static str)
    requires
        d < 16,
    ensures
        r@ == seq![hex_lower(d as int)],
{
    if d < 10 {
        hex_digit_str(d as u8)
    } else if d == 10 {
        proof {
            reveal_strlit("a");
        }
        "a"
    } else if d == 11 {
        proof {
            reveal_strlit("b");
        }
        "b"
    } else if d == 12 {
        proof {
            reveal_strlit("c");
        }
        "c"
    } else if d == 13 {
        proof {
            reveal_strlit("d");
        }
        "d"
    } else if d == 14 {
        proof {
            reveal_strlit("e");
        }
        "e"
    } else {
        proof {
            reveal_strlit("f");
        }
        "f"
    }
}

/// Appends the `n` low nibbles of `x` as lower-case hex digits, zero padded.
pub fn push_hex_lower_padded(out: &mut String, x: u32, n: u32)
    ensures
        final(out)@ == old(out)@ + hex_lower_padded(x as nat, n as nat),
    decreases n,
{
    if n > 0 {
        push_hex_lower_padded(out, x / 16, n - 1);
        out.append(hex_lower_str(x % 16));
    }
    assert(out@ =~= old(out)@ + hex_lower_padded(x as nat, n as nat));
}

/// The decimal digits of `n` are digits, at least one, and read back as `n`.
pub proof fn lemma_decimal_reads_back(n: nat)
    ensures
        decimal(n).len() >= 1,
        forall|i: int| 0 <= i < decimal(n).len() ==> '0' <= #[trigger] decimal(n)[i] <= '9',
        dec_value(decimal(n)) == Some(n as int),
    decreases n,
{
    if n < 10 {
        let d = decimal(n);
        assert(d.drop_last() =~= Seq::<char>::empty());
        assert(dec_value(d.drop_last()) == Some(0int));
        assert(dec_digit(d.last()) == Some(n as int));
    } else {
        lemma_decimal_reads_back(n / 10);
        let d = decimal(n);
        assert(d.drop_last() =~= decimal(n / 10));
        assert(d.last() == hex_upper((n % 10) as int));
        assert(dec_digit(d.last()) == Some((n % 10) as int));
        assert(dec_value(d) == Some(10 * (n / 10) as int + (n % 10) as int));
        assert forall|i: int| 0 <= i < d.len() implies '0' <= #[trigger] d[i] <= '9' by {
            if i < d.len() - 1 {
                assert(d[i] == decimal(n / 10)[i]);
            }
        }
    }
}

/// The decimal digits of a byte parse back (as `u8`) to it, and trimming leaves them, with or
/// without a space in front, as they are.
pub proof fn lemma_decimal_parses_u8(n: u8)
    ensures
        parse_u8_dec(decimal(n as nat)) == Some(n),
        trim(decimal(n as nat)) == decimal(n as nat),
        trim(seq![' '] + decimal(n as nat)) == decimal(n as nat),
{
    let d = decimal(n as nat);
    lemma_decimal_reads_back(n as nat);
    assert('0' <= d[0] <= '9');
    assert('0' <= d.last() <= '9');
    assert(unsigned_digits(d) == Some(d));
    assert(trim_front(d) == d);
    assert(trim_back(d) == d);
    let sd = seq![' '] + d;
    assert(sd.drop_first() =~= d);
    assert(trim_front(sd) == trim_front(d));
}

} // verus!
