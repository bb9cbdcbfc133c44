//! Reading and writing of numbers and words as text.

use vstd::prelude::*;

verus! {

/// `char::from_u32` gives the character with this code, where there is one: every code up to
/// `0x10ffff` has one but the surrogates.
pub assume_specification[ char::from_u32 ](i: u32) -> (r: Option<char>)
    ensures
        match r {
            Some(c) => c as u32 == i,
            None => i > 0x10ffff || 0xd800 <= i <= 0xdfff,
        },
;

/// `String::push` appends one character.
pub assume_specification[ std::string::String::push ](string: &mut std::string::String, ch: char)
    ensures
        final(string)@ == old(string)@.push(ch),
;

/// The characters of a string.
pub fn chars_of(s: &str) -> (r: Vec<char>)
    ensures
        r@ == s@,
{
    let mut out: Vec<char> = Vec::new();
    for c in it: s.chars()
        invariant
            it.seq() == s@,
            out@ == s@.take(it.index() as int),
    {
        proof {
            assert(s@.take(it.index() + 1) =~= s@.take(it.index() as int).push(c));
        }
        out.push(c);
    }
    assert(s@.take(s@.len() as int) =~= s@);
    out
}

/// The string of these characters.
pub fn string_of(chars: &[char]) -> (r: String)
    ensures
        r@ == chars@,
{
    let mut out = String::new();
    let mut i: usize = 0;
    while i < chars.len()
        invariant
            i <= chars@.len(),
            out@ == chars@.take(i as int),
        decreases chars@.len() - i,
    {
        out.push(chars[i]);
        i = i + 1;
        assert(chars@.take(i as int) =~= chars@.take(i - 1).push(chars@[i - 1]));
    }
    assert(chars@.take(i as int) =~= chars@);
    out
}

/// Whether two runs of characters are the same.
pub fn same_chars(a: &[char], b: &[char]) -> (r: bool)
    ensures
        r == (a@ == b@),
{
    if a.len() != b.len() {
        return false;
    }
    let mut i: usize = 0;
    while i < a.len()
        invariant
            a@.len() == b@.len(),
            i <= a@.len(),
            forall|k: int| 0 <= k < i ==> a@[k] == b@[k],
        decreases a@.len() - i,
    {
        if a[i] != b[i] {
            return false;
        }
        i = i + 1;
    }
    assert(a@ =~= b@);
    true
}

/// Whether a run of characters is this word.
pub fn is_word(a: &[char], word: &str) -> (r: bool)
    ensures
        r == (a@ == word@),
{
    same_chars(a, chars_of(word).as_slice())
}

/// Whether two strings are the same.
pub fn same_text(a: &str, b: &str) -> (r: bool)
    ensures
        r == (a@ == b@),
{
    same_chars(chars_of(a).as_slice(), chars_of(b).as_slice())
}

/// What a digit stands for: `0` to `9`, and letters of either case from ten upwards, where that is
/// less than the radix.
pub open spec fn digit_value(c: char, radix: nat) -> Option<nat> {
    let v = if '0' <= c <= '9' {
        c as nat - '0' as nat
    } else if 'a' <= c <= 'z' {
        c as nat - 'a' as nat + 10
    } else if 'A' <= c <= 'Z' {
        c as nat - 'A' as nat + 10
    } else {
        radix as int
    };
    if v < radix {
        Some(v as nat)
    } else {
        None
    }
}

/// What a run of digits stands for, if it is nothing but digits.
pub open spec fn digits_value(s: Seq<char>, radix: nat) -> Option<nat>
    decreases s.len(),
{
    if s.len() == 0 {
        Some(0)
    } else {
        match (digits_value(s.drop_last(), radix), digit_value(s.last(), radix)) {
            (Some(high), Some(low)) => Some(high * radix + low),
            _ => None,
        }
    }
}

/// What a text stands for that is an optional `+` followed by only digits, and at least one, if
/// that is no greater than `max`.
pub open spec fn unsigned_value(s: Seq<char>, radix: nat, max: nat) -> Option<nat> {
    let digits = if s.len() > 0 && s[0] == '+' {
        s.drop_first()
    } else {
        s
    };
    if digits.len() == 0 {
        None
    } else {
        match digits_value(digits, radix) {
            Some(v) => if v <= max {
                Some(v)
            } else {
                None
            },
            None => None,
        }
    }
}

fn parse_digit(c: char, radix: u32) -> (r: Option<u32>)
    requires
        2 <= radix <= 36,
    ensures
        r is Some <==> digit_value(c, radix as nat) is Some,
        r matches Some(v) ==> digit_value(c, radix as nat) == Some(v as nat),
{
    let v: u32 = if '0' <= c && c <= '9' {
        c as u32 - '0' as u32
    } else if 'a' <= c && c <= 'z' {
        c as u32 - 'a' as u32 + 10
    } else if 'A' <= c && c <= 'Z' {
        c as u32 - 'A' as u32 + 10
    } else {
        radix
    };
    if v < radix {
        Some(v)
    } else {
        None
    }
}

/// A number only grows with the digits that follow.
proof fn lemma_digits_grow(s: Seq<char>, i: int, radix: nat)
    requires
        0 <= i <= s.len(),
        radix >= 1,
        digits_value(s, radix) is Some,
    ensures
        digits_value(s.take(i), radix) is Some,
        digits_value(s.take(i), radix)->0 <= digits_value(s, radix)->0,
    decreases s.len(),
{
    if i == s.len() {
        assert(s.take(i) =~= s);
    } else {
        lemma_digits_grow(s.drop_last(), i, radix);
        assert(s.drop_last().take(i) =~= s.take(i));
        let high = digits_value(s.drop_last(), radix)->0;
        assert(high <= high * radix) by (nonlinear_arith)
            requires
                radix >= 1,
        ;
    }
}

/// Read a number that is an optional `+` followed by only digits.
pub fn parse_unsigned(s: &[char], radix: u32, max: u32) -> (r: Option<u32>)
    requires
        2 <= radix <= 36,
    ensures
        r is Some <==> unsigned_value(s@, radix as nat, max as nat) is Some,
        r matches Some(v) ==> unsigned_value(s@, radix as nat, max as nat) == Some(v as nat),
{
    let start: usize = if s.len() > 0 && s[0] == '+' {
        1
    } else {
        0
    };
    let ghost digits = s@.skip(start as int);
    assert(digits =~= if start == 1 {
        s@.drop_first()
    } else {
        s@
    });
    if s.len() == start {
        return None;
    }
    let mut value: u32 = 0;
    let mut i: usize = start;
    while i < s.len()
        invariant
            start <= i <= s@.len(),
            start <= 1,
            digits == s@.skip(start as int),
            2 <= radix <= 36,
            value <= max,
            digits_value(digits.take(i - start), radix as nat) == Some(value as nat),
            unsigned_value(s@, radix as nat, max as nat) == match digits_value(
                digits,
                radix as nat,
            ) {
                Some(v) => if v <= max {
                    Some(v)
                } else {
                    None
                },
                None => None::<nat>,
            },
        decreases s@.len() - i,
    {
        let ghost next = digits.take(i + 1 - start);
        proof {
            assert(next.drop_last() =~= digits.take(i - start));
            assert(next.last() == s@[i as int]);
            if digits_value(digits, radix as nat) is Some {
                lemma_digits_grow(digits, i + 1 - start, radix as nat);
            }
            assert(value as int * radix as int <= 0xffff_ffff * 36) by (nonlinear_arith)
                requires
                    value <= 0xffff_ffff,
                    radix <= 36,
            ;
        }
        let d: u32 = match parse_digit(s[i], radix) {
            Some(d) => d,
            None => return None,
        };
        let wide: u64 = value as u64 * radix as u64 + d as u64;
        if wide > max as u64 {
            return None;
        }
        value = wide as u32;
        i = i + 1;
    }
    assert(digits.take(i - start) =~= digits);
    Some(value)
}

/// The digit for a value below the radix; letters are upper case.
pub open spec fn digit_char(v: nat) -> char {
    if v < 10 {
        ('0' as nat + v) as char
    } else {
        ('A' as nat + v - 10) as char
    }
}

/// The digits of a number, without leading zeros.
pub open spec fn digits_of(n: nat, radix: nat) -> Seq<char>
    decreases n,
{
    if n < radix || radix < 2 {
        seq![digit_char(n)]
    } else {
        proof {
            assert(n / radix < n) by (nonlinear_arith)
                requires
                    radix >= 2,
                    n >= radix,
            ;
        }
        digits_of(n / radix, radix).push(digit_char(n % radix))
    }
}

/// The decimal digits of a number, without leading zeros.
pub open spec fn decimal(n: nat) -> Seq<char> {
    digits_of(n, 10)
}

/// A text with zeros in front, as many as it is short of `width`.
pub open spec fn zero_padded(s: Seq<char>, width: nat) -> Seq<char> {
    if s.len() < width {
        Seq::new((width - s.len()) as nat, |i: int| '0') + s
    } else {
        s
    }
}

fn make_digit(v: u64) -> (r: char)
    requires
        v < 16,
    ensures
        r == digit_char(v as nat),
{
    if v < 10 {
        (48 + v as u8) as char
    } else {
        (55 + v as u8) as char
    }
}

/// The digits of a number, without leading zeros.
pub fn write_digits(n: u64, radix: u64) -> (r: Vec<char>)
    requires
        2 <= radix <= 16,
    ensures
        r@ == digits_of(n as nat, radix as nat),
    decreases n,
{
    if n < radix {
        let mut out: Vec<char> = Vec::new();
        out.push(make_digit(n));
        assert(out@ =~= seq![digit_char(n as nat)]);
        out
    } else {
        proof {
            assert(n / radix < n) by (nonlinear_arith)
                requires
                    radix >= 2,
                    n >= radix,
            ;
        }
        let mut out = write_digits(n / radix, radix);
        out.push(make_digit(n % radix));
        out
    }
}

/// The decimal digits of a number.
pub fn write_decimal(n: u32) -> (r: String)
    ensures
        r@ == decimal(n as nat),
{
    string_of(write_digits(n as u64, 10).as_slice())
}

/// The digits of a number, with zeros in front up to `width`.
pub fn write_padded(n: u64, radix: u64, width: usize) -> (r: String)
    requires
        2 <= radix <= 16,
    ensures
        r@ == zero_padded(digits_of(n as nat, radix as nat), width as nat),
{
    let digits = write_digits(n, radix);
    let mut out = String::new();
    let mut i: usize = digits.len();
    while i < width
        invariant
            digits@.len() <= i,
            i <= width || i == digits@.len(),
            out@ == Seq::new((i - digits@.len()) as nat, |k: int| '0'),
        decreases width - i,
    {
        out.push('0');
        i = i + 1;
        assert(out@ =~= Seq::new((i - digits@.len()) as nat, |k: int| '0'));
    }
    let tail = string_of(digits.as_slice());
    out.append(tail.as_str());
    assert(digits@.len() >= width ==> out@ =~= digits@);
    out
}

/// What a number is written as reads back as that number.
pub proof fn law_written_reads_back(n: nat, radix: nat)
    requires
        2 <= radix <= 16,
    ensures
        digits_value(digits_of(n, radix), radix) == Some(n),
    decreases n,
{
    let s = digits_of(n, radix);
    if n < radix {
        assert(s.drop_last() =~= seq![]);
        assert(digits_value(s.drop_last(), radix) == Some(0nat));
        assert(0nat * radix == 0) by (nonlinear_arith);
        assert(digit_value(s.last(), radix) == Some(n));
    } else {
        assert(n / radix < n) by (nonlinear_arith)
            requires
                radix >= 2,
                n >= radix,
        ;
        law_written_reads_back(n / radix, radix);
        assert(s.drop_last() =~= digits_of(n / radix, radix));
        assert(0 <= n % radix < radix && (n / radix) * radix + n % radix == n) by (nonlinear_arith)
            requires
                radix >= 2,
        ;
        assert(digit_value(s.last(), radix) == Some((n % radix) as nat));
    }
}

/// A number of one digit is what the digit stands for, with or without a `+` in front of it, if it is
/// no greater than the greatest that is asked for. Without a digit there is no number.
pub proof fn law_one_digit_is_a_number(c: char, d: nat, radix: nat, max: nat)
    requires
        radix == 10 || radix == 16,
        ('0' <= c <= '9' && d == c as int - 48) || (radix == 16 && 'a' <= c <= 'f' && d == c as int
            - 87) || (radix == 16 && 'A' <= c <= 'F' && d == c as int - 55),
    ensures
        unsigned_value(seq![c], radix, max) == if d <= max {
            Some(d)
        } else {
            None
        },
        unsigned_value(seq!['+', c], radix, max) == unsigned_value(seq![c], radix, max),
        unsigned_value(seq![], radix, max) is None,
        unsigned_value(seq!['+'], radix, max) is None,
{
    assert(seq![c].drop_last() =~= seq![]);
    assert(seq!['+', c].drop_first() =~= seq![c]);
    assert(seq!['+'].drop_first() =~= seq![]);
    assert(digits_value(seq![], radix) == Some(0nat));
    assert(0nat * radix == 0) by (nonlinear_arith);
    assert(digit_value(c, radix) == Some(d));
    assert(digits_value(seq![c], radix) == Some(d));
}

/// One more digit behind a number is worth what it stands for, and the number before it ten or
/// sixteen times as much.
pub proof fn law_digits_have_places(
    s: Seq<char>,
    v: nat,
    c: char,
    d: nat,
    radix: nat,
    max: nat,
)
    requires
        radix == 10 || radix == 16,
        ('0' <= c <= '9' && d == c as int - 48) || (radix == 16 && 'a' <= c <= 'f' && d == c as int
            - 87) || (radix == 16 && 'A' <= c <= 'F' && d == c as int - 55),
        unsigned_value(s, radix, max) == Some(v),
    ensures
        unsigned_value(s.push(c), radix, max) == if radix * v + d <= max {
            Some((radix * v + d) as nat)
        } else {
            None
        },
{
    let all = s.push(c);
    assert(digit_value(c, radix) == Some(d));
    if s[0] == '+' {
        assert(all.drop_first().drop_last() =~= s.drop_first());
        assert(all.drop_first().last() == c);
    } else {
        assert(all.drop_last() =~= s);
    }
    assert(v * radix == radix * v) by (nonlinear_arith);
}

/// What is a number is nothing but digits, behind a `+` at most, and is no greater than the greatest
/// that is asked for. The text before its last digit is one too.
pub proof fn law_numbers_are_digits(s: Seq<char>, radix: nat, max: nat)
    requires
        radix == 10 || radix == 16,
        unsigned_value(s, radix, max) is Some,
    ensures
        s.len() > 0,
        s[0] == '+' ==> s.len() > 1,
        unsigned_value(s, radix, max)->0 <= max,
        forall|i: int|
            0 <= i < s.len() && !(i == 0 && s[0] == '+') ==> '0' <= #[trigger] s[i] <= '9' || (radix
                == 16 && ('a' <= s[i] <= 'f' || 'A' <= s[i] <= 'F')),
        s.len() > 1 && s.drop_last() != seq!['+'] ==> unsigned_value(s.drop_last(), radix, max)
            is Some,
{
    let digits = if s[0] == '+' {
        s.drop_first()
    } else {
        s
    };
    lemma_all_digits(digits, radix);
    assert forall|i: int| 0 <= i < s.len() && !(i == 0 && s[0] == '+') implies '0' <= #[trigger] s[i]
        <= '9' || (radix == 16 && ('a' <= s[i] <= 'f' || 'A' <= s[i] <= 'F')) by {
        let k = if s[0] == '+' {
            i - 1
        } else {
            i
        };
        assert(digits[k] == s[i]);
        assert(digit_value(digits[k], radix) is Some);
    }
    if s.len() > 1 && s.drop_last() != seq!['+'] {
        lemma_digits_grow(digits, digits.len() - 1, radix);
        assert(digits.take(digits.len() - 1) =~= digits.drop_last());
        if s[0] == '+' {
            assert(s.drop_last().drop_first() =~= digits.drop_last());
            if s.drop_last().len() == 1 {
                assert(s.drop_last() =~= seq!['+']);
            }
        }
    }
}

proof fn lemma_all_digits(s: Seq<char>, radix: nat)
    requires
        digits_value(s, radix) is Some,
    ensures
        forall|i: int| 0 <= i < s.len() ==> digit_value(#[trigger] s[i], radix) is Some,
    decreases s.len(),
{
    if s.len() > 0 {
        lemma_all_digits(s.drop_last(), radix);
        assert forall|i: int| 0 <= i < s.len() implies digit_value(
            #[trigger] s[i],
            radix,
        ) is Some by {
            if i < s.len() - 1 {
                assert(s.drop_last()[i] == s[i]);
            }
        }
    }
}

/// A number is written by its digits: the last one is what is left when it is divided by ten, or
/// sixteen, and those before it are the digits of the quotient, if that is not zero.
pub proof fn law_numbers_are_written_by_digits(n: nat, d: nat)
    ensures
        d < 10 ==> {
            &&& decimal(d) == seq![(48 + d) as char]
            &&& n > 0 ==> decimal(10 * n + d) == decimal(n).push((48 + d) as char)
            &&& digits_of(d, 16) == seq![(48 + d) as char]
            &&& n > 0 ==> digits_of(16 * n + d, 16) == digits_of(n, 16).push((48 + d) as char)
        },
        10 <= d < 16 ==> {
            &&& digits_of(d, 16) == seq![(55 + d) as char]
            &&& n > 0 ==> digits_of(16 * n + d, 16) == digits_of(n, 16).push((55 + d) as char)
        },
{
    if n > 0 && d < 10 {
        assert((10 * n + d) / 10 == n && (10 * n + d) % 10 == d);
    }
    if n > 0 && d < 16 {
        assert((16 * n + d) / 16 == n && (16 * n + d) % 16 == d);
    }
}

/// Padding puts only zeros in front of a text, and only as many as it is short of the width.
pub proof fn law_padding_is_zeros(s: Seq<char>, width: nat)
    ensures
        zero_padded(s, width).len() == if s.len() < width {
            width
        } else {
            s.len()
        },
        zero_padded(s, width).skip(zero_padded(s, width).len() - s.len()) == s,
        forall|i: int|
            0 <= i < zero_padded(s, width).len() - s.len() ==> #[trigger] zero_padded(s, width)[i]
                == '0',
{
    let p = zero_padded(s, width);
    assert(p.skip(p.len() - s.len()) =~= s);
}

/// Numbers below a thousand with zeros in front up to three digits are their three decimal digits,
/// and these are read as that number.
pub proof fn law_three_digits_read_back(n: nat, max: nat)
    requires
        n < 1000,
        n <= max,
    ensures
        zero_padded(decimal(n), 3) == seq![
            (48 + n / 100) as char,
            (48 + n / 10 % 10) as char,
            (48 + n % 10) as char,
        ],
        unsigned_value(
            seq![(48 + n / 100) as char, (48 + n / 10 % 10) as char, (48 + n % 10) as char],
            10,
            max,
        ) == Some(n),
{
    let (a, b, c) = (n / 100, n / 10 % 10, n % 10);
    let (x, y, z) = ((48 + a) as char, (48 + b) as char, (48 + c) as char);
    law_numbers_are_written_by_digits(n / 10, c);
    law_numbers_are_written_by_digits(n / 100, b);
    law_numbers_are_written_by_digits(0, a);
    assert(n == 10 * (n / 10) + c);
    assert(n / 10 == 10 * a + b);
    if n >= 100 {
        assert(decimal(n) =~= seq![x, y, z]);
    } else if n >= 10 {
        assert(decimal(n / 10) == seq![y]);
        assert(decimal(n) =~= seq![y, z]);
    } else {
        assert(decimal(n) =~= seq![z]);
    }
    assert(zero_padded(decimal(n), 3) =~= seq![x, y, z]);
    law_one_digit_is_a_number(x, a, 10, max);
    law_digits_have_places(seq![x], a, y, b, 10, max);
    assert(seq![x].push(y) =~= seq![x, y]);
    law_digits_have_places(seq![x, y], 10 * a + b, z, c, 10, max);
    assert(seq![x, y].push(z) =~= seq![x, y, z]);
}

/// Whether a character is white space: the characters with the `White_Space` property.
pub open spec fn is_space(c: char) -> bool {
    let v = c as u32;
    ||| 0x09 <= v <= 0x0d
    ||| v == 0x20
    ||| v == 0x85
    ||| v == 0xa0
    ||| v == 0x1680
    ||| 0x2000 <= v <= 0x200a
    ||| v == 0x2028
    ||| v == 0x2029
    ||| v == 0x202f
    ||| v == 0x205f
    ||| v == 0x3000
}

fn test_space(c: char) -> (r: bool)
    ensures
        r == is_space(c),
{
    let v: u32 = c as u32;
    (0x09 <= v && v <= 0x0d) || v == 0x20 || v == 0x85 || v == 0xa0 || v == 0x1680 || (0x2000 <= v
        && v <= 0x200a) || v == 0x2028 || v == 0x2029 || v == 0x202f || v == 0x205f || v == 0x3000
}

/// A text without the white space in front of it.
pub open spec fn trim_start(s: Seq<char>) -> Seq<char>
    decreases s.len(),
{
    if s.len() > 0 && is_space(s[0]) {
        trim_start(s.drop_first())
    } else {
        s
    }
}

/// A text without the white space behind it.
pub open spec fn trim_end(s: Seq<char>) -> Seq<char>
    decreases s.len(),
{
    if s.len() > 0 && is_space(s.last()) {
        trim_end(s.drop_last())
    } else {
        s
    }
}

/// A text without the white space around it.
pub open spec fn trimmed(s: Seq<char>) -> Seq<char> {
    trim_end(trim_start(s))
}

/// White space is the tabulator, the characters that end lines or pages, the space, and the spaces of
/// other widths.
pub proof fn law_spaces_are_white(c: char)
    ensures
        is_space(c) <==> c == '\t' || c == '\n' || c as int == 11 || c as int == 12 || c == '\r' || c
            == ' ' || c as int == 133 || c as int == 160 || c as int == 5760 || 8192 <= c as int
            <= 8202 || c as int == 8232 || c as int == 8233 || c as int == 8239 || c as int == 8287
            || c as int == 12288,
{
}

/// White space is removed from both ends of a text, all of it and nothing else.
pub proof fn law_trimming_removes_white_space(s: Seq<char>)
    ensures
        exists|i: int, j: int|
            0 <= i <= j <= s.len() && trimmed(s) == #[trigger] s.subrange(i, j) && (forall|k: int|
                0 <= k < i || j <= k < s.len() ==> is_space(#[trigger] s[k])),
        trimmed(s).len() > 0 ==> !is_space(trimmed(s)[0]) && !is_space(
            trimmed(s)[trimmed(s).len() - 1],
        ),
{
    lemma_start_is_trimmed(s);
    let i = s.len() - trim_start(s).len();
    let rest = trim_start(s);
    lemma_end_is_trimmed(rest);
    let j = i + trim_end(rest).len();
    assert(trimmed(s) =~= s.subrange(i, j));
    assert forall|k: int| 0 <= k < i || j <= k < s.len() implies is_space(#[trigger] s[k]) by {
        if k >= j {
            assert(rest[k - i] == s[k]);
        }
    }
}

proof fn lemma_start_is_trimmed(s: Seq<char>)
    ensures
        trim_start(s).len() <= s.len(),
        trim_start(s) == s.skip(s.len() - trim_start(s).len()),
        forall|k: int| 0 <= k < s.len() - trim_start(s).len() ==> is_space(#[trigger] s[k]),
        trim_start(s).len() > 0 ==> !is_space(trim_start(s)[0]),
    decreases s.len(),
{
    if s.len() > 0 && is_space(s[0]) {
        let rest = s.drop_first();
        lemma_start_is_trimmed(rest);
        assert(s.skip(s.len() - trim_start(s).len()) =~= rest.skip(
            rest.len() - trim_start(s).len(),
        ));
        assert forall|k: int| 0 <= k < s.len() - trim_start(s).len() implies is_space(
            #[trigger] s[k],
        ) by {
            if k > 0 {
                assert(rest[k - 1] == s[k]);
            }
        }
    } else {
        assert(s.skip(0) =~= s);
    }
}

proof fn lemma_end_is_trimmed(s: Seq<char>)
    ensures
        trim_end(s).len() <= s.len(),
        trim_end(s) == s.take(trim_end(s).len() as int),
        forall|k: int| trim_end(s).len() <= k < s.len() ==> is_space(#[trigger] s[k]),
        trim_end(s).len() > 0 ==> !is_space(trim_end(s)[trim_end(s).len() - 1]),
    decreases s.len(),
{
    if s.len() > 0 && is_space(s.last()) {
        let rest = s.drop_last();
        lemma_end_is_trimmed(rest);
        assert(s.take(trim_end(s).len() as int) =~= rest.take(trim_end(s).len() as int));
        assert forall|k: int| trim_end(s).len() <= k < s.len() implies is_space(
            #[trigger] s[k],
        ) by {
            if k < rest.len() {
                assert(rest[k] == s[k]);
            }
        }
    } else {
        assert(s.take(s.len() as int) =~= s);
    }
}

/// Spaces and line ends around a text are removed, and nothing of the text itself, if it begins and
/// ends with something printed.
pub proof fn law_trimming_keeps_text(before: Seq<char>, s: Seq<char>, after: Seq<char>)
    requires
        forall|i: int|
            0 <= i < before.len() ==> #[trigger] before[i] == ' ' || before[i] == '\t' || before[i]
                == '\n' || before[i] == '\r',
        forall|i: int|
            0 <= i < after.len() ==> #[trigger] after[i] == ' ' || after[i] == '\t' || after[i]
                == '\n' || after[i] == '\r',
        s.len() > 0 ==> '!' <= s[0] <= '~' && '!' <= s.last() <= '~',
    ensures
        trimmed(before + s + after) == s,
{
    lemma_trim_start(before, s + after);
    assert(before + s + after =~= before + (s + after));
    if s.len() > 0 {
        assert(trim_start(s + after) == s + after);
        lemma_trim_end(s, after);
    } else {
        assert(s + after =~= after);
        lemma_trim_start(after, seq![]);
        assert(after + seq![] =~= after);
        assert(s =~= seq![]);
    }
}

proof fn lemma_trim_start(before: Seq<char>, s: Seq<char>)
    requires
        forall|i: int|
            0 <= i < before.len() ==> #[trigger] before[i] == ' ' || before[i] == '\t' || before[i]
                == '\n' || before[i] == '\r',
    ensures
        trim_start(before + s) == trim_start(s),
    decreases before.len(),
{
    if before.len() > 0 {
        assert((before + s).drop_first() =~= before.drop_first() + s);
        assert(is_space(before[0]));
        lemma_trim_start(before.drop_first(), s);
    } else {
        assert(before + s =~= s);
    }
}

proof fn lemma_trim_end(s: Seq<char>, after: Seq<char>)
    requires
        forall|i: int|
            0 <= i < after.len() ==> #[trigger] after[i] == ' ' || after[i] == '\t' || after[i]
                == '\n' || after[i] == '\r',
        s.len() > 0,
        '!' <= s.last() <= '~',
    ensures
        trim_end(s + after) == s,
    decreases after.len(),
{
    if after.len() > 0 {
        assert((s + after).drop_last() =~= s + after.drop_last());
        assert((s + after).last() == after[after.len() - 1]);
        lemma_trim_end(s, after.drop_last());
    } else {
        assert(s + after =~= s);
    }
}

/// Remove the white space around a text.
pub fn trim(s: &[char]) -> (r: &[char])
    ensures
        r@ == trimmed(s@),
{
    let mut start: usize = 0;
    assert(s@.skip(0) =~= s@);
    while start < s.len() && test_space(s[start])
        invariant
            start <= s@.len(),
            trim_start(s@.skip(start as int)) == trim_start(s@),
        decreases s@.len() - start,
    {
        assert(s@.skip(start as int).drop_first() =~= s@.skip(start + 1));
        start = start + 1;
    }
    let ghost rest = s@.skip(start as int);
    assert(trim_start(s@) == rest);
    let mut end: usize = s.len();
    assert(s@.subrange(start as int, end as int) =~= rest);
    while end > start && test_space(s[end - 1])
        invariant
            start <= end <= s@.len(),
            trim_end(s@.subrange(start as int, end as int)) == trim_end(rest),
        decreases end,
    {
        assert(s@.subrange(start as int, end as int).drop_last() =~= s@.subrange(
            start as int,
            end - 1,
        ));
        end = end - 1;
    }
    vstd::slice::slice_subrange(s, start, end)
}

/// The parts of a sequence between separators; one more than there are separators.
pub open spec fn parts<A>(s: Seq<A>, separator: A) -> Seq<Seq<A>>
    decreases s.len(),
{
    if s.len() == 0 {
        seq![seq![]]
    } else {
        let before = parts(s.drop_last(), separator);
        if s.last() == separator {
            before.push(seq![])
        } else {
            before.update(before.len() - 1, before.last().push(s.last()))
        }
    }
}

/// Parts put together with a separator between each two.
pub open spec fn joined<A>(parts: Seq<Seq<A>>, separator: A) -> Seq<A>
    decreases parts.len(),
{
    if parts.len() == 0 {
        seq![]
    } else if parts.len() == 1 {
        parts[0]
    } else {
        joined(parts.drop_last(), separator).push(separator) + parts.last()
    }
}

/// Splitting loses nothing: the parts put together again are the sequence that was split, and no
/// part has a separator in it.
pub proof fn law_parts_go_together<A>(s: Seq<A>, separator: A)
    ensures
        parts(s, separator).len() > 0,
        joined(parts(s, separator), separator) == s,
        forall|i: int|
            0 <= i < parts(s, separator).len() ==> !(#[trigger] parts(s, separator)[i]).contains(
                separator,
            ),
    decreases s.len(),
{
    let all = parts(s, separator);
    if s.len() == 0 {
        assert(joined(all, separator) =~= s);
    } else {
        let before = parts(s.drop_last(), separator);
        law_parts_go_together(s.drop_last(), separator);
        if s.last() == separator {
            assert(all.drop_last() =~= before);
            assert(joined(all, separator) =~= s.drop_last().push(s.last()));
        } else {
            assert(all.drop_last() =~= before.drop_last());
            assert(joined(all, separator) =~= s.drop_last().push(s.last()));
            assert forall|i: int| 0 <= i < all.len() implies !(#[trigger] all[i]).contains(
                separator,
            ) by {
                if i < all.len() - 1 {
                    assert(all[i] == before[i]);
                } else {
                    assert(!before[before.len() - 1].contains(separator));
                    assert forall|k: int| 0 <= k < all[i].len() implies all[i][k] != separator by {
                        if k < all[i].len() - 1 {
                            assert(all[i][k] == before.last()[k]);
                        }
                    }
                }
            }
        }
        assert(s.drop_last().push(s.last()) =~= s);
    }
}

/// What has no separator in it is one part, and a separator and one more part behind a sequence
/// are one more part of it.
pub proof fn law_separators_make_parts<A>(s: Seq<A>, separator: A, part: Seq<A>)
    requires
        !part.contains(separator),
    ensures
        parts(part, separator) == seq![part],
        parts(s.push(separator) + part, separator) == parts(s, separator).push(part),
{
    lemma_one_part(part, separator);
    lemma_one_more_part(s, separator, part);
}

/// What has no separator in it is one part.
pub proof fn lemma_one_part<A>(s: Seq<A>, separator: A)
    requires
        !s.contains(separator),
    ensures
        parts(s, separator) == seq![s],
    decreases s.len(),
{
    if s.len() == 0 {
        assert(s =~= seq![]);
    } else {
        assert(s[s.len() - 1] != separator);
        assert forall|k: int| 0 <= k < s.drop_last().len() implies s.drop_last()[k] != separator by {
            assert(s[k] != separator);
        }
        lemma_one_part(s.drop_last(), separator);
        assert(s.drop_last().push(s.last()) =~= s);
        assert(parts(s, separator) =~= seq![s]);
    }
}

/// A separator and one more part behind a sequence is one more part of it.
pub proof fn lemma_one_more_part<A>(s: Seq<A>, separator: A, part: Seq<A>)
    requires
        !part.contains(separator),
    ensures
        parts(s.push(separator) + part, separator) == parts(s, separator).push(part),
    decreases part.len(),
{
    let whole = s.push(separator) + part;
    if part.len() == 0 {
        assert(whole =~= s.push(separator));
        assert(s.push(separator).drop_last() =~= s);
        assert(part =~= seq![]);
    } else {
        assert(part[part.len() - 1] != separator);
        assert forall|k: int| 0 <= k < part.drop_last().len() implies part.drop_last()[k]
            != separator by {
            assert(part[k] != separator);
        }
        lemma_one_more_part(s, separator, part.drop_last());
        assert(whole.drop_last() =~= s.push(separator) + part.drop_last());
        assert(part.drop_last().push(part.last()) =~= part);
        assert(parts(whole, separator) =~= parts(s, separator).push(part));
    }
}

/// Several lists as sequences.
pub open spec fn views<A>(v: Seq<Vec<A>>) -> Seq<Seq<A>> {
    v.map_values(|p: Vec<A>| p@)
}

/// Split a text at every separator.
pub fn split(s: &[char], separator: char) -> (r: Vec<Vec<char>>)
    ensures
        views(r@) == parts(s@, separator),
        r@.len() > 0,
{
    let mut done: Vec<Vec<char>> = Vec::new();
    let mut part: Vec<char> = Vec::new();
    let mut i: usize = 0;
    assert(views(done@).push(part@) =~= seq![seq![]]);
    assert(s@.take(0) =~= seq![]);
    while i < s.len()
        invariant
            i <= s@.len(),
            views(done@).push(part@) == parts(s@.take(i as int), separator),
        decreases s@.len() - i,
    {
        let ghost before = views(done@).push(part@);
        assert(s@.take(i + 1).drop_last() =~= s@.take(i as int));
        assert(s@.take(i + 1).last() == s@[i as int]);
        if s[i] == separator {
            let ghost whole = done@.push(part);
            assert(views(whole) =~= views(done@).push(part@));
            done.push(part);
            part = Vec::new();
            assert(views(done@).push(part@) =~= before.push(seq![]));
        } else {
            part.push(s[i]);
            assert(views(done@).push(part@) =~= before.update(
                before.len() - 1,
                before.last().push(s@[i as int]),
            ));
        }
        i = i + 1;
    }
    assert(s@.take(i as int) =~= s@);
    let ghost whole = done@.push(part);
    assert(views(whole) =~= views(done@).push(part@));
    done.push(part);
    done
}

/// A letter from `A` to `Z` in lower case; any other character as it is.
pub open spec fn lower(c: char) -> char {
    if 'A' <= c <= 'Z' {
        (c as u32 + 32) as char
    } else {
        c
    }
}

/// Put a letter from `A` to `Z` into lower case.
pub fn to_lower(c: char) -> (r: char)
    ensures
        r == lower(c),
        'A' <= c <= 'Z' ==> r as int == c as int + 32,
        !('A' <= c <= 'Z') ==> r == c,
{
    if 'A' <= c && c <= 'Z' {
        (c as u8 + 32) as char
    } else {
        c
    }
}

/// The text of an optional string, borrowed.
pub fn as_deref(s: &Option<String>) -> (r: Option<&str>)
    ensures
        match (r, *s) {
            (Some(a), Some(b)) => a@ == b@,
            (None, None) => true,
            _ => false,
        },
{
    match s {
        Some(s) => Some(s.as_str()),
        None => None,
    }
}

/// Split bytes at every separator.
pub fn split_bytes(s: &[u8], separator: u8) -> (r: Vec<Vec<u8>>)
    ensures
        views(r@) == parts(s@, separator),
{
    let mut done: Vec<Vec<u8>> = Vec::new();
    let mut part: Vec<u8> = Vec::new();
    let mut i: usize = 0;
    assert(views(done@).push(part@) =~= seq![seq![]]);
    assert(s@.take(0) =~= seq![]);
    while i < s.len()
        invariant
            i <= s@.len(),
            views(done@).push(part@) == parts(s@.take(i as int), separator),
        decreases s@.len() - i,
    {
        let ghost before = views(done@).push(part@);
        assert(s@.take(i + 1).drop_last() =~= s@.take(i as int));
        assert(s@.take(i + 1).last() == s@[i as int]);
        if s[i] == separator {
            let ghost whole = done@.push(part);
            assert(views(whole) =~= views(done@).push(part@));
            done.push(part);
            part = Vec::new();
            assert(views(done@).push(part@) =~= before.push(seq![]));
        } else {
            part.push(s[i]);
            assert(views(done@).push(part@) =~= before.update(
                before.len() - 1,
                before.last().push(s@[i as int]),
            ));
        }
        i = i + 1;
    }
    assert(s@.take(i as int) =~= s@);
    let ghost whole = done@.push(part);
    assert(views(whole) =~= views(done@).push(part@));
    done.push(part);
    done
}

/// `std::str::from_utf8` gives the text that bytes are the UTF-8 encoding of, if they are one.
#[verifier::external_body]
pub(crate) fn from_utf8(v: &[u8]) -> (r: Option<&str>)
    ensures
        match r {
            Some(s) => vstd::utf8::valid_utf8(v@) && s@ == vstd::utf8::decode_utf8(v@),
            None => !vstd::utf8::valid_utf8(v@),
        },
{
    std::str::from_utf8(v).ok()
}

} // verus!
