//! Text helpers: decimal and hexadecimal numerals, integer parsing, white space
//! and the mark of internal pane ids.

use vstd::prelude::*;

verus! {

/// `String::push` appends the character at the end of the string.
pub assume_specification[ String::push ](text: &mut String, c: char)
    ensures
        final(text)@ == old(text)@.push(c),
;

/// Whether two texts hold the same characters.
pub fn same_text(a: &str, b: &str) -> (r: bool)
    ensures
        r == (a@ == b@),
{
    let left: String = a.to_owned();
    let right: String = b.to_owned();
    left == right
}

/// The characters of a text.
pub fn chars_of(text: &str) -> (r: Vec<char>)
    ensures
        r@ == text@,
{
    let mut out: Vec<char> = Vec::new();
    for c in it: text.chars()
        invariant
            out@ == it.seq().take(it.index()),
            it.seq() == text@,
    {
        proof {
            assert(it.seq().take(it.index() + 1) =~= it.seq().take(it.index()).push(c));
        }
        out.push(c);
    }
    out
}

/// The text made of the given characters.
pub fn text_of(chars: &Vec<char>) -> (r: String)
    ensures
        r@ == chars@,
{
    let mut out = String::new();
    let mut i: usize = 0;
    while i < chars.len()
        invariant
            i <= chars.len(),
            out@ == chars@.take(i as int),
        decreases chars.len() - i,
    {
        out.push(chars[i]);
        proof {
            assert(chars@.take(i + 1) =~= chars@.take(i as int).push(chars@[i as int]));
        }
        i = i + 1;
    }
    proof {
        assert(chars@.take(i as int) =~= chars@);
    }
    out
}

/// Three texts, one after the other.
pub fn concat3(a: &str, b: &str, c: &str) -> (r: String)
    ensures
        r@ == a@ + b@ + c@,
{
    let mut out: String = a.to_owned();
    out.append(b);
    out.append(c);
    out
}

/// The character of a decimal digit.
pub open spec fn digit_char(digit: nat) -> char {
    (48 + digit) as char
}

/// The decimal numeral of a natural number, without leading zeros.
pub open spec fn decimal(n: nat) -> Seq<char>
    decreases n,
{
    if n < 10 {
        seq![digit_char(n)]
    } else {
        decimal(n / 10).push(digit_char(n % 10))
    }
}

/// The decimal numeral of an integer, with a minus sign where it is negative.
pub open spec fn decimal_int(n: int) -> Seq<char> {
    if n < 0 {
        seq!['-'] + decimal((-n) as nat)
    } else {
        decimal(n as nat)
    }
}

/// The decimal numeral of an unsigned number.
pub fn decimal_text(n: u128) -> (r: String)
    ensures
        r@ == decimal(n as nat),
    decreases n,
{
    let mut out = if n < 10 {
        String::new()
    } else {
        decimal_text(n / 10)
    };
    let digit: u8 = (n % 10) as u8;
    out.push((48 + digit) as char);
    proof {
        if n < 10 {
            assert(out@ =~= decimal(n as nat));
        }
    }
    out
}

/// The decimal numeral of a signed number.
pub fn signed_text(n: i64) -> (r: String)
    ensures
        r@ == decimal_int(n as int),
{
    if n < 0 {
        let magnitude: u128 = (-(n as i128)) as u128;
        let mut out: String = String::new();
        out.push('-');
        let digits = decimal_text(magnitude);
        out.append(digits.as_str());
        proof {
            assert(out@ =~= seq!['-'] + decimal((-n) as nat));
        }
        out
    } else {
        decimal_text(n as u128)
    }
}

/// Whether a character is a decimal digit.
pub open spec fn is_digit(c: char) -> bool {
    48 <= c as int <= 57
}

/// The value that decimal digits denote.
pub open spec fn digits_value(digits: Seq<char>) -> nat
    decreases digits.len(),
{
    if digits.len() == 0 {
        0
    } else {
        (digits_value(digits.drop_last()) * 10 + (digits.last() as int - 48)) as nat
    }
}

/// The digits of a numeral, without the sign that may stand before them.
pub open spec fn unsigned_part(text: Seq<char>) -> Seq<char> {
    if text.len() > 0 && (text[0] == '-' || text[0] == '+') {
        text.skip(1)
    } else {
        text
    }
}

/// The integer that a text denotes: an optional sign, then one or more decimal
/// digits and nothing else.
pub open spec fn integer_value(text: Seq<char>) -> Option<int> {
    let digits = unsigned_part(text);
    if digits.len() > 0 && (forall|i: int| 0 <= i < digits.len() ==> is_digit(#[trigger] digits[i])) {
        if text[0] == '-' {
            Some(-(digits_value(digits) as int))
        } else {
            Some(digits_value(digits) as int)
        }
    } else {
        None
    }
}

/// The integer that a text denotes, where it fits 64 signed bits.
pub open spec fn parsed_i64(text: Seq<char>) -> Option<i64> {
    match integer_value(text) {
        Some(n) => if i64::MIN <= n <= i64::MAX {
            Some(n as i64)
        } else {
            None
        },
        None => None,
    }
}

/// The signed 64-bit integer that a text denotes in decimal, if it denotes one.
pub fn parse_i64(text: &str) -> (r: Option<i64>)
    ensures
        r == parsed_i64(text@),
{
    let chars = chars_of(text);
    let mut start: usize = 0;
    let mut negative = false;
    if chars.len() > 0 && (chars[0] == '-' || chars[0] == '+') {
        negative = chars[0] == '-';
        start = 1;
    }
    let ghost digits = unsigned_part(text@);
    if chars.len() == start {
        return None;
    }
    let mut value: u128 = 0;
    let mut i: usize = start;
    while i < chars.len()
        invariant
            chars@ == text@,
            start <= i <= chars.len(),
            digits == chars@.skip(start as int),
            digits == unsigned_part(text@),
            forall|k: int| 0 <= k < i - start ==> is_digit(#[trigger] digits[k]),
            value <= 0x1_0000_0000_0000_0000,
            value < 0x1_0000_0000_0000_0000 ==> value == digits_value(digits.take(i - start)),
            value == 0x1_0000_0000_0000_0000 ==> digits_value(digits.take(i - start)) >= value,
        decreases chars.len() - i,
    {
        let c = chars[i];
        proof {
            assert(digits[i - start] == c);
            assert(digits.take(i - start + 1).drop_last() =~= digits.take(i - start));
        }
        if c < '0' || '9' < c {
            return None;
        }
        let digit: u128 = (c as u32 - 48) as u128;
        let wide: u128 = value * 10 + digit;
        value = if wide < 0x1_0000_0000_0000_0000 { wide } else { 0x1_0000_0000_0000_0000 };
        i = i + 1;
    }
    proof {
        assert(digits.take(i - start) =~= digits);
    }
    if negative {
        if value <= 0x8000_0000_0000_0000 {
            Some((-(value as i128)) as i64)
        } else {
            None
        }
    } else if value <= 0x7FFF_FFFF_FFFF_FFFF {
        Some(value as i64)
    } else {
        None
    }
}

/// Writing a natural number in decimal gives one or more digits, and reading
/// them gives the number back.
pub proof fn decimal_reads_back(n: nat)
    ensures
        decimal(n).len() > 0,
        forall|i: int| 0 <= i < decimal(n).len() ==> is_digit(#[trigger] decimal(n)[i]),
        digits_value(decimal(n)) == n,
    decreases n,
{
    if n < 10 {
        let s = decimal(n);
        assert(s.drop_last() =~= Seq::<char>::empty());
        assert(s.last() == digit_char(n));
        assert(digits_value(s.drop_last()) == 0);
    } else {
        decimal_reads_back(n / 10);
        let s = decimal(n);
        assert(s.drop_last() =~= decimal(n / 10));
        assert(s.last() == digit_char(n % 10));
    }
}

/// Every signed 64-bit integer is read back from its decimal numeral.
pub proof fn signed_text_reads_back(n: i64)
    ensures
        parsed_i64(decimal_int(n as int)) == Some(n),
{
    if n < 0 {
        decimal_reads_back((-n) as nat);
        let s = decimal_int(n as int);
        assert(unsigned_part(s) =~= decimal((-n) as nat));
    } else {
        decimal_reads_back(n as nat);
        let s = decimal_int(n as int);
        assert(is_digit(s[0]));
        assert(unsigned_part(s) =~= s);
    }
}

/// The character of a hexadecimal digit.
pub open spec fn hex_char(digit: nat) -> char {
    if digit < 10 {
        (48 + digit) as char
    } else {
        (87 + digit) as char
    }
}

/// The last `width` hexadecimal digits of a number, in lower case.
pub open spec fn hexadecimal(n: nat, width: nat) -> Seq<char>
    decreases width,
{
    if width == 0 {
        Seq::empty()
    } else {
        hexadecimal(n / 16, (width - 1) as nat).push(hex_char(n % 16))
    }
}

/// The last `width` hexadecimal digits of a number, in lower case.
pub fn hexadecimal_text(n: u32, width: u8) -> (r: String)
    ensures
        r@ == hexadecimal(n as nat, width as nat),
    decreases width,
{
    if width == 0 {
        return String::new();
    }
    let mut out = hexadecimal_text(n / 16, width - 1);
    let digit: u8 = (n % 16) as u8;
    if digit < 10 {
        out.push((48 + digit) as char);
    } else {
        out.push((87 + digit) as char);
    }
    out
}

/// A hexadecimal numeral has its width, and only the digits 0 to 9 and a to f.
pub proof fn hexadecimal_digits(n: nat, width: nat)
    ensures
        hexadecimal(n, width).len() == width,
        forall|i: int|
            0 <= i < width ==> {
                let c = #[trigger] hexadecimal(n, width)[i];
                '0' <= c <= '9' || 'a' <= c <= 'f'
            },
    decreases width,
{
    if width > 0 {
        hexadecimal_digits(n / 16, (width - 1) as nat);
        assert forall|i: int| 0 <= i < width implies {
            let c = #[trigger] hexadecimal(n, width)[i];
            '0' <= c <= '9' || 'a' <= c <= 'f'
        } by {
            if i < width - 1 {
                assert(hexadecimal(n, width)[i] == hexadecimal(n / 16, (width - 1) as nat)[i]);
            }
        }
    }
}

/// Numbers below `16^width` have different numerals of that width.
pub proof fn hexadecimal_tells_apart(m: nat, n: nat, width: nat)
    requires
        m < vstd::arithmetic::power::pow(16, width),
        n < vstd::arithmetic::power::pow(16, width),
        hexadecimal(m, width) == hexadecimal(n, width),
    ensures
        m == n,
    decreases width,
{
    reveal(vstd::arithmetic::power::pow);
    if width > 0 {
        let rest = (width - 1) as nat;
        let a = hexadecimal(m, width);
        let b = hexadecimal(n, width);
        assert(a.drop_last() =~= hexadecimal(m / 16, rest));
        assert(b.drop_last() =~= hexadecimal(n / 16, rest));
        assert(a.last() == hex_char(m % 16));
        assert(b.last() == hex_char(n % 16));
        hexadecimal_tells_apart(m / 16, n / 16, rest);
    }
}

/// Whether a text begins with the mark of an internal pane id, `p_`.
pub open spec fn is_internal(text: Seq<char>) -> bool {
    text.len() >= 2 && text[0] == 'p' && text[1] == '_'
}

/// Whether a pane id begins with the mark of an internal pane id, `p_`.
pub fn is_internal_id(text: &str) -> (r: bool)
    ensures
        r == is_internal(text@),
{
    let chars = chars_of(text);
    chars.len() >= 2 && chars[0] == 'p' && chars[1] == '_'
}

/// Whether a character is white space by Unicode's `White_Space` property.
pub open spec fn is_white_space(c: char) -> bool {
    let code = c as int;
    ||| 0x9 <= code <= 0xD
    ||| code == 0x20
    ||| code == 0x85
    ||| code == 0xA0
    ||| code == 0x1680
    ||| 0x2000 <= code <= 0x200A
    ||| code == 0x2028
    ||| code == 0x2029
    ||| code == 0x202F
    ||| code == 0x205F
    ||| code == 0x3000
}

/// Whether a character is white space.
fn white_space(c: char) -> (r: bool)
    ensures
        r == is_white_space(c),
{
    ('\u{9}' <= c && c <= '\u{D}') || c == '\u{20}' || c == '\u{85}' || c == '\u{A0}' || c
        == '\u{1680}' || ('\u{2000}' <= c && c <= '\u{200A}') || c == '\u{2028}' || c == '\u{2029}'
        || c == '\u{202F}' || c == '\u{205F}' || c == '\u{3000}'
}

/// Whether a text holds nothing but white space.
pub open spec fn is_blank(text: Seq<char>) -> bool {
    forall|i: int| 0 <= i < text.len() ==> is_white_space(#[trigger] text[i])
}

/// Whether a text holds nothing but white space.
pub fn blank(text: &str) -> (r: bool)
    ensures
        r == is_blank(text@),
{
    let chars = chars_of(text);
    let mut i: usize = 0;
    while i < chars.len()
        invariant
            chars@ == text@,
            i <= chars.len(),
            forall|k: int| 0 <= k < i ==> is_white_space(#[trigger] text@[k]),
        decreases chars.len() - i,
    {
        let white = white_space(chars[i]);
        if !white {
            return false;
        }
        i = i + 1;
    }
    true
}

/// A text with every `-` and `:` turned into `_`.
pub open spec fn normalized(text: Seq<char>) -> Seq<char> {
    text.map_values(
        |c: char|
            if c == '-' || c == ':' {
                '_'
            } else {
                c
            },
    )
}

/// A text with every `-` and `:` turned into `_`.
pub fn normalize(text: &str) -> (r: String)
    ensures
        r@ == normalized(text@),
{
    let chars = chars_of(text);
    let mut out = String::new();
    let mut i: usize = 0;
    while i < chars.len()
        invariant
            chars@ == text@,
            i <= chars.len(),
            out@ == normalized(text@).take(i as int),
        decreases chars.len() - i,
    {
        let c = chars[i];
        if c == '-' || c == ':' {
            out.push('_');
        } else {
            out.push(c);
        }
        proof {
            assert(normalized(text@).take(i + 1) =~= normalized(text@).take(i as int).push(
                normalized(text@)[i as int],
            ));
        }
        i = i + 1;
    }
    proof {
        assert(normalized(text@).take(i as int) =~= normalized(text@));
    }
    out
}

/// No `-` or `:` is left in a normalized text, and its length is kept.
pub proof fn normalized_has_no_separator(text: Seq<char>)
    ensures
        normalized(text).len() == text.len(),
        !normalized(text).contains('-'),
        !normalized(text).contains(':'),
{
}

} // verus!
