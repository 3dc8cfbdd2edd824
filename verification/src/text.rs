//! Plain text: comparing it, reading numbers from it and writing them.
use vstd::prelude::*;
use vstd::string::*;
use vstd::utf8::*;

verus! {

/// Whether two string slices hold the same characters.
pub fn str_eq(a: &str, b: &str) -> (same: bool)
    ensures
        same == (a@ == b@),
{
    let x = a.as_bytes();
    let y = b.as_bytes();
    proof {
        encode_utf8_decode_utf8(a@);
        encode_utf8_decode_utf8(b@);
    }
    if x.len() != y.len() {
        return false;
    }
    let mut i: usize = 0;
    while i < x.len()
        invariant
            i <= x.len(),
            x.len() == y.len(),
            x@ == encode_utf8(a@),
            y@ == encode_utf8(b@),
            forall|j: int| 0 <= j < i ==> x@[j] == y@[j],
        decreases x.len() - i,
    {
        if x[i] != y[i] {
            return false;
        }
        i += 1;
    }
    assert(x@ =~= y@);
    true
}

/// `text` without the white space at its beginning and at its end, as
/// `str::trim` takes it off: the characters that Unicode gives the property
/// `White_Space`.
pub uninterp spec fn trimmed(text: Seq<char>) -> Seq<char>;

/// Calls `str::trim`.
///
/// Trusted: the result is a function of the characters of `text` alone.
#[verifier::external_body]
pub(crate) fn trim(text: &str) -> (inner: &str)
    ensures
        inner@ == trimmed(text@),
{
    text.trim()
}

/// A decimal digit.
pub open spec fn is_digit(c: char) -> bool {
    '0' <= c <= '9'
}

/// Every character is a decimal digit.
pub open spec fn all_digits(text: Seq<char>) -> bool {
    forall|i: int| 0 <= i < text.len() ==> is_digit(#[trigger] text[i])
}

/// The number that a digit stands for.
pub open spec fn digit_value(c: char) -> nat {
    (c as nat - '0' as nat) as nat
}

/// The number that a sequence of digits denotes in base ten.
pub open spec fn decimal_value(digits: Seq<char>) -> nat
    decreases digits.len(),
{
    if digits.len() == 0 {
        0
    } else {
        decimal_value(digits.drop_last()) * 10 + digit_value(digits.last())
    }
}

/// The number that `text` denotes, if it is one or more decimal digits that
/// denote at most `limit`.
pub open spec fn bounded_decimal(text: Seq<char>, limit: nat) -> Option<nat> {
    if text.len() > 0 && all_digits(text) && decimal_value(text) <= limit {
        Some(decimal_value(text))
    } else {
        None
    }
}

/// The unsigned 32-bit number that `text` denotes: an optional `+`, then one
/// or more decimal digits, with a value that fits.
pub open spec fn parsed_u32(text: Seq<char>) -> Option<u32> {
    let digits = if text.len() > 0 && text[0] == '+' {
        text.drop_first()
    } else {
        text
    };
    match bounded_decimal(digits, u32::MAX as nat) {
        Some(value) => Some(value as u32),
        None => None,
    }
}

/// The signed 32-bit number that `text` denotes: an optional `+` or `-`,
/// then one or more decimal digits, with a value that fits.
pub open spec fn parsed_i32(text: Seq<char>) -> Option<i32> {
    if text.len() > 0 && text[0] == '-' {
        match bounded_decimal(text.drop_first(), 0x8000_0000) {
            Some(value) => Some((-value) as i32),
            None => None,
        }
    } else {
        let digits = if text.len() > 0 && text[0] == '+' {
            text.drop_first()
        } else {
            text
        };
        match bounded_decimal(digits, i32::MAX as nat) {
            Some(value) => Some(value as i32),
            None => None,
        }
    }
}

/// A longer run of digits denotes no smaller a number than its beginning.
pub proof fn lemma_decimal_value_grows(digits: Seq<char>, k: int)
    requires
        0 <= k <= digits.len(),
    ensures
        decimal_value(digits.take(k)) <= decimal_value(digits),
    decreases digits.len(),
{
    if k == digits.len() {
        assert(digits.take(k) =~= digits);
    } else {
        assert(digits.drop_last().take(k) =~= digits.take(k));
        lemma_decimal_value_grows(digits.drop_last(), k);
    }
}

/// Reads the characters of `bytes` from `start` on as a decimal number of at
/// most `limit`.
fn read_decimal(bytes: &[u8], Ghost(text): Ghost<Seq<char>>, start: usize, limit: u64) -> (value:
    Option<u64>)
    requires
        is_ascii_chars(text),
        bytes@ == encode_utf8(text),
        start <= bytes@.len(),
        limit <= 0x1_0000_0000,
    ensures
        match bounded_decimal(text.skip(start as int), limit as nat) {
            Some(v) => value == Some(v as u64),
            None => value is None,
        },
{
    proof {
        is_ascii_chars_encode_utf8(text);
    }
    let ghost digits = text.skip(start as int);
    let n = bytes.len();
    if start == n {
        return None;
    }
    let mut value: u64 = 0;
    let mut i: usize = start;
    while i < n
        invariant
            start <= i <= n,
            n == bytes@.len(),
            n == text.len(),
            is_ascii_chars(text),
            digits == text.skip(start as int),
            forall|j: int| 0 <= j < n ==> bytes@[j] == #[trigger] text[j] as u8,
            all_digits(digits.take(i - start)),
            value == decimal_value(digits.take(i - start)),
            value <= limit <= 0x1_0000_0000,
        decreases n - i,
    {
        let b = bytes[i];
        let ghost c = text[i as int];
        assert(c == digits[i - start]);
        assert(b == c as u8 && '\0' <= c <= '\u{7f}');
        if b < 48 || b > 57 {
            assert(!is_digit(c));
            return None;
        }
        assert(is_digit(c));
        let ghost longer = digits.take(i - start + 1);
        proof {
            assert(longer.drop_last() =~= digits.take(i - start));
            assert(longer.last() == c);
            assert(digit_value(c) == b - 48);
            assert forall|j: int| 0 <= j < longer.len() implies is_digit(#[trigger] longer[j]) by {
                if j < i - start {
                    assert(longer[j] == digits.take(i - start)[j]);
                }
            }
        }
        value = value * 10 + (b - 48) as u64;
        if value > limit {
            proof {
                lemma_decimal_value_grows(digits, i - start + 1);
            }
            return None;
        }
        i += 1;
    }
    assert(digits.take(i - start) =~= digits);
    Some(value)
}

/// Reads `text` as an unsigned 32-bit number in decimal.
pub fn parse_u32(text: &str) -> (number: Option<u32>)
    ensures
        number == parsed_u32(text@),
{
    if !text.is_ascii() {
        proof {
            lemma_digits_are_ascii(text@);
        }
        return None;
    }
    let bytes = text.as_bytes();
    proof {
        is_ascii_chars_encode_utf8(text@);
    }
    let start: usize = if bytes.len() > 0 && bytes[0] == 43 {
        1
    } else {
        0
    };
    assert(start == 1 <==> text@.len() > 0 && text@[0] == '+') by {
        if text@.len() > 0 {
            assert(bytes@[0] == text@[0] as u8);
        }
    }
    assert(text@.skip(0) =~= text@);
    match read_decimal(bytes, Ghost(text@), start, 0xffff_ffff) {
        Some(value) => Some(value as u32),
        None => None,
    }
}

/// Reads `text` as a signed 32-bit number in decimal.
pub fn parse_i32(text: &str) -> (number: Option<i32>)
    ensures
        number == parsed_i32(text@),
{
    if !text.is_ascii() {
        proof {
            lemma_digits_are_ascii(text@);
        }
        return None;
    }
    let bytes = text.as_bytes();
    proof {
        is_ascii_chars_encode_utf8(text@);
    }
    assert(text@.skip(0) =~= text@);
    if bytes.len() > 0 {
        assert(bytes@[0] == text@[0] as u8);
    }
    if bytes.len() > 0 && bytes[0] == 45 {
        match read_decimal(bytes, Ghost(text@), 1, 0x8000_0000) {
            Some(value) => Some((0 - value as i64) as i32),
            None => None,
        }
    } else {
        let start: usize = if bytes.len() > 0 && bytes[0] == 43 {
            1
        } else {
            0
        };
        match read_decimal(bytes, Ghost(text@), start, 0x7fff_ffff) {
            Some(value) => Some(value as i32),
            None => None,
        }
    }
}

/// Text that is a sign and digits is ASCII, so text with any other kind of
/// character denotes no number.
pub proof fn lemma_digits_are_ascii(text: Seq<char>)
    requires
        !is_ascii_chars(text),
    ensures
        parsed_u32(text) is None,
        parsed_i32(text) is None,
{
    let i = choose|i: int| 0 <= i < text.len() && !('\0' <= #[trigger] text[i] <= '\u{7f}');
    assert(!is_digit(text[i]) && text[i] != '+' && text[i] != '-');
    if i == 0 {
    } else {
        assert(text.drop_first()[i - 1] == text[i]);
    }
}

/// The character that writes a digit.
pub open spec fn digit_char(d: nat) -> char {
    if d == 0 {
        '0'
    } else if d == 1 {
        '1'
    } else if d == 2 {
        '2'
    } else if d == 3 {
        '3'
    } else if d == 4 {
        '4'
    } else if d == 5 {
        '5'
    } else if d == 6 {
        '6'
    } else if d == 7 {
        '7'
    } else if d == 8 {
        '8'
    } else {
        '9'
    }
}

/// `n` written in base ten, without leading zeros.
pub open spec fn decimal_text(n: nat) -> Seq<char>
    decreases n,
{
    if n < 10 {
        seq![digit_char(n)]
    } else {
        decimal_text(n / 10).push(digit_char(n % 10))
    }
}

/// A number written in base ten reads back as itself.
pub proof fn lemma_decimal_text_reads_back(n: nat)
    ensures
        decimal_text(n).len() > 0,
        all_digits(decimal_text(n)),
        decimal_value(decimal_text(n)) == n,
        n <= u32::MAX ==> parsed_u32(decimal_text(n)) == Some(n as u32),
    decreases n,
{
    let text = decimal_text(n);
    if n < 10 {
        assert(text.drop_last() =~= Seq::<char>::empty());
        assert(text.last() == digit_char(n));
        assert(decimal_value(text.drop_last()) == 0);
    } else {
        lemma_decimal_text_reads_back(n / 10);
        assert(text.drop_last() =~= decimal_text(n / 10));
        assert(text.last() == digit_char(n % 10));
        assert forall|i: int| 0 <= i < text.len() implies is_digit(#[trigger] text[i]) by {
            if i < text.len() - 1 {
                assert(text[i] == decimal_text(n / 10)[i]);
            }
        }
    }
    assert(text[0] != '+');
}

fn digit_str(d: u32) -> (text: &'static str)
    requires
        d < 10,
    ensures
        text@ == seq![digit_char(d as nat)],
{
    proof {
        reveal_strlit("0");
        reveal_strlit("1");
        reveal_strlit("2");
        reveal_strlit("3");
        reveal_strlit("4");
        reveal_strlit("5");
        reveal_strlit("6");
        reveal_strlit("7");
        reveal_strlit("8");
        reveal_strlit("9");
    }
    let text = if d == 0 {
        "0"
    } else if d == 1 {
        "1"
    } else if d == 2 {
        "2"
    } else if d == 3 {
        "3"
    } else if d == 4 {
        "4"
    } else if d == 5 {
        "5"
    } else if d == 6 {
        "6"
    } else if d == 7 {
        "7"
    } else if d == 8 {
        "8"
    } else {
        "9"
    };
    assert(text@ =~= seq![digit_char(d as nat)]);
    text
}

/// Writes `n` in base ten.
pub fn decimal_string(n: u32) -> (text: String)
    ensures
        text@ == decimal_text(n as nat),
    decreases n,
{
    if n < 10 {
        digit_str(n).to_owned()
    } else {
        let mut text = decimal_string(n / 10);
        text.append(digit_str(n % 10));
        assert(text@ =~= decimal_text(n as nat / 10).push(digit_char(n as nat % 10)));
        text
    }
}

} // verus!
