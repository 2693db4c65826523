//! Small work on text: counts in decimal, and what the standard library
//! knows of bytes, case and file names.

use vstd::prelude::*;
use vstd::string::StrSliceExecFns;
use vstd::string::StringExecFns;

verus! {

/// What each of some strings holds.
pub open spec fn texts(items: Seq<String>) -> Seq<Seq<char>> {
    items.map_values(|s: String| s@)
}

/// What a string holds, if there is one.
pub open spec fn text_of(text: Option<String>) -> Option<Seq<char>> {
    match text {
        Some(s) => Some(s@),
        None => None,
    }
}

/// What a string slice holds, if there is one.
pub open spec fn option_text(text: Option<&str>) -> Option<Seq<char>> {
    match text {
        Some(s) => Some(s@),
        None => None,
    }
}

/// Whether a text begins with the words of another.
pub open spec fn starts_with(text: Seq<char>, prefix: Seq<char>) -> bool {
    prefix.len() <= text.len() && text.subrange(0, prefix.len() as int) == prefix
}

/// A text begins with what it was put together from first.
pub proof fn lemma_starts_with(prefix: Seq<char>, rest: Seq<char>)
    ensures
        starts_with(prefix + rest, prefix),
{
    assert((prefix + rest).subrange(0, prefix.len() as int) =~= prefix);
}

/// The character of a decimal digit.
pub open spec fn digit(d: nat) -> char {
    "0123456789"@[d as int]
}

/// The decimal text of a count, without leading zeros.
pub open spec fn decimal_digits(n: nat) -> Seq<char>
    decreases n,
{
    if n < 10 {
        seq![digit(n)]
    } else {
        decimal_digits(n / 10).push(digit(n % 10))
    }
}

fn digit_str(d: usize) -> (s: &'static str)
    requires
        d < 10,
    ensures
        s@ == seq![digit(d as nat)],
{
    proof {
        reveal_strlit("0123456789");
        reveal_strlit("0");
        reveal_strlit("1");
        reveal_strlit("2");
        reveal_strlit("3");
        reveal_strlit("4");
        reveal_strlit("5");
        reveal_strlit("6");
        reveal_strlit("7");
        reveal_strlit("8");
        reveal_strlit("9");
    }
    let s = if d == 0 {
        "0"
    } else if d == 1 {
        "1"
    } else if d == 2 {
        "2"
    } else if d == 3 {
        "3"
    } else if d == 4 {
        "4"
    } else if d == 5 {
        "5"
    } else if d == 6 {
        "6"
    } else if d == 7 {
        "7"
    } else if d == 8 {
        "8"
    } else {
        "9"
    };
    assert(s@ =~= seq![digit(d as nat)]);
    s
}

/// Writes a count as decimal text.
pub fn decimal(n: usize) -> (s: String)
    ensures
        s@ == decimal_digits(n as nat),
    decreases n,
{
    if n < 10 {
        String::from_str(digit_str(n))
    } else {
        let mut s = decimal(n / 10);
        s.append(digit_str(n % 10));
        assert(s@ =~= decimal_digits((n / 10) as nat).push(digit((n % 10) as nat)));
        s
    }
}

/// The value of a decimal digit, and `None` for any other character.
pub open spec fn digit_value(c: char) -> Option<nat> {
    if 48 <= c as u32 <= 57 {
        Some((c as u32 - 48) as nat)
    } else {
        None
    }
}

/// Why a text stands for no count.
#[derive(Clone, Copy, Debug, PartialEq, Eq, Structural)]
pub enum CountFault {
    /// The text is empty.
    Empty,
    /// A character is no digit, or a sign stands alone.
    InvalidDigit,
    /// The value is more than a `usize` holds.
    Overflow,
}

impl CountFault {
    /// The words of this fault.
    pub open spec fn spec_describe(self) -> Seq<char> {
        match self {
            CountFault::Empty => "cannot parse integer from empty string"@,
            CountFault::InvalidDigit => "invalid digit found in string"@,
            CountFault::Overflow => "number too large to fit in target type"@,
        }
    }

    /// Words this fault.
    pub fn describe(self) -> (text: &'static str)
        ensures
            text@ == self.spec_describe(),
    {
        match self {
            CountFault::Empty => "cannot parse integer from empty string",
            CountFault::InvalidDigit => "invalid digit found in string",
            CountFault::Overflow => "number too large to fit in target type",
        }
    }
}

/// The count that the digits from position `i` on make of `value`, read from
/// left to right: the first character that is no digit, and the first digit
/// that takes the value over what a `usize` holds, is a fault.
pub open spec fn digits_from(body: Seq<char>, i: nat, value: nat) -> Result<usize, CountFault>
    decreases body.len() - i,
{
    if i >= body.len() {
        Ok(value as usize)
    } else {
        match digit_value(body[i as int]) {
            None => Err(CountFault::InvalidDigit),
            Some(d) => if 10 * value + d > usize::MAX {
                Err(CountFault::Overflow)
            } else {
                digits_from(body, i + 1, 10 * value + d)
            },
        }
    }
}

/// The count that a text stands for: decimal digits, after a plus sign or
/// without one, with a value that a `usize` holds.
pub open spec fn parsed_count(s: Seq<char>) -> Result<usize, CountFault> {
    let body = if s.len() > 0 && s[0] == '+' {
        s.skip(1)
    } else {
        s
    };
    if s.len() == 0 {
        Err(CountFault::Empty)
    } else if body.len() == 0 {
        Err(CountFault::InvalidDigit)
    } else {
        digits_from(body, 0, 0)
    }
}

/// Reads a count from decimal text.
pub fn parse_count(s: &str) -> (r: Result<usize, CountFault>)
    ensures
        r == parsed_count(s@),
{
    let n = s.unicode_len();
    if n == 0 {
        return Err(CountFault::Empty);
    }
    let start: usize = if s.get_char(0) == '+' {
        1
    } else {
        0
    };
    if start == n {
        return Err(CountFault::InvalidDigit);
    }
    let ghost body = s@.skip(start as int);
    let mut value: usize = 0;
    let mut i: usize = start;
    proof {
        assert(s@.skip(0) =~= s@);
    }
    while i < n
        invariant
            start <= i <= n == s@.len(),
            body == s@.skip(start as int),
            parsed_count(s@) == digits_from(body, (i - start) as nat, value as nat),
        decreases n - i,
    {
        let c = s.get_char(i);
        assert(body[i - start] == c);
        let code = c as u32;
        if code < 48 || code > 57 {
            return Err(CountFault::InvalidDigit);
        }
        let d = (code - 48) as usize;
        if value > (usize::MAX - d) / 10 {
            assert(10 * value + d > usize::MAX);
            return Err(CountFault::Overflow);
        }
        value = 10 * value + d;
        i = i + 1;
    }
    Ok(value)
}

/// `std::str::from_utf8`: the text that the bytes encode, where they are UTF-8.
#[verifier::external_body]
pub(crate) fn utf8_text(bytes: &[u8]) -> (r: Option<&str>)
    ensures
        match r {
            Some(text) => vstd::utf8::valid_utf8(bytes@) && text@ == vstd::utf8::decode_utf8(
                bytes@,
            ),
            None => !vstd::utf8::valid_utf8(bytes@),
        },
{
    std::str::from_utf8(bytes).ok()
}

/// A character as `Debug` writes it: between single quotes, escaped where
/// it does not print.
pub uninterp spec fn char_debug(c: char) -> Seq<char>;

/// `Debug` for `char`, through `format!`: the character between single
/// quotes, escaped where it does not print.
#[verifier::external_body]
pub(crate) fn debug_char(c: char) -> (text: String)
    ensures
        text@ == char_debug(c),
{
    format!("{:?}", c)
}

/// The extension of the file name of a path, without its dot, where the name
/// has one.
pub uninterp spec fn extension_of(path: Seq<char>) -> Option<Seq<char>>;

/// A text in lower case.
pub uninterp spec fn lowercase_of(text: Seq<char>) -> Seq<char>;

/// `Path::extension`: the part of the file name after its last dot, where
/// the name has a dot that is not its first character.
#[verifier::external_body]
pub(crate) fn path_extension(path: &str) -> (ext: Option<String>)
    ensures
        text_of(ext) == extension_of(path@),
{
    std::path::Path::new(path).extension().map(|ext| ext.to_string_lossy().to_string())
}

/// `str::to_lowercase`: the text with each character in lower case.
#[verifier::external_body]
pub(crate) fn lowercase(text: &str) -> (lower: String)
    ensures
        lower@ == lowercase_of(text@),
{
    text.to_lowercase()
}

} // verus!
