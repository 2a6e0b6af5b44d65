use vstd::prelude::*;

verus! {

/// Whether `c` has the Unicode `White_Space` property, which is what
/// `char::is_whitespace`, and so `str::trim`, go by: tab through carriage
/// return, space, next line, no-break space, ogham space mark, the spaces
/// from en quad to hair space, line and paragraph separators, narrow
/// no-break space, medium mathematical space and ideographic space.
pub open spec fn is_white_space(c: char) -> bool {
    let u = c as u32;
    ||| 0x09 <= u <= 0x0D
    ||| u == 0x20
    ||| u == 0x85
    ||| u == 0xA0
    ||| u == 0x1680
    ||| 0x2000 <= u <= 0x200A
    ||| u == 0x2028
    ||| u == 0x2029
    ||| u == 0x202F
    ||| u == 0x205F
    ||| u == 0x3000
}

/// The text without its leading white space.
pub open spec fn trimmed_start(s: Seq<char>) -> Seq<char>
    decreases s.len(),
{
    if s.len() > 0 && is_white_space(s[0]) {
        trimmed_start(s.drop_first())
    } else {
        s
    }
}

/// The text without its trailing white space.
pub open spec fn trimmed_end(s: Seq<char>) -> Seq<char>
    decreases s.len(),
{
    if s.len() > 0 && is_white_space(s.last()) {
        trimmed_end(s.drop_last())
    } else {
        s
    }
}

/// What `str::trim` leaves of a text: the text without its leading and
/// trailing white space.
pub open spec fn trimmed(s: Seq<char>) -> Seq<char> {
    trimmed_end(trimmed_start(s))
}

/// Whether every character is an ASCII decimal digit.
pub open spec fn all_digits(d: Seq<char>) -> bool {
    forall|i: int| 0 <= i < d.len() ==> '0' <= #[trigger] d[i] <= '9'
}

/// The number that decimal digits spell.
pub open spec fn digits_value(d: Seq<char>) -> int
    decreases d.len(),
{
    if d.len() == 0 {
        0
    } else {
        digits_value(d.drop_last()) * 10 + ((d.last() as u32) - ('0' as u32))
    }
}

/// What `str::parse::<usize>` reads from a text: an optional `+`, then one or
/// more ASCII decimal digits whose value fits in a `usize`; anything else
/// reads as nothing.
pub open spec fn parsed_usize(s: Seq<char>) -> Option<usize> {
    let d = if s.len() > 0 && s[0] == '+' {
        s.drop_first()
    } else {
        s
    };
    if d.len() > 0 && all_digits(d) && digits_value(d) <= usize::MAX {
        Some(digits_value(d) as usize)
    } else {
        None
    }
}

/// `str::trim`: the text without leading and trailing white space.
#[verifier::external_body]
fn trim(s: &str) -> (t: &str)
    ensures
        t@ == trimmed(s@),
{
    s.trim()
}

/// `str::parse::<usize>`, its error dropped: the number an optional `+`
/// and decimal digits spell, when it fits.
#[verifier::external_body]
fn parse_usize(s: &str) -> (n: Option<usize>)
    ensures
        n == parsed_usize(s@),
{
    s.parse::<usize>().ok()
}

/// How many headless clients to launch when the answer is not a number.
pub const DEFAULT_CLIENT_COUNT: usize = 1;

/// The number of headless clients asked for, given what parsing the answer
/// gave: the number read, else [`DEFAULT_CLIENT_COUNT`].
pub fn count_or_default(parsed: Option<usize>) -> (n: usize)
    ensures
        n == (match parsed {
            Some(k) => k,
            None => DEFAULT_CLIENT_COUNT,
        }),
{
    match parsed {
        Some(k) => k,
        None => DEFAULT_CLIENT_COUNT,
    }
}

/// The number of headless clients asked for by the answer typed at the
/// prompt: the number it spells once surrounding whitespace is dropped, else
/// [`DEFAULT_CLIENT_COUNT`].
pub fn client_count(input: &str) -> (n: usize)
    ensures
        n == (match parsed_usize(trimmed(input@)) {
            Some(k) => k,
            None => DEFAULT_CLIENT_COUNT,
        }),
{
    count_or_default(parse_usize(trim(input)))
}

} // verus!
