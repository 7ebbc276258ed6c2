//! Character-level text utilities shared by the schema pipeline: character
//! classification, the lower-camel-case rendering of identifiers, and decimal
//! rendering of array lengths.

use vstd::prelude::*;

verus! {

/// Whitespace as it may appear inside a type expression or between tokens.
pub open spec fn is_ws(c: char) -> bool {
    c == ' ' || c == '\t' || c == '\n' || c == '\r'
}

pub open spec fn is_digit(c: char) -> bool {
    48 <= c as u32 <= 57
}

pub open spec fn is_lower_alpha(c: char) -> bool {
    97 <= c as u32 <= 122
}

pub open spec fn is_upper_alpha(c: char) -> bool {
    65 <= c as u32 <= 90
}

/// First character of an identifier: a letter or an underscore.
pub open spec fn is_ident_start(c: char) -> bool {
    is_lower_alpha(c) || is_upper_alpha(c) || c == '_'
}

/// Continuation character of an identifier.
pub open spec fn is_ident_char(c: char) -> bool {
    is_ident_start(c) || is_digit(c)
}

pub open spec fn char_lower(c: char) -> char {
    if is_upper_alpha(c) {
        ((c as u8) + 32) as char
    } else {
        c
    }
}

pub open spec fn char_upper(c: char) -> char {
    if is_lower_alpha(c) {
        ((c as u8) - 32) as char
    } else {
        c
    }
}

pub fn exec_is_ws(c: char) -> (r: bool)
    ensures
        r == is_ws(c),
{
    c == ' ' || c == '\t' || c == '\n' || c == '\r'
}

pub fn exec_is_digit(c: char) -> (r: bool)
    ensures
        r == is_digit(c),
{
    let u = c as u32;
    48 <= u && u <= 57
}

pub fn exec_is_lower_alpha(c: char) -> (r: bool)
    ensures
        r == is_lower_alpha(c),
{
    let u = c as u32;
    97 <= u && u <= 122
}

pub fn exec_is_upper_alpha(c: char) -> (r: bool)
    ensures
        r == is_upper_alpha(c),
{
    let u = c as u32;
    65 <= u && u <= 90
}

pub fn exec_is_ident_start(c: char) -> (r: bool)
    ensures
        r == is_ident_start(c),
{
    exec_is_lower_alpha(c) || exec_is_upper_alpha(c) || c == '_'
}

pub fn exec_is_ident_char(c: char) -> (r: bool)
    ensures
        r == is_ident_char(c),
{
    exec_is_ident_start(c) || exec_is_digit(c)
}

pub fn exec_char_lower(c: char) -> (r: char)
    ensures
        r == char_lower(c),
{
    if exec_is_upper_alpha(c) {
        ((c as u8) + 32) as char
    } else {
        c
    }
}

pub fn exec_char_upper(c: char) -> (r: char)
    ensures
        r == char_upper(c),
{
    if exec_is_lower_alpha(c) {
        ((c as u8) - 32) as char
    } else {
        c
    }
}

/// The lower-camel-case rendering of an identifier, one character at a time
/// from position `i`. `started` records whether a character has been emitted
/// yet (the first word is fully lowercased); `pending` records that an
/// underscore was just crossed, so the next character starts a new word. A new
/// word also starts at an uppercase character that follows a non-uppercase
/// one. Underscores are dropped; the first character of every word but the
/// first is uppercased, all other characters are lowercased.
pub open spec fn lower_camel_from(s: Seq<char>, i: int, started: bool, pending: bool) -> Seq<char>
    decreases s.len() - i,
{
    if i < 0 || i >= s.len() {
        Seq::empty()
    } else if s[i] == '_' {
        lower_camel_from(s, i + 1, started, true)
    } else {
        let c = s[i];
        let boundary = started && (pending || (is_upper_alpha(c) && i > 0 && !is_upper_alpha(
            s[i - 1],
        )));
        let o = if !started {
            char_lower(c)
        } else if boundary {
            char_upper(c)
        } else {
            char_lower(c)
        };
        seq![o] + lower_camel_from(s, i + 1, true, false)
    }
}

/// The lower-camel-case rendering of a whole identifier.
pub open spec fn lower_camel(s: Seq<char>) -> Seq<char> {
    lower_camel_from(s, 0, false, false)
}

/// Rewrites an identifier to lower camel case.
pub fn to_lower_camel(name: &Vec<char>) -> (out: Vec<char>)
    ensures
        out@ == lower_camel(name@),
{
    let mut out: Vec<char> = Vec::new();
    let mut i: usize = 0;
    let mut started: bool = false;
    let mut pending: bool = false;
    while i < name.len()
        invariant
            i <= name.len(),
            lower_camel(name@) == out@ + lower_camel_from(name@, i as int, started, pending),
        decreases name.len() - i,
    {
        let c = name[i];
        if c == '_' {
            pending = true;
        } else {
            let boundary = started && (pending || (exec_is_upper_alpha(c) && i > 0
                && !exec_is_upper_alpha(name[i - 1])));
            let o = if !started {
                exec_char_lower(c)
            } else if boundary {
                exec_char_upper(c)
            } else {
                exec_char_lower(c)
            };
            proof {
                assert(lower_camel_from(name@, i as int, started, pending) == seq![o]
                    + lower_camel_from(name@, i as int + 1, true, false));
            }
            out.push(o);
            started = true;
            pending = false;
        }
        i = i + 1;
    }
    out
}

/// The decimal digit character for a value below ten.
pub open spec fn digit_char(d: nat) -> char {
    (48 + d) as char
}

/// The decimal rendering of a natural number, most significant digit first,
/// with no leading zeroes (a single `'0'` for zero).
pub open spec fn dec_digits(n: nat) -> Seq<char>
    decreases n,
{
    if n < 10 {
        seq![digit_char(n)]
    } else {
        dec_digits(n / 10).push(digit_char(n % 10))
    }
}

/// Appends the decimal rendering of `n` to `out`.
pub fn append_decimal(n: usize, out: &mut Vec<char>)
    ensures
        final(out)@ == old(out)@ + dec_digits(n as nat),
    decreases n,
{
    if n >= 10 {
        append_decimal(n / 10, out);
    }
    let d: u8 = (n % 10) as u8 + 48;
    out.push(d as char);
    proof {
        assert(d as char == digit_char((n % 10) as nat));
        if n >= 10 {
            assert(dec_digits(n as nat) == dec_digits(n as nat / 10).push(
                digit_char(n as nat % 10),
            ));
        }
        assert(out@ =~= old(out)@ + dec_digits(n as nat));
    }
}

/// Relies on `str::chars`: iterating a string slice yields exactly its
/// characters in order.
#[verifier::external_body]
pub(crate) fn str_to_chars(s: &str) -> (r: Vec<char>)
    ensures
        r@ == s@,
{
    s.chars().collect()
}

/// Relies on `String: FromIterator<char>`: collecting characters builds the
/// string holding exactly those characters in order.
#[verifier::external_body]
pub(crate) fn chars_to_string(v: &Vec<char>) -> (r: String)
    ensures
        r@ == v@,
{
    v.iter().copied().collect()
}

} // verus!
