//! The declaration scanner: finds, inside one source file's text, the
//! `struct` and `enum` declarations that carry the generation marker (an
//! attribute naming `BorshSchema`), and extracts their raw fields and
//! variants in declaration order.
//!
//! Scanning works on a stripped copy of the text in which comments and
//! string/character literals have been replaced by a single space, so that
//! braces or markers inside them cannot confuse the declaration grammar. The
//! grammar is deliberately small: attributes, an optional visibility prefix,
//! `struct` declarations with named, positional or no fields, and `enum`
//! declarations whose variants carry named, positional or no payload fields.
//! A declaration that carries the marker but does not fit this grammar is a
//! failure of the whole scan; text outside marked declarations is ignored.

use vstd::prelude::*;

use crate::field::{RawField, RawFieldModel};
use crate::text::{is_ident_char, is_ident_start, is_ws};

verus! {

/// An empty marker trait: a declaration carrying it in an attribute (most
/// naturally through a derive list) is what the scanner recognizes as opted
/// in to schema generation.
pub trait BorshSchema {

}

// ---------------------------------------------------------------------
// Stage one: stripping comments and literals.
// ---------------------------------------------------------------------

/// State of the stripping automaton: ordinary code, a line comment, a block
/// comment at some nesting depth, a string literal, or a character literal.
pub enum SMode {
    Code,
    Line,
    Block(int),
    Str,
    CharLit,
}

/// One step per character: comments and string/character literal bodies are
/// dropped (each whole literal or comment leaves a single space behind), all
/// other characters pass through. A lone quote (a lifetime marker) is
/// replaced by a space.
pub open spec fn strip_dfa(s: Seq<char>, i: int, mode: SMode) -> Seq<char>
    decreases s.len() - i,
{
    if i < 0 || i >= s.len() {
        Seq::empty()
    } else {
        let c = s[i];
        match mode {
            SMode::Code => {
                if c == '/' && i + 1 < s.len() && s[i + 1] == '/' {
                    seq![' '] + strip_dfa(s, i + 2, SMode::Line)
                } else if c == '/' && i + 1 < s.len() && s[i + 1] == '*' {
                    seq![' '] + strip_dfa(s, i + 2, SMode::Block(1))
                } else if c == '"' {
                    seq![' '] + strip_dfa(s, i + 1, SMode::Str)
                } else if c == '\'' {
                    if i + 2 < s.len() && s[i + 1] != '\\' && s[i + 2] == '\'' {
                        seq![' '] + strip_dfa(s, i + 3, SMode::Code)
                    } else if i + 1 < s.len() && s[i + 1] == '\\' {
                        seq![' '] + strip_dfa(s, i + 2, SMode::CharLit)
                    } else {
                        seq![' '] + strip_dfa(s, i + 1, SMode::Code)
                    }
                } else {
                    seq![c] + strip_dfa(s, i + 1, SMode::Code)
                }
            },
            SMode::Line => {
                if c == '\n' {
                    seq!['\n'] + strip_dfa(s, i + 1, SMode::Code)
                } else {
                    strip_dfa(s, i + 1, SMode::Line)
                }
            },
            SMode::Block(d) => {
                if c == '*' && i + 1 < s.len() && s[i + 1] == '/' {
                    if d <= 1 {
                        strip_dfa(s, i + 2, SMode::Code)
                    } else {
                        strip_dfa(s, i + 2, SMode::Block(d - 1))
                    }
                } else if c == '/' && i + 1 < s.len() && s[i + 1] == '*' {
                    strip_dfa(s, i + 2, SMode::Block(d + 1))
                } else {
                    strip_dfa(s, i + 1, SMode::Block(d))
                }
            },
            SMode::Str => {
                if c == '\\' {
                    if i + 2 <= s.len() {
                        strip_dfa(s, i + 2, SMode::Str)
                    } else {
                        Seq::empty()
                    }
                } else if c == '"' {
                    strip_dfa(s, i + 1, SMode::Code)
                } else {
                    strip_dfa(s, i + 1, SMode::Str)
                }
            },
            SMode::CharLit => {
                if c == '\\' {
                    if i + 2 <= s.len() {
                        strip_dfa(s, i + 2, SMode::CharLit)
                    } else {
                        Seq::empty()
                    }
                } else if c == '\'' {
                    strip_dfa(s, i + 1, SMode::Code)
                } else {
                    strip_dfa(s, i + 1, SMode::CharLit)
                }
            },
        }
    }
}

/// The stripped form of a whole source text.
pub open spec fn strip_spec(s: Seq<char>) -> Seq<char> {
    strip_dfa(s, 0, SMode::Code)
}

/// Executable state of the stripping automaton.
enum EMode {
    Code,
    Line,
    Block(usize),
    Str,
    CharLit,
}

impl View for EMode {
    type V = SMode;

    closed spec fn view(&self) -> SMode {
        match self {
            EMode::Code => SMode::Code,
            EMode::Line => SMode::Line,
            EMode::Block(d) => SMode::Block(*d as int),
            EMode::Str => SMode::Str,
            EMode::CharLit => SMode::CharLit,
        }
    }
}

/// Strips comments and literals from a source text.
pub fn strip(s: &Vec<char>) -> (r: Vec<char>)
    ensures
        r@ == strip_spec(s@),
{
    let mut out: Vec<char> = Vec::new();
    let mut i: usize = 0;
    let mut mode = EMode::Code;
    while i < s.len()
        invariant
            strip_spec(s@) == out@ + strip_dfa(s@, i as int, mode@),
            match mode {
                EMode::Block(d) => 1 <= d && 2 * d <= i + 2,
                _ => true,
            },
        decreases s.len() - i,
    {
        let ghost prev = out@;
        let c = s[i];
        match mode {
            EMode::Code => {
                if c == '/' && i + 1 < s.len() && s[i + 1] == '/' {
                    out.push(' ');
                    i = i + 2;
                    mode = EMode::Line;
                } else if c == '/' && i + 1 < s.len() && s[i + 1] == '*' {
                    out.push(' ');
                    i = i + 2;
                    mode = EMode::Block(1);
                } else if c == '"' {
                    out.push(' ');
                    i = i + 1;
                    mode = EMode::Str;
                } else if c == '\'' {
                    if s.len() - i > 2 && s[i + 1] != '\\' && s[i + 2] == '\'' {
                        out.push(' ');
                        i = i + 3;
                    } else if i + 1 < s.len() && s[i + 1] == '\\' {
                        out.push(' ');
                        i = i + 2;
                        mode = EMode::CharLit;
                    } else {
                        out.push(' ');
                        i = i + 1;
                    }
                } else {
                    out.push(c);
                    i = i + 1;
                }
            },
            EMode::Line => {
                if c == '\n' {
                    out.push('\n');
                    mode = EMode::Code;
                }
                i = i + 1;
            },
            EMode::Block(d) => {
                if c == '*' && i + 1 < s.len() && s[i + 1] == '/' {
                    if d <= 1 {
                        mode = EMode::Code;
                    } else {
                        mode = EMode::Block(d - 1);
                    }
                    i = i + 2;
                } else if c == '/' && i + 1 < s.len() && s[i + 1] == '*' {
                    mode = EMode::Block(d + 1);
                    i = i + 2;
                } else {
                    i = i + 1;
                }
            },
            EMode::Str => {
                if c == '\\' {
                    if s.len() - i >= 2 {
                        i = i + 2;
                    } else {
                        i = s.len();
                    }
                } else {
                    if c == '"' {
                        mode = EMode::Code;
                    }
                    i = i + 1;
                }
            },
            EMode::CharLit => {
                if c == '\\' {
                    if s.len() - i >= 2 {
                        i = i + 2;
                    } else {
                        i = s.len();
                    }
                } else {
                    if c == '\'' {
                        mode = EMode::Code;
                    }
                    i = i + 1;
                }
            },
        }
        proof {
            assert(strip_spec(s@) == out@ + strip_dfa(s@, i as int, mode@)) by {
                if out@ != prev {
                    let e = out@.last();
                    assert(prev + (seq![e] + strip_dfa(s@, i as int, mode@)) =~= out@
                        + strip_dfa(s@, i as int, mode@));
                }
            }
        }
    }
    proof {
        assert(strip_dfa(s@, i as int, mode@) =~= Seq::<char>::empty());
        assert(out@ + Seq::<char>::empty() =~= out@);
    }
    out
}

// ---------------------------------------------------------------------
// Stage two: the declaration grammar over the stripped text.
// ---------------------------------------------------------------------

/// The first non-whitespace position at or after `i`.
pub open spec fn skip_ws(s: Seq<char>, i: int) -> int
    decreases s.len() - i,
{
    if 0 <= i < s.len() && is_ws(s[i]) {
        skip_ws(s, i + 1)
    } else {
        i
    }
}

pub proof fn lemma_skip_ws(s: Seq<char>, i: int)
    ensures
        i <= skip_ws(s, i),
        i <= s.len() ==> skip_ws(s, i) <= s.len(),
        0 <= skip_ws(s, i) < s.len() ==> !is_ws(s[skip_ws(s, i)]),
    decreases s.len() - i,
{
    if 0 <= i < s.len() && is_ws(s[i]) {
        lemma_skip_ws(s, i + 1);
    }
}

/// The end of the identifier-character run starting at `i`.
pub open spec fn ident_end(s: Seq<char>, i: int) -> int
    decreases s.len() - i,
{
    if 0 <= i < s.len() && is_ident_char(s[i]) {
        ident_end(s, i + 1)
    } else {
        i
    }
}

pub proof fn lemma_ident_end(s: Seq<char>, i: int)
    ensures
        i <= ident_end(s, i),
        i <= s.len() ==> ident_end(s, i) <= s.len(),
    decreases s.len() - i,
{
    if 0 <= i < s.len() && is_ident_char(s[i]) {
        lemma_ident_end(s, i + 1);
    }
}

/// The position just past the bracket that closes an attribute, scanning from
/// inside the brackets at nesting `depth`; the end of the text when the
/// attribute is unterminated.
pub open spec fn attr_end(s: Seq<char>, i: int, depth: int) -> int
    decreases s.len() - i,
{
    if !(0 <= i < s.len()) {
        s.len() as int
    } else if s[i] == '[' {
        attr_end(s, i + 1, depth + 1)
    } else if s[i] == ']' {
        if depth <= 1 {
            i + 1
        } else {
            attr_end(s, i + 1, depth - 1)
        }
    } else {
        attr_end(s, i + 1, depth)
    }
}

pub proof fn lemma_attr_end(s: Seq<char>, i: int, depth: int)
    ensures
        i <= attr_end(s, i, depth) || attr_end(s, i, depth) == s.len(),
        i <= s.len() ==> i <= attr_end(s, i, depth) <= s.len(),
    decreases s.len() - i,
{
    if 0 <= i < s.len() {
        if s[i] == '[' {
            lemma_attr_end(s, i + 1, depth + 1);
        } else if s[i] == ']' {
            if depth > 1 {
                lemma_attr_end(s, i + 1, depth - 1);
            }
        } else {
            lemma_attr_end(s, i + 1, depth);
        }
    }
}

/// The position just past the parenthesis that closes a group, scanning from
/// inside the parentheses at nesting `depth`.
pub open spec fn paren_end(s: Seq<char>, i: int, depth: int) -> int
    decreases s.len() - i,
{
    if !(0 <= i < s.len()) {
        s.len() as int
    } else if s[i] == '(' {
        paren_end(s, i + 1, depth + 1)
    } else if s[i] == ')' {
        if depth <= 1 {
            i + 1
        } else {
            paren_end(s, i + 1, depth - 1)
        }
    } else {
        paren_end(s, i + 1, depth)
    }
}

pub proof fn lemma_paren_end(s: Seq<char>, i: int, depth: int)
    ensures
        i <= paren_end(s, i, depth) || paren_end(s, i, depth) == s.len(),
        i <= s.len() ==> i <= paren_end(s, i, depth) <= s.len(),
    decreases s.len() - i,
{
    if 0 <= i < s.len() {
        if s[i] == '(' {
            lemma_paren_end(s, i + 1, depth + 1);
        } else if s[i] == ')' {
            if depth > 1 {
                lemma_paren_end(s, i + 1, depth - 1);
            }
        } else {
            lemma_paren_end(s, i + 1, depth);
        }
    }
}

/// The end of a type expression: the first position at bracket depth zero
/// holding a comma or the closing delimiter `closer`. All four bracket kinds
/// nest.
pub open spec fn ty_end(s: Seq<char>, i: int, depth: int, closer: char) -> int
    decreases s.len() - i,
{
    if !(0 <= i < s.len()) {
        s.len() as int
    } else {
        let c = s[i];
        if depth <= 0 && (c == ',' || c == closer) {
            i
        } else if c == '(' || c == '[' || c == '{' || c == '<' {
            ty_end(s, i + 1, depth + 1, closer)
        } else if c == ')' || c == ']' || c == '}' || c == '>' {
            ty_end(s, i + 1, if depth <= 0 {
                0
            } else {
                depth - 1
            }, closer)
        } else {
            ty_end(s, i + 1, depth, closer)
        }
    }
}

pub proof fn lemma_ty_end(s: Seq<char>, i: int, depth: int, closer: char)
    ensures
        i <= ty_end(s, i, depth, closer) || ty_end(s, i, depth, closer) == s.len(),
        i <= s.len() ==> i <= ty_end(s, i, depth, closer) <= s.len(),
    decreases s.len() - i,
{
    if 0 <= i < s.len() {
        let c = s[i];
        if depth <= 0 && (c == ',' || c == closer) {
        } else if c == '(' || c == '[' || c == '{' || c == '<' {
            lemma_ty_end(s, i + 1, depth + 1, closer);
        } else if c == ')' || c == ']' || c == '}' || c == '>' {
            lemma_ty_end(s, i + 1, if depth <= 0 {
                0
            } else {
                depth - 1
            }, closer);
        } else {
            lemma_ty_end(s, i + 1, depth, closer);
        }
    }
}

/// One attribute at `i` (which holds `#`): the character range of its inner
/// text and the position just past its closing bracket; `None` when no
/// bracket follows the `#`.
pub open spec fn parse_attr(s: Seq<char>, i: int) -> Option<(int, int, int)> {
    let j = skip_ws(s, i + 1);
    let j2 = if 0 <= j < s.len() && s[j] == '!' {
        skip_ws(s, j + 1)
    } else {
        j
    };
    if 0 <= j2 < s.len() && s[j2] == '[' {
        let e = attr_end(s, j2 + 1, 1);
        Some((j2 + 1, e - 1, e))
    } else {
        None
    }
}

pub proof fn lemma_parse_attr(s: Seq<char>, i: int)
    requires
        0 <= i < s.len(),
    ensures
        match parse_attr(s, i) {
            Some(t) => i + 2 <= t.0 <= t.2 <= s.len() && t.1 == t.2 - 1,
            None => true,
        },
{
    lemma_skip_ws(s, i + 1);
    let j = skip_ws(s, i + 1);
    if 0 <= j < s.len() && s[j] == '!' {
        lemma_skip_ws(s, j + 1);
    }
    let j2 = if 0 <= j < s.len() && s[j] == '!' {
        skip_ws(s, j + 1)
    } else {
        j
    };
    if 0 <= j2 < s.len() && s[j2] == '[' {
        lemma_attr_end(s, j2 + 1, 1);
    }
}

/// Whether `w` occurs in `t` as a whole word at position `k` (not embedded in
/// a longer identifier).
pub open spec fn word_at(t: Seq<char>, w: Seq<char>, k: int) -> bool {
    0 <= k && k + w.len() <= t.len() && t.subrange(k, k + w.len()) == w && (k == 0
        || !is_ident_char(t[k - 1])) && (k + w.len() == t.len() || !is_ident_char(t[k + w.len()]))
}

/// Whether `w` occurs in `t` as a whole word anywhere.
pub open spec fn contains_word(t: Seq<char>, w: Seq<char>) -> bool {
    exists|k: int| #[trigger] word_at(t, w, k)
}

/// The alias directive's type expression, when the attribute text is
/// `alias(<type-expr>)`.
pub open spec fn attr_alias(inner: Seq<char>) -> Option<Seq<char>> {
    let k = skip_ws(inner, 0);
    let e = ident_end(inner, k);
    if 0 <= k <= e <= inner.len() && inner.subrange(k, e) == "alias"@ {
        let p = skip_ws(inner, e);
        if 0 <= p < inner.len() && inner[p] == '(' {
            let pe = paren_end(inner, p + 1, 1);
            if pe >= p + 2 {
                Some(inner.subrange(p + 1, pe - 1))
            } else {
                Some(Seq::empty())
            }
        } else {
            None
        }
    } else {
        None
    }
}

/// Whether the attribute text is the skip directive `schema_skip`.
pub open spec fn attr_is_skip(inner: Seq<char>) -> bool {
    let k = skip_ws(inner, 0);
    let e = ident_end(inner, k);
    0 <= k <= e <= inner.len() && inner.subrange(k, e) == "schema_skip"@
}

/// What a run of consecutive attributes carries: the generation marker, the
/// first alias directive, the skip directive, and the position just past the
/// last attribute.
pub struct AttrInfo {
    pub marker: bool,
    pub alias: Option<Seq<char>>,
    pub skip: bool,
    pub end: int,
}

/// Scans the run of attributes starting at the first non-whitespace position
/// at or after `i`.
pub open spec fn attrs_scan(s: Seq<char>, i: int) -> AttrInfo
    decreases s.len() - i,
    when 0 <= i <= s.len()
    via attrs_scan_decreases
{
    let j = skip_ws(s, i);
    if 0 <= j < s.len() && s[j] == '#' {
        match parse_attr(s, j) {
            Some(t) => {
                let inner = if t.1 >= t.0 {
                    s.subrange(t.0, t.1)
                } else {
                    Seq::empty()
                };
                let rest = attrs_scan(s, t.2);
                AttrInfo {
                    marker: rest.marker || contains_word(inner, "BorshSchema"@),
                    alias: if attr_alias(inner) is Some {
                        attr_alias(inner)
                    } else {
                        rest.alias
                    },
                    skip: rest.skip || attr_is_skip(inner),
                    end: rest.end,
                }
            },
            None => AttrInfo { marker: false, alias: None, skip: false, end: j },
        }
    } else {
        AttrInfo { marker: false, alias: None, skip: false, end: j }
    }
}

#[via_fn]
proof fn attrs_scan_decreases(s: Seq<char>, i: int) {
    lemma_skip_ws(s, i);
    let j = skip_ws(s, i);
    if 0 <= j < s.len() && s[j] == '#' {
        lemma_parse_attr(s, j);
    }
}

pub proof fn lemma_attrs_scan(s: Seq<char>, i: int)
    requires
        0 <= i <= s.len(),
    ensures
        i <= attrs_scan(s, i).end <= s.len(),
        attrs_scan(s, i).marker ==> attrs_scan(s, i).end > i,
    decreases s.len() - i,
{
    lemma_skip_ws(s, i);
    let j = skip_ws(s, i);
    if 0 <= j < s.len() && s[j] == '#' {
        lemma_parse_attr(s, j);
        match parse_attr(s, j) {
            Some(t) => {
                lemma_attrs_scan(s, t.2);
            },
            None => {},
        }
    }
}

/// The position just past an optional `pub` visibility prefix (with an
/// optional parenthesized restriction), starting at the first non-whitespace
/// position at or after `i`.
pub open spec fn skip_pub(s: Seq<char>, i: int) -> int {
    let j = skip_ws(s, i);
    let e = ident_end(s, j);
    if 0 <= j <= e <= s.len() && s.subrange(j, e) == "pub"@ {
        let p = skip_ws(s, e);
        if 0 <= p < s.len() && s[p] == '(' {
            skip_ws(s, paren_end(s, p + 1, 1))
        } else {
            p
        }
    } else {
        j
    }
}

pub proof fn lemma_skip_pub(s: Seq<char>, i: int)
    requires
        0 <= i <= s.len(),
    ensures
        i <= skip_pub(s, i) <= s.len(),
{
    lemma_skip_ws(s, i);
    let j = skip_ws(s, i);
    lemma_ident_end(s, j);
    let e = ident_end(s, j);
    if 0 <= j <= e <= s.len() && s.subrange(j, e) == "pub"@ {
        lemma_skip_ws(s, e);
        let p = skip_ws(s, e);
        if 0 <= p < s.len() && s[p] == '(' {
            lemma_paren_end(s, p + 1, 1);
            lemma_skip_ws(s, paren_end(s, p + 1, 1));
        }
    }
}

/// The named fields of a struct body, scanning from just inside the opening
/// brace to just past the closing brace. `None` is a malformed body.
pub open spec fn parse_named_fields(s: Seq<char>, i: int) -> Option<(Seq<RawFieldModel>, int)>
    decreases s.len() - i,
    when 0 <= i <= s.len()
    via parse_named_fields_decreases
{
    let j = skip_ws(s, i);
    if !(0 <= j < s.len()) {
        None
    } else if s[j] == '}' {
        Some((Seq::empty(), j + 1))
    } else {
        let info = attrs_scan(s, j);
        let k = skip_pub(s, info.end);
        let ke = ident_end(s, k);
        if !(0 <= k < s.len() && is_ident_start(s[k]) && ke > k) {
            None
        } else {
            let name = s.subrange(k, ke);
            let c = skip_ws(s, ke);
            if !(0 <= c < s.len() && s[c] == ':') {
                None
            } else {
                let te = ty_end(s, c + 1, 0, '}');
                let fld = RawFieldModel {
                    name: Some(name),
                    ty: s.subrange(c + 1, te),
                    alias: info.alias,
                    skip: info.skip,
                };
                if 0 <= te < s.len() && s[te] == ',' {
                    match parse_named_fields(s, te + 1) {
                        Some(p) => Some((seq![fld] + p.0, p.1)),
                        None => None,
                    }
                } else if 0 <= te < s.len() && s[te] == '}' {
                    Some((seq![fld], te + 1))
                } else {
                    None
                }
            }
        }
    }
}

#[via_fn]
proof fn parse_named_fields_decreases(s: Seq<char>, i: int) {
    lemma_skip_ws(s, i);
    let j = skip_ws(s, i);
    if 0 <= j < s.len() && s[j] != '}' {
        lemma_attrs_scan(s, j);
        let info = attrs_scan(s, j);
        lemma_skip_pub(s, info.end);
        let k = skip_pub(s, info.end);
        lemma_ident_end(s, k);
        let ke = ident_end(s, k);
        if 0 <= ke <= s.len() {
            lemma_skip_ws(s, ke);
            let c = skip_ws(s, ke);
            if 0 <= c < s.len() {
                lemma_ty_end(s, c + 1, 0, '}');
            }
        }
    }
}

pub proof fn lemma_parse_named_fields(s: Seq<char>, i: int)
    requires
        0 <= i <= s.len(),
    ensures
        match parse_named_fields(s, i) {
            Some(p) => i < p.1 <= s.len(),
            None => true,
        },
    decreases s.len() - i,
{
    lemma_skip_ws(s, i);
    let j = skip_ws(s, i);
    if 0 <= j < s.len() && s[j] != '}' {
        lemma_attrs_scan(s, j);
        let info = attrs_scan(s, j);
        lemma_skip_pub(s, info.end);
        let k = skip_pub(s, info.end);
        lemma_ident_end(s, k);
        let ke = ident_end(s, k);
        if 0 <= k < s.len() && is_ident_start(s[k]) && ke > k {
            lemma_skip_ws(s, ke);
            let c = skip_ws(s, ke);
            if 0 <= c < s.len() && s[c] == ':' {
                lemma_ty_end(s, c + 1, 0, '}');
                let te = ty_end(s, c + 1, 0, '}');
                if 0 <= te < s.len() && s[te] == ',' {
                    lemma_parse_named_fields(s, te + 1);
                }
            }
        }
    }
}

/// The positional fields of a tuple-struct body, scanning from just inside
/// the opening parenthesis to just past the closing one.
pub open spec fn parse_tuple_fields(s: Seq<char>, i: int) -> Option<(Seq<RawFieldModel>, int)>
    decreases s.len() - i,
    when 0 <= i <= s.len()
    via parse_tuple_fields_decreases
{
    let j = skip_ws(s, i);
    if !(0 <= j < s.len()) {
        None
    } else if s[j] == ')' {
        Some((Seq::empty(), j + 1))
    } else {
        let info = attrs_scan(s, j);
        let k = skip_pub(s, info.end);
        let te = ty_end(s, k, 0, ')');
        let fld = RawFieldModel {
            name: None,
            ty: s.subrange(k, te),
            alias: info.alias,
            skip: info.skip,
        };
        if !(0 <= k <= te) {
            None
        } else if 0 <= te < s.len() && s[te] == ',' {
            match parse_tuple_fields(s, te + 1) {
                Some(p) => Some((seq![fld] + p.0, p.1)),
                None => None,
            }
        } else if 0 <= te < s.len() && s[te] == ')' {
            Some((seq![fld], te + 1))
        } else {
            None
        }
    }
}

#[via_fn]
proof fn parse_tuple_fields_decreases(s: Seq<char>, i: int) {
    lemma_skip_ws(s, i);
    let j = skip_ws(s, i);
    if 0 <= j < s.len() && s[j] != ')' {
        lemma_attrs_scan(s, j);
        let info = attrs_scan(s, j);
        lemma_skip_pub(s, info.end);
        let k = skip_pub(s, info.end);
        lemma_ty_end(s, k, 0, ')');
    }
}

pub proof fn lemma_parse_tuple_fields(s: Seq<char>, i: int)
    requires
        0 <= i <= s.len(),
    ensures
        match parse_tuple_fields(s, i) {
            Some(p) => i < p.1 <= s.len(),
            None => true,
        },
    decreases s.len() - i,
{
    lemma_skip_ws(s, i);
    let j = skip_ws(s, i);
    if 0 <= j < s.len() && s[j] != ')' {
        lemma_attrs_scan(s, j);
        let info = attrs_scan(s, j);
        lemma_skip_pub(s, info.end);
        let k = skip_pub(s, info.end);
        lemma_ty_end(s, k, 0, ')');
        let te = ty_end(s, k, 0, ')');
        if 0 <= te < s.len() && s[te] == ',' {
            lemma_parse_tuple_fields(s, te + 1);
        }
    }
}

/// Model of one enum variant: its name and its payload fields (empty for a
/// payload-less variant).
pub struct RawVariantModel {
    pub name: Seq<char>,
    pub fields: Seq<RawFieldModel>,
}

/// The variants of an enum body, scanning from just inside the opening brace
/// to just past the closing one.
pub open spec fn parse_variants(s: Seq<char>, i: int) -> Option<(Seq<RawVariantModel>, int)>
    decreases s.len() - i,
    when 0 <= i <= s.len()
    via parse_variants_decreases
{
    let j = skip_ws(s, i);
    if !(0 <= j < s.len()) {
        None
    } else if s[j] == '}' {
        Some((Seq::empty(), j + 1))
    } else {
        let info = attrs_scan(s, j);
        let k = info.end;
        let ke = ident_end(s, k);
        if !(0 <= k < s.len() && is_ident_start(s[k]) && ke > k) {
            None
        } else {
            let name = s.subrange(k, ke);
            let c = skip_ws(s, ke);
            let body = if 0 <= c < s.len() && s[c] == '(' {
                parse_tuple_fields(s, c + 1)
            } else if 0 <= c < s.len() && s[c] == '{' {
                parse_named_fields(s, c + 1)
            } else {
                Some((Seq::empty(), c))
            };
            match body {
                Some(p) => {
                    let v = RawVariantModel { name: name, fields: p.0 };
                    let after = skip_ws(s, p.1);
                    if 0 <= after < s.len() && s[after] == ',' {
                        match parse_variants(s, after + 1) {
                            Some(q) => Some((seq![v] + q.0, q.1)),
                            None => None,
                        }
                    } else if 0 <= after < s.len() && s[after] == '}' {
                        Some((seq![v], after + 1))
                    } else {
                        None
                    }
                },
                None => None,
            }
        }
    }
}

#[via_fn]
proof fn parse_variants_decreases(s: Seq<char>, i: int) {
    lemma_skip_ws(s, i);
    let j = skip_ws(s, i);
    if 0 <= j < s.len() && s[j] != '}' {
        lemma_attrs_scan(s, j);
        let info = attrs_scan(s, j);
        let k = info.end;
        lemma_ident_end(s, k);
        let ke = ident_end(s, k);
        if 0 <= ke <= s.len() {
            lemma_skip_ws(s, ke);
            let c = skip_ws(s, ke);
            if 0 <= c < s.len() && s[c] == '(' {
                lemma_parse_tuple_fields(s, c + 1);
            } else if 0 <= c < s.len() && s[c] == '{' {
                lemma_parse_named_fields(s, c + 1);
            }
            let body = if 0 <= c < s.len() && s[c] == '(' {
                parse_tuple_fields(s, c + 1)
            } else if 0 <= c < s.len() && s[c] == '{' {
                parse_named_fields(s, c + 1)
            } else {
                Some((Seq::<RawFieldModel>::empty(), c))
            };
            match body {
                Some(p) => {
                    lemma_skip_ws(s, p.1);
                },
                None => {},
            }
        }
    }
}

pub proof fn lemma_parse_variants(s: Seq<char>, i: int)
    requires
        0 <= i <= s.len(),
    ensures
        match parse_variants(s, i) {
            Some(p) => i < p.1 <= s.len(),
            None => true,
        },
    decreases s.len() - i,
{
    lemma_skip_ws(s, i);
    let j = skip_ws(s, i);
    if 0 <= j < s.len() && s[j] != '}' {
        lemma_attrs_scan(s, j);
        let info = attrs_scan(s, j);
        let k = info.end;
        lemma_ident_end(s, k);
        let ke = ident_end(s, k);
        if 0 <= k < s.len() && is_ident_start(s[k]) && ke > k {
            lemma_skip_ws(s, ke);
            let c = skip_ws(s, ke);
            if 0 <= c < s.len() && s[c] == '(' {
                lemma_parse_tuple_fields(s, c + 1);
            } else if 0 <= c < s.len() && s[c] == '{' {
                lemma_parse_named_fields(s, c + 1);
            }
            let body = if 0 <= c < s.len() && s[c] == '(' {
                parse_tuple_fields(s, c + 1)
            } else if 0 <= c < s.len() && s[c] == '{' {
                parse_named_fields(s, c + 1)
            } else {
                Some((Seq::<RawFieldModel>::empty(), c))
            };
            match body {
                Some(p) => {
                    lemma_skip_ws(s, p.1);
                    let after = skip_ws(s, p.1);
                    if 0 <= after < s.len() && s[after] == ',' {
                        lemma_parse_variants(s, after + 1);
                    }
                },
                None => {},
            }
        }
    }
}

/// Model of one recognized declaration: a struct with raw fields, or an enum
/// with raw variants.
pub struct RawDeclModel {
    pub name: Seq<char>,
    pub is_enum: bool,
    pub fields: Seq<RawFieldModel>,
    pub variants: Seq<RawVariantModel>,
}

/// One marked declaration, scanning from just past its attributes: an
/// optional visibility prefix, `struct` or `enum`, the declaration name, and
/// the body. `None` is a malformed declaration.
pub open spec fn parse_decl(s: Seq<char>, i: int) -> Option<(RawDeclModel, int)> {
    let k = skip_pub(s, i);
    let ke = ident_end(s, k);
    if !(0 <= k <= ke <= s.len() && ke > k) {
        None
    } else {
        let kw = s.subrange(k, ke);
        let n = skip_ws(s, ke);
        let ne = ident_end(s, n);
        if !(0 <= n < s.len() && is_ident_start(s[n]) && ne > n) {
            None
        } else {
            let name = s.subrange(n, ne);
            let b = skip_ws(s, ne);
            if kw == "struct"@ {
                if 0 <= b < s.len() && s[b] == '{' {
                    match parse_named_fields(s, b + 1) {
                        Some(p) => Some(
                            (
                                RawDeclModel {
                                    name: name,
                                    is_enum: false,
                                    fields: p.0,
                                    variants: Seq::empty(),
                                },
                                p.1,
                            ),
                        ),
                        None => None,
                    }
                } else if 0 <= b < s.len() && s[b] == '(' {
                    match parse_tuple_fields(s, b + 1) {
                        Some(p) => {
                            let t = skip_ws(s, p.1);
                            let end = if 0 <= t < s.len() && s[t] == ';' {
                                t + 1
                            } else {
                                p.1
                            };
                            Some(
                                (
                                    RawDeclModel {
                                        name: name,
                                        is_enum: false,
                                        fields: p.0,
                                        variants: Seq::empty(),
                                    },
                                    end,
                                ),
                            )
                        },
                        None => None,
                    }
                } else if 0 <= b < s.len() && s[b] == ';' {
                    Some(
                        (
                            RawDeclModel {
                                name: name,
                                is_enum: false,
                                fields: Seq::empty(),
                                variants: Seq::empty(),
                            },
                            b + 1,
                        ),
                    )
                } else {
                    None
                }
            } else if kw == "enum"@ {
                if 0 <= b < s.len() && s[b] == '{' {
                    match parse_variants(s, b + 1) {
                        Some(p) => Some(
                            (
                                RawDeclModel {
                                    name: name,
                                    is_enum: true,
                                    fields: Seq::empty(),
                                    variants: p.0,
                                },
                                p.1,
                            ),
                        ),
                        None => None,
                    }
                } else {
                    None
                }
            } else {
                None
            }
        }
    }
}

pub proof fn lemma_parse_decl(s: Seq<char>, i: int)
    requires
        0 <= i <= s.len(),
    ensures
        match parse_decl(s, i) {
            Some(p) => i < p.1 <= s.len(),
            None => true,
        },
{
    lemma_skip_pub(s, i);
    let k = skip_pub(s, i);
    lemma_ident_end(s, k);
    let ke = ident_end(s, k);
    if 0 <= k <= ke <= s.len() && ke > k {
        lemma_skip_ws(s, ke);
        let n = skip_ws(s, ke);
        lemma_ident_end(s, n);
        let ne = ident_end(s, n);
        if 0 <= n < s.len() && is_ident_start(s[n]) && ne > n {
            lemma_skip_ws(s, ne);
            let b = skip_ws(s, ne);
            if 0 <= b < s.len() && s[b] == '{' {
                lemma_parse_named_fields(s, b + 1);
                lemma_parse_variants(s, b + 1);
            } else if 0 <= b < s.len() && s[b] == '(' {
                lemma_parse_tuple_fields(s, b + 1);
                match parse_tuple_fields(s, b + 1) {
                    Some(p) => {
                        lemma_skip_ws(s, p.1);
                    },
                    None => {},
                }
            }
        }
    }
}

/// Scans the stripped text from `i` for marked declarations, in order. `None`
/// is a marked declaration that does not fit the grammar.
pub open spec fn scan_from(s: Seq<char>, i: int) -> Option<Seq<RawDeclModel>>
    decreases s.len() - i,
    when 0 <= i <= s.len()
    via scan_from_decreases
{
    if !(0 <= i < s.len()) {
        Some(Seq::empty())
    } else if s[i] == '#' {
        let info = attrs_scan(s, i);
        if info.marker {
            match parse_decl(s, info.end) {
                Some(p) => match scan_from(s, p.1) {
                    Some(rest) => Some(seq![p.0] + rest),
                    None => None,
                },
                None => None,
            }
        } else {
            if info.end > i {
                scan_from(s, info.end)
            } else {
                scan_from(s, i + 1)
            }
        }
    } else {
        scan_from(s, i + 1)
    }
}

#[via_fn]
proof fn scan_from_decreases(s: Seq<char>, i: int) {
    if 0 <= i < s.len() && s[i] == '#' {
        lemma_attrs_scan(s, i);
        let info = attrs_scan(s, i);
        if info.marker {
            lemma_parse_decl(s, info.end);
        }
    }
}

/// The marked declarations of one source file, or `None` when a marked
/// declaration is malformed.
pub open spec fn scan_file_spec(content: Seq<char>) -> Option<Seq<RawDeclModel>> {
    scan_from(strip_spec(content), 0)
}

// ---------------------------------------------------------------------
// Executable scanner.
// ---------------------------------------------------------------------

/// One raw enum variant as extracted from the source.
#[derive(Debug)]
pub struct RawVariant {
    pub name: String,
    pub fields: Vec<RawField>,
}

impl View for RawVariant {
    type V = RawVariantModel;

    open spec fn view(&self) -> RawVariantModel {
        RawVariantModel { name: self.name@, fields: crate::layout::raw_fields_view(self.fields@) }
    }
}

/// One recognized declaration as extracted from the source.
#[derive(Debug)]
pub struct RawDecl {
    pub name: String,
    pub is_enum: bool,
    pub fields: Vec<RawField>,
    pub variants: Vec<RawVariant>,
}

impl View for RawDecl {
    type V = RawDeclModel;

    open spec fn view(&self) -> RawDeclModel {
        RawDeclModel {
            name: self.name@,
            is_enum: self.is_enum,
            fields: crate::layout::raw_fields_view(self.fields@),
            variants: variants_view(self.variants@),
        }
    }
}

/// The variant models of a vector of raw variants.
pub open spec fn variants_view(v: Seq<RawVariant>) -> Seq<RawVariantModel> {
    v.map_values(|x: RawVariant| x@)
}

/// The declaration models of a vector of raw declarations.
pub open spec fn decls_view(v: Seq<RawDecl>) -> Seq<RawDeclModel> {
    v.map_values(|x: RawDecl| x@)
}

fn skip_ws_exec(s: &Vec<char>, i: usize) -> (r: usize)
    requires
        i <= s@.len(),
    ensures
        r == skip_ws(s@, i as int),
        i <= r <= s@.len(),
{
    let mut j = i;
    while j < s.len() && crate::text::exec_is_ws(s[j])
        invariant
            i <= j <= s@.len(),
            skip_ws(s@, i as int) == skip_ws(s@, j as int),
        decreases s@.len() - j,
    {
        j = j + 1;
    }
    j
}

fn ident_end_exec(s: &Vec<char>, i: usize) -> (r: usize)
    requires
        i <= s@.len(),
    ensures
        r == ident_end(s@, i as int),
        i <= r <= s@.len(),
{
    let mut j = i;
    while j < s.len() && crate::text::exec_is_ident_char(s[j])
        invariant
            i <= j <= s@.len(),
            ident_end(s@, i as int) == ident_end(s@, j as int),
        decreases s@.len() - j,
    {
        j = j + 1;
    }
    j
}

fn attr_end_exec(s: &Vec<char>, i: usize, depth: usize) -> (r: usize)
    requires
        i <= s@.len(),
        depth <= i,
    ensures
        r == attr_end(s@, i as int, depth as int),
        i <= r <= s@.len(),
{
    let mut j = i;
    let mut d = depth;
    while j < s.len()
        invariant
            i <= j <= s@.len(),
            d <= j,
            attr_end(s@, i as int, depth as int) == attr_end(s@, j as int, d as int),
        decreases s@.len() - j,
    {
        let c = s[j];
        if c == '[' {
            d = d + 1;
            j = j + 1;
        } else if c == ']' {
            if d <= 1 {
                return j + 1;
            }
            d = d - 1;
            j = j + 1;
        } else {
            j = j + 1;
        }
    }
    s.len()
}

fn paren_end_exec(s: &Vec<char>, i: usize, depth: usize) -> (r: usize)
    requires
        i <= s@.len(),
        depth <= i,
    ensures
        r == paren_end(s@, i as int, depth as int),
        i <= r <= s@.len(),
{
    let mut j = i;
    let mut d = depth;
    while j < s.len()
        invariant
            i <= j <= s@.len(),
            d <= j,
            paren_end(s@, i as int, depth as int) == paren_end(s@, j as int, d as int),
        decreases s@.len() - j,
    {
        let c = s[j];
        if c == '(' {
            d = d + 1;
            j = j + 1;
        } else if c == ')' {
            if d <= 1 {
                return j + 1;
            }
            d = d - 1;
            j = j + 1;
        } else {
            j = j + 1;
        }
    }
    s.len()
}

fn ty_end_exec(s: &Vec<char>, i: usize, closer: char) -> (r: usize)
    requires
        i <= s@.len(),
    ensures
        r == ty_end(s@, i as int, 0, closer),
        i <= r <= s@.len(),
{
    let mut j = i;
    let mut d: usize = 0;
    while j < s.len()
        invariant
            i <= j <= s@.len(),
            d <= j,
            ty_end(s@, i as int, 0, closer) == ty_end(s@, j as int, d as int, closer),
        decreases s@.len() - j,
    {
        let c = s[j];
        if d == 0 && (c == ',' || c == closer) {
            return j;
        }
        if c == '(' || c == '[' || c == '{' || c == '<' {
            d = d + 1;
        } else if c == ')' || c == ']' || c == '}' || c == '>' {
            if d > 0 {
                d = d - 1;
            }
        }
        j = j + 1;
    }
    s.len()
}

/// Copies the character range `[lo, hi)` out of `s`.
fn subvec(s: &Vec<char>, lo: usize, hi: usize) -> (r: Vec<char>)
    requires
        lo <= hi <= s@.len(),
    ensures
        r@ == s@.subrange(lo as int, hi as int),
{
    let mut out: Vec<char> = Vec::new();
    let mut k = lo;
    while k < hi
        invariant
            lo <= k <= hi <= s@.len(),
            out@ == s@.subrange(lo as int, k as int),
        decreases hi - k,
    {
        out.push(s[k]);
        proof {
            assert(out@ =~= s@.subrange(lo as int, k as int + 1));
        }
        k = k + 1;
    }
    out
}

fn contains_word_exec(t: &Vec<char>, w: &Vec<char>) -> (r: bool)
    requires
        w@.len() >= 1,
    ensures
        r == contains_word(t@, w@),
{
    let wl = w.len();
    let tl = t.len();
    if wl > tl {
        return false;
    }
    let mut k: usize = 0;
    while k <= tl - wl
        invariant
            1 <= wl <= tl,
            tl == t@.len(),
            wl == w@.len(),
            k <= tl - wl + 1,
            forall|k2: int| 0 <= k2 < k ==> !word_at(t@, w@, k2),
        decreases tl - wl + 1 - k,
    {
        let mut m: usize = 0;
        let mut eq = true;
        while m < wl
            invariant
                k + wl <= tl,
                wl == w@.len(),
                tl == t@.len(),
                m <= wl,
                eq <==> (forall|j: int| 0 <= j < m ==> t@[k + j] == w@[j]),
            decreases wl - m,
        {
            if t[k + m] != w[m] {
                eq = false;
            }
            m = m + 1;
        }
        let left_ok = k == 0 || !crate::text::exec_is_ident_char(t[k - 1]);
        let right_ok = k + wl == tl || !crate::text::exec_is_ident_char(t[k + wl]);
        if eq && left_ok && right_ok {
            proof {
                assert(t@.subrange(k as int, k as int + wl as int) =~= w@);
                assert(word_at(t@, w@, k as int));
            }
            return true;
        }
        proof {
            assert(!word_at(t@, w@, k as int)) by {
                if !eq {
                    let j = choose|j: int| 0 <= j < wl && t@[k + j] != w@[j];
                    assert(t@.subrange(k as int, k as int + wl as int)[j] == t@[k + j]);
                }
            }
        }
        k = k + 1;
    }
    proof {
        assert(!contains_word(t@, w@)) by {
            if contains_word(t@, w@) {
                let k2 = choose|k2: int| word_at(t@, w@, k2);
                assert(k2 + wl <= tl);
                assert(!word_at(t@, w@, k2));
            }
        }
    }
    false
}

/// Executable counterpart of [`AttrInfo`].
struct EAttrInfo {
    marker: bool,
    alias: Option<String>,
    skip: bool,
    end: usize,
}

fn attr_alias_exec(inner: &Vec<char>) -> (r: Option<String>)
    ensures
        match r {
            Some(a) => attr_alias(inner@) == Some(a@),
            None => attr_alias(inner@) is None,
        },
{
    let k = skip_ws_exec(inner, 0);
    let e = ident_end_exec(inner, k);
    let idv = subvec(inner, k, e);
    if crate::resolve::chars_eq_lit(&idv, "alias") {
        let p = skip_ws_exec(inner, e);
        if p < inner.len() && inner[p] == '(' {
            let pe = paren_end_exec(inner, p + 1, 1);
            if pe - p >= 2 {
                let arg = subvec(inner, p + 1, pe - 1);
                Some(crate::text::chars_to_string(&arg))
            } else {
                let empty = String::new();
                proof {
                    assert(empty@ =~= Seq::<char>::empty());
                }
                Some(empty)
            }
        } else {
            None
        }
    } else {
        None
    }
}

fn attr_is_skip_exec(inner: &Vec<char>) -> (r: bool)
    ensures
        r == attr_is_skip(inner@),
{
    let k = skip_ws_exec(inner, 0);
    let e = ident_end_exec(inner, k);
    let idv = subvec(inner, k, e);
    crate::resolve::chars_eq_lit(&idv, "schema_skip")
}

fn parse_attr_exec(s: &Vec<char>, i: usize) -> (r: Option<(usize, usize, usize)>)
    requires
        i < s@.len(),
    ensures
        match r {
            Some(t) => parse_attr(s@, i as int) == Some((t.0 as int, t.1 as int, t.2 as int))
                && i + 2 <= t.0 <= t.2 <= s@.len() && t.1 + 1 == t.2,
            None => parse_attr(s@, i as int) is None,
        },
{
    let n = s.len();
    let j = skip_ws_exec(s, i + 1);
    let j2 = if j < s.len() && s[j] == '!' {
        skip_ws_exec(s, j + 1)
    } else {
        j
    };
    if j2 < s.len() && s[j2] == '[' {
        let e = attr_end_exec(s, j2 + 1, 1);
        Some((j2 + 1, e - 1, e))
    } else {
        None
    }
}

fn attrs_scan_exec(s: &Vec<char>, i: usize, marker_word: &Vec<char>) -> (r: EAttrInfo)
    requires
        i <= s@.len(),
        marker_word@ == "BorshSchema"@,
    ensures
        r.end == attrs_scan(s@, i as int).end,
        i <= r.end <= s@.len(),
        r.marker == attrs_scan(s@, i as int).marker,
        r.skip == attrs_scan(s@, i as int).skip,
        match r.alias {
            Some(a) => attrs_scan(s@, i as int).alias == Some(a@),
            None => attrs_scan(s@, i as int).alias is None,
        },
    decreases s@.len() - i,
{
    proof {
        reveal_strlit("BorshSchema");
    }
    let j = skip_ws_exec(s, i);
    if j < s.len() && s[j] == '#' {
        match parse_attr_exec(s, j) {
            Some((lo, hi, e)) => {
                let inner = if hi >= lo {
                    subvec(s, lo, hi)
                } else {
                    Vec::new()
                };
                proof {
                    if hi < lo {
                        assert(inner@ =~= Seq::<char>::empty());
                    }
                }
                let rest = attrs_scan_exec(s, e, marker_word);
                let has_word = contains_word_exec(&inner, marker_word);
                let this_alias = attr_alias_exec(&inner);
                let this_skip = attr_is_skip_exec(&inner);
                let alias = match this_alias {
                    Some(a) => Some(a),
                    None => rest.alias,
                };
                EAttrInfo {
                    marker: rest.marker || has_word,
                    alias,
                    skip: rest.skip || this_skip,
                    end: rest.end,
                }
            },
            None => EAttrInfo { marker: false, alias: None, skip: false, end: j },
        }
    } else {
        EAttrInfo { marker: false, alias: None, skip: false, end: j }
    }
}

fn skip_pub_exec(s: &Vec<char>, i: usize) -> (r: usize)
    requires
        i <= s@.len(),
    ensures
        r == skip_pub(s@, i as int),
        i <= r <= s@.len(),
{
    let j = skip_ws_exec(s, i);
    let e = ident_end_exec(s, j);
    let idv = subvec(s, j, e);
    if crate::resolve::chars_eq_lit(&idv, "pub") {
        let p = skip_ws_exec(s, e);
        if p < s.len() && s[p] == '(' {
            let q = paren_end_exec(s, p + 1, 1);
            skip_ws_exec(s, q)
        } else {
            p
        }
    } else {
        j
    }
}

fn parse_named_fields_exec(s: &Vec<char>, i: usize, marker_word: &Vec<char>) -> (r: Option<
    (Vec<RawField>, usize),
>)
    requires
        i <= s@.len(),
        marker_word@ == "BorshSchema"@,
    ensures
        match r {
            Some(p) => i < p.1 <= s@.len() && parse_named_fields(s@, i as int) == Some(
                (crate::layout::raw_fields_view(p.0@), p.1 as int),
            ),
            None => parse_named_fields(s@, i as int) is None,
        },
    decreases s@.len() - i,
{
    let j = skip_ws_exec(s, i);
    if j == s.len() {
        return None;
    }
    if s[j] == '}' {
        let v: Vec<RawField> = Vec::new();
        proof {
            assert(crate::layout::raw_fields_view(v@) =~= Seq::<RawFieldModel>::empty());
        }
        return Some((v, j + 1));
    }
    let info = attrs_scan_exec(s, j, marker_word);
    let k = skip_pub_exec(s, info.end);
    let ke = ident_end_exec(s, k);
    if !(k < s.len() && crate::text::exec_is_ident_start(s[k]) && ke > k) {
        return None;
    }
    let name_chars = subvec(s, k, ke);
    let name = crate::text::chars_to_string(&name_chars);
    let c = skip_ws_exec(s, ke);
    if !(c < s.len() && s[c] == ':') {
        return None;
    }
    let te = ty_end_exec(s, c + 1, '}');
    let ty_chars = subvec(s, c + 1, te);
    let ty = crate::text::chars_to_string(&ty_chars);
    let fld = RawField { name: Some(name), ty, alias: info.alias, skip: info.skip };
    let ghost fm = fld@;
    if te < s.len() && s[te] == ',' {
        match parse_named_fields_exec(s, te + 1, marker_word) {
            Some((rest, e)) => {
                let ghost rest_view = crate::layout::raw_fields_view(rest@);
                let mut v: Vec<RawField> = Vec::new();
                v.push(fld);
                let mut rest = rest;
                v.append(&mut rest);
                proof {
                    assert(crate::layout::raw_fields_view(v@) =~= seq![fm] + rest_view);
                }
                Some((v, e))
            },
            None => None,
        }
    } else if te < s.len() && s[te] == '}' {
        let mut v: Vec<RawField> = Vec::new();
        v.push(fld);
        proof {
            assert(crate::layout::raw_fields_view(v@) =~= seq![fm]);
        }
        Some((v, te + 1))
    } else {
        None
    }
}

fn parse_tuple_fields_exec(s: &Vec<char>, i: usize, marker_word: &Vec<char>) -> (r: Option<
    (Vec<RawField>, usize),
>)
    requires
        i <= s@.len(),
        marker_word@ == "BorshSchema"@,
    ensures
        match r {
            Some(p) => i < p.1 <= s@.len() && parse_tuple_fields(s@, i as int) == Some(
                (crate::layout::raw_fields_view(p.0@), p.1 as int),
            ),
            None => parse_tuple_fields(s@, i as int) is None,
        },
    decreases s@.len() - i,
{
    let j = skip_ws_exec(s, i);
    if j == s.len() {
        return None;
    }
    if s[j] == ')' {
        let v: Vec<RawField> = Vec::new();
        proof {
            assert(crate::layout::raw_fields_view(v@) =~= Seq::<RawFieldModel>::empty());
        }
        return Some((v, j + 1));
    }
    let info = attrs_scan_exec(s, j, marker_word);
    let k = skip_pub_exec(s, info.end);
    let te = ty_end_exec(s, k, ')');
    let ty_chars = subvec(s, k, te);
    let ty = crate::text::chars_to_string(&ty_chars);
    let fld = RawField { name: None, ty, alias: info.alias, skip: info.skip };
    let ghost fm = fld@;
    if te < s.len() && s[te] == ',' {
        match parse_tuple_fields_exec(s, te + 1, marker_word) {
            Some((rest, e)) => {
                let ghost rest_view = crate::layout::raw_fields_view(rest@);
                let mut v: Vec<RawField> = Vec::new();
                v.push(fld);
                let mut rest = rest;
                v.append(&mut rest);
                proof {
                    assert(crate::layout::raw_fields_view(v@) =~= seq![fm] + rest_view);
                }
                Some((v, e))
            },
            None => None,
        }
    } else if te < s.len() && s[te] == ')' {
        let mut v: Vec<RawField> = Vec::new();
        v.push(fld);
        proof {
            assert(crate::layout::raw_fields_view(v@) =~= seq![fm]);
        }
        Some((v, te + 1))
    } else {
        None
    }
}

fn parse_variants_exec(s: &Vec<char>, i: usize, marker_word: &Vec<char>) -> (r: Option<
    (Vec<RawVariant>, usize),
>)
    requires
        i <= s@.len(),
        marker_word@ == "BorshSchema"@,
    ensures
        match r {
            Some(p) => i < p.1 <= s@.len() && parse_variants(s@, i as int) == Some(
                (variants_view(p.0@), p.1 as int),
            ),
            None => parse_variants(s@, i as int) is None,
        },
    decreases s@.len() - i,
{
    let j = skip_ws_exec(s, i);
    if j == s.len() {
        return None;
    }
    if s[j] == '}' {
        let v: Vec<RawVariant> = Vec::new();
        proof {
            assert(variants_view(v@) =~= Seq::<RawVariantModel>::empty());
        }
        return Some((v, j + 1));
    }
    let info = attrs_scan_exec(s, j, marker_word);
    let k = info.end;
    let ke = ident_end_exec(s, k);
    if !(k < s.len() && crate::text::exec_is_ident_start(s[k]) && ke > k) {
        return None;
    }
    let name_chars = subvec(s, k, ke);
    let name = crate::text::chars_to_string(&name_chars);
    let c = skip_ws_exec(s, ke);
    let body: Option<(Vec<RawField>, usize)> = if c < s.len() && s[c] == '(' {
        parse_tuple_fields_exec(s, c + 1, marker_word)
    } else if c < s.len() && s[c] == '{' {
        parse_named_fields_exec(s, c + 1, marker_word)
    } else {
        let v: Vec<RawField> = Vec::new();
        proof {
            assert(crate::layout::raw_fields_view(v@) =~= Seq::<RawFieldModel>::empty());
        }
        Some((v, c))
    };
    match body {
        Some((flds, e)) => {
            let vr = RawVariant { name, fields: flds };
            let ghost vm = vr@;
            let after = skip_ws_exec(s, e);
            if after < s.len() && s[after] == ',' {
                match parse_variants_exec(s, after + 1, marker_word) {
                    Some((rest, e2)) => {
                        let ghost rest_view = variants_view(rest@);
                        let mut v: Vec<RawVariant> = Vec::new();
                        v.push(vr);
                        let mut rest = rest;
                        v.append(&mut rest);
                        proof {
                            assert(variants_view(v@) =~= seq![vm] + rest_view);
                        }
                        Some((v, e2))
                    },
                    None => None,
                }
            } else if after < s.len() && s[after] == '}' {
                let mut v: Vec<RawVariant> = Vec::new();
                v.push(vr);
                proof {
                    assert(variants_view(v@) =~= seq![vm]);
                }
                Some((v, after + 1))
            } else {
                None
            }
        },
        None => None,
    }
}

fn parse_decl_exec(s: &Vec<char>, i: usize, marker_word: &Vec<char>) -> (r: Option<
    (RawDecl, usize),
>)
    requires
        i <= s@.len(),
        marker_word@ == "BorshSchema"@,
    ensures
        match r {
            Some(p) => i < p.1 <= s@.len() && parse_decl(s@, i as int) == Some(
                (p.0@, p.1 as int),
            ),
            None => parse_decl(s@, i as int) is None,
        },
{
    let k = skip_pub_exec(s, i);
    let ke = ident_end_exec(s, k);
    if !(ke > k) {
        return None;
    }
    let kw = subvec(s, k, ke);
    let n = skip_ws_exec(s, ke);
    let ne = ident_end_exec(s, n);
    if !(n < s.len() && crate::text::exec_is_ident_start(s[n]) && ne > n) {
        return None;
    }
    let name_chars = subvec(s, n, ne);
    let name = crate::text::chars_to_string(&name_chars);
    let b = skip_ws_exec(s, ne);
    if crate::resolve::chars_eq_lit(&kw, "struct") {
        if b < s.len() && s[b] == '{' {
            match parse_named_fields_exec(s, b + 1, marker_word) {
                Some((flds, e)) => {
                    let d = RawDecl { name, is_enum: false, fields: flds, variants: Vec::new() };
                    proof {
                        assert(variants_view(d.variants@) =~= Seq::<RawVariantModel>::empty());
                    }
                    Some((d, e))
                },
                None => None,
            }
        } else if b < s.len() && s[b] == '(' {
            match parse_tuple_fields_exec(s, b + 1, marker_word) {
                Some((flds, e)) => {
                    let t = skip_ws_exec(s, e);
                    let end = if t < s.len() && s[t] == ';' {
                        t + 1
                    } else {
                        e
                    };
                    let d = RawDecl { name, is_enum: false, fields: flds, variants: Vec::new() };
                    proof {
                        assert(variants_view(d.variants@) =~= Seq::<RawVariantModel>::empty());
                    }
                    Some((d, end))
                },
                None => None,
            }
        } else if b < s.len() && s[b] == ';' {
            let d = RawDecl { name, is_enum: false, fields: Vec::new(), variants: Vec::new() };
            proof {
                assert(variants_view(d.variants@) =~= Seq::<RawVariantModel>::empty());
                assert(crate::layout::raw_fields_view(d.fields@) =~= Seq::<
                    RawFieldModel,
                >::empty());
            }
            Some((d, b + 1))
        } else {
            None
        }
    } else if crate::resolve::chars_eq_lit(&kw, "enum") {
        if b < s.len() && s[b] == '{' {
            match parse_variants_exec(s, b + 1, marker_word) {
                Some((vars, e)) => {
                    let d = RawDecl { name, is_enum: true, fields: Vec::new(), variants: vars };
                    proof {
                        assert(crate::layout::raw_fields_view(d.fields@) =~= Seq::<
                            RawFieldModel,
                        >::empty());
                    }
                    Some((d, e))
                },
                None => None,
            }
        } else {
            None
        }
    } else {
        None
    }
}

/// Extracts the marked declarations of one source file, in declaration order.
/// `None` is a marked declaration that does not fit the scanner's grammar.
#[verifier::rlimit(100)]
pub fn scan_file(content: &str) -> (r: Option<Vec<RawDecl>>)
    ensures
        match r {
            Some(v) => scan_file_spec(content@) == Some(decls_view(v@)),
            None => scan_file_spec(content@) is None,
        },
{
    let chars = crate::text::str_to_chars(content);
    let stripped = strip(&chars);
    let marker_word = crate::text::str_to_chars("BorshSchema");
    let ghost sv = stripped@;
    let mut out: Vec<RawDecl> = Vec::new();
    let mut i: usize = 0;
    proof {
        if scan_from(sv, 0) is Some {
            assert(decls_view(out@) + scan_from(sv, 0).unwrap() =~= scan_from(sv, 0).unwrap());
        }
    }
    while i < stripped.len()
        invariant
            i <= sv.len(),
            sv == stripped@,
            sv == strip_spec(content@),
            marker_word@ == "BorshSchema"@,
            scan_from(sv, 0) == (match scan_from(sv, i as int) {
                Some(rest) => Some(decls_view(out@) + rest),
                None => None::<Seq<RawDeclModel>>,
            }),
        decreases sv.len() - i,
    {
        let ghost prev = decls_view(out@);
        if stripped[i] == '#' {
            let info = attrs_scan_exec(&stripped, i, &marker_word);
            if info.marker {
                match parse_decl_exec(&stripped, info.end, &marker_word) {
                    Some((d, e)) => {
                        let ghost dm = d@;
                        out.push(d);
                        proof {
                            assert(decls_view(out@) =~= prev.push(dm));
                            assert(scan_from(sv, i as int) == (match scan_from(sv, e as int) {
                                Some(rest) => Some(seq![dm] + rest),
                                None => None::<Seq<RawDeclModel>>,
                            }));
                            if scan_from(sv, e as int) is Some {
                                let rest = scan_from(sv, e as int).unwrap();
                                assert(prev + (seq![dm] + rest) =~= prev.push(dm) + rest);
                            }
                        }
                        i = e;
                    },
                    None => {
                        proof {
                            assert(scan_from(sv, i as int) is None);
                            assert(scan_from(sv, 0) is None);
                        }
                        return None;
                    },
                }
            } else {
                if info.end > i {
                    i = info.end;
                } else {
                    i = i + 1;
                }
            }
        } else {
            i = i + 1;
        }
    }
    proof {
        assert(scan_from(sv, i as int) == Some(Seq::<RawDeclModel>::empty()));
        assert(decls_view(out@) + Seq::<RawDeclModel>::empty() =~= decls_view(out@));
    }
    Some(out)
}

} // verus!