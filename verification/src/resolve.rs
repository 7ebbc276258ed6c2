//! The type resolver: parses a textual type expression, exactly as written
//! after a field's type annotation, into a canonical [`BorshType`].
//!
//! The supported grammar, applied after tokenization (identifiers, numbers,
//! and the punctuation `[ ] < > ;`, with whitespace ignored):
//!
//! - primitive scalar identifiers map to the fixed-width variants;
//! - `Pubkey` (the 32-byte public-key type) maps to `FixedBytes(32)`;
//! - `Option<T>` and `Vec<T>` map to the corresponding compound variant;
//! - `[T; N]` maps to `FixedArray(resolve(T), N)`;
//! - any other identifier is assumed to name another generated layout and
//!   becomes `Custom(identifier)`;
//! - anything else (unbalanced delimiters, an empty expression, a
//!   non-identifier token, an unsupported generic) is an unsupported-type
//!   error.

use vstd::prelude::*;

use crate::text::{
    chars_to_string,
    exec_is_digit,
    exec_is_ident_char,
    exec_is_ident_start,
    exec_is_ws,
    is_digit,
    is_ident_char,
    is_ident_start,
    is_ws,
    str_to_chars,
};
use crate::ty::{BorshType, TyModel};

verus! {

/// A token of a type expression.
pub enum Tok {
    LBrack,
    RBrack,
    Lt,
    Gt,
    Semi,
    Num(usize),
    Ident(Seq<char>),
}

/// Executable token, viewed as a [`Tok`].
pub enum ETok {
    LBrack,
    RBrack,
    Lt,
    Gt,
    Semi,
    Num(usize),
    Ident(Vec<char>),
}

impl View for ETok {
    type V = Tok;

    open spec fn view(&self) -> Tok {
        match self {
            ETok::LBrack => Tok::LBrack,
            ETok::RBrack => Tok::RBrack,
            ETok::Lt => Tok::Lt,
            ETok::Gt => Tok::Gt,
            ETok::Semi => Tok::Semi,
            ETok::Num(n) => Tok::Num(*n),
            ETok::Ident(v) => Tok::Ident(v@),
        }
    }
}

pub open spec fn toks_view(v: Seq<ETok>) -> Seq<Tok> {
    v.map_values(|e: ETok| e@)
}

/// Length of the longest digit run at the front of `s`.
pub open spec fn digit_run_len(s: Seq<char>) -> nat
    decreases s.len(),
{
    if s.len() > 0 && is_digit(s[0]) {
        1 + digit_run_len(s.skip(1))
    } else {
        0
    }
}

/// Length of the longest identifier-character run at the front of `s`.
pub open spec fn ident_run_len(s: Seq<char>) -> nat
    decreases s.len(),
{
    if s.len() > 0 && is_ident_char(s[0]) {
        1 + ident_run_len(s.skip(1))
    } else {
        0
    }
}

/// The value of a sequence of decimal digit characters.
pub open spec fn val_of_digits(d: Seq<char>) -> nat
    decreases d.len(),
{
    if d.len() == 0 {
        0
    } else {
        (val_of_digits(d.drop_last()) * 10 + (d.last() as u32 - 48)) as nat
    }
}

pub proof fn lemma_digit_run_len_le(s: Seq<char>)
    ensures
        digit_run_len(s) <= s.len(),
    decreases s.len(),
{
    if s.len() > 0 && is_digit(s[0]) {
        lemma_digit_run_len_le(s.skip(1));
    }
}

pub proof fn lemma_ident_run_len_le(s: Seq<char>)
    ensures
        ident_run_len(s) <= s.len(),
    decreases s.len(),
{
    if s.len() > 0 && is_ident_char(s[0]) {
        lemma_ident_run_len_le(s.skip(1));
    }
}

/// A digit run is exactly the position of the first non-digit.
proof fn lemma_digit_run_char(t: Seq<char>, k: int)
    requires
        0 <= k <= t.len(),
        forall|j: int| 0 <= j < k ==> is_digit(t[j]),
        k == t.len() || !is_digit(t[k]),
    ensures
        digit_run_len(t) == k,
    decreases k,
{
    if k == 0 {
    } else {
        assert(is_digit(t[0]));
        assert(forall|j: int| 0 <= j < k - 1 ==> is_digit(t.skip(1)[j]));
        if k < t.len() {
            assert(t.skip(1)[k - 1] == t[k]);
        }
        lemma_digit_run_char(t.skip(1), k - 1);
    }
}

/// An identifier run is exactly the position of the first non-identifier
/// character.
proof fn lemma_ident_run_char(t: Seq<char>, k: int)
    requires
        0 <= k <= t.len(),
        forall|j: int| 0 <= j < k ==> is_ident_char(t[j]),
        k == t.len() || !is_ident_char(t[k]),
    ensures
        ident_run_len(t) == k,
    decreases k,
{
    if k == 0 {
    } else {
        assert(is_ident_char(t[0]));
        assert(forall|j: int| 0 <= j < k - 1 ==> is_ident_char(t.skip(1)[j]));
        if k < t.len() {
            assert(t.skip(1)[k - 1] == t[k]);
        }
        lemma_ident_run_char(t.skip(1), k - 1);
    }
}

pub open spec fn cons_tok(t: Tok, rest: Option<Seq<Tok>>) -> Option<Seq<Tok>> {
    match rest {
        Some(r) => Some(seq![t] + r),
        None => None,
    }
}

/// Tokenization of a type expression. `None` is a malformed expression: a
/// character that belongs to no token, or a numeric literal too large for
/// `usize`.
pub open spec fn tokenize(s: Seq<char>) -> Option<Seq<Tok>>
    decreases s.len(),
    when true
    via tokenize_decreases
{
    if s.len() == 0 {
        Some(Seq::empty())
    } else if is_ws(s[0]) {
        tokenize(s.skip(1))
    } else if s[0] == '[' {
        cons_tok(Tok::LBrack, tokenize(s.skip(1)))
    } else if s[0] == ']' {
        cons_tok(Tok::RBrack, tokenize(s.skip(1)))
    } else if s[0] == '<' {
        cons_tok(Tok::Lt, tokenize(s.skip(1)))
    } else if s[0] == '>' {
        cons_tok(Tok::Gt, tokenize(s.skip(1)))
    } else if s[0] == ';' {
        cons_tok(Tok::Semi, tokenize(s.skip(1)))
    } else if is_digit(s[0]) {
        let j = digit_run_len(s) as int;
        let v = val_of_digits(s.take(j));
        if v > usize::MAX {
            None
        } else {
            cons_tok(Tok::Num(v as usize), tokenize(s.skip(j)))
        }
    } else if is_ident_start(s[0]) {
        let j = ident_run_len(s) as int;
        cons_tok(Tok::Ident(s.take(j)), tokenize(s.skip(j)))
    } else {
        None
    }
}

#[via_fn]
proof fn tokenize_decreases(s: Seq<char>) {
    lemma_digit_run_len_le(s);
    lemma_ident_run_len_le(s);
}

/// The canonical type of a primitive identifier, if it is one.
pub open spec fn keyword_type(name: Seq<char>) -> Option<TyModel> {
    if name == "bool"@ {
        Some(TyModel::Bool)
    } else if name == "u8"@ {
        Some(TyModel::U8)
    } else if name == "u16"@ {
        Some(TyModel::U16)
    } else if name == "u32"@ {
        Some(TyModel::U32)
    } else if name == "u64"@ {
        Some(TyModel::U64)
    } else if name == "u128"@ {
        Some(TyModel::U128)
    } else if name == "i8"@ {
        Some(TyModel::I8)
    } else if name == "i16"@ {
        Some(TyModel::I16)
    } else if name == "i32"@ {
        Some(TyModel::I32)
    } else if name == "i64"@ {
        Some(TyModel::I64)
    } else if name == "i128"@ {
        Some(TyModel::I128)
    } else if name == "String"@ {
        Some(TyModel::String)
    } else if name == "Pubkey"@ {
        Some(TyModel::FixedBytes(32))
    } else {
        None
    }
}

/// Parses one type from the front of a token sequence, returning the type and
/// the remaining tokens.
pub open spec fn parse_ty(t: Seq<Tok>) -> Option<(TyModel, Seq<Tok>)>
    decreases t.len(),
{
    if t.len() == 0 {
        None
    } else {
        match t[0] {
            Tok::LBrack => match parse_ty(t.skip(1)) {
                Some(pair) => {
                    let rest = pair.1;
                    if rest.len() >= 3 && (rest[0] is Semi) && (rest[1] is Num) && (rest[2]
                        is RBrack) {
                        Some(
                            (
                                TyModel::FixedArray(Box::new(pair.0), rest[1]->Num_0),
                                rest.skip(3),
                            ),
                        )
                    } else {
                        None
                    }
                },
                None => None,
            },
            Tok::Ident(name) => {
                if t.len() >= 2 && (t[1] is Lt) {
                    if name == "Option"@ || name == "Vec"@ {
                        match parse_ty(t.skip(2)) {
                            Some(pair) => {
                                let rest = pair.1;
                                if rest.len() >= 1 && (rest[0] is Gt) {
                                    if name == "Option"@ {
                                        Some(
                                            (TyModel::Option(Box::new(pair.0)), rest.skip(1)),
                                        )
                                    } else {
                                        Some((TyModel::Vec(Box::new(pair.0)), rest.skip(1)))
                                    }
                                } else {
                                    None
                                }
                            },
                            None => None,
                        }
                    } else {
                        None
                    }
                } else {
                    match keyword_type(name) {
                        Some(k) => Some((k, t.skip(1))),
                        None => Some((TyModel::Custom(name), t.skip(1))),
                    }
                }
            },
            _ => None,
        }
    }
}

/// The canonical type denoted by a type expression, or `None` when the
/// expression is malformed.
pub open spec fn resolve_spec(s: Seq<char>) -> Option<TyModel> {
    match tokenize(s) {
        Some(toks) => match parse_ty(toks) {
            Some(pair) => if pair.1.len() == 0 {
                Some(pair.0)
            } else {
                None
            },
            None => None,
        },
        None => None,
    }
}

pub open spec fn cons_toks(pre: Seq<Tok>, rest: Option<Seq<Tok>>) -> Option<Seq<Tok>> {
    match rest {
        Some(r) => Some(pre + r),
        None => None,
    }
}

/// Shifts one token from the tail of the tokenization onto the accumulated
/// prefix.
proof fn lemma_cons_shift(pre: Seq<Tok>, t: Tok, rest: Option<Seq<Tok>>)
    ensures
        cons_toks(pre, cons_tok(t, rest)) == cons_toks(pre.push(t), rest),
{
    match rest {
        Some(r) => {
            assert(pre + (seq![t] + r) =~= pre.push(t) + r);
        },
        None => {},
    }
}

/// Compares a character vector against a string literal.
pub fn chars_eq_lit(name: &Vec<char>, pat: &str) -> (r: bool)
    ensures
        r <==> name@ == pat@,
{
    let pl = pat.unicode_len();
    if name.len() != pl {
        return false;
    }
    let mut i: usize = 0;
    while i < pl
        invariant
            i <= pl,
            pl == pat@.len(),
            name@.len() == pl,
            forall|j: int| 0 <= j < i ==> name@[j] == pat@[j],
        decreases pl - i,
    {
        if name[i] != pat.get_char(i) {
            return false;
        }
        i = i + 1;
    }
    proof {
        assert(name@ =~= pat@);
    }
    true
}

/// Tokenizes a type expression; `None` is a malformed expression.
fn tokenize_exec(s: &Vec<char>) -> (r: Option<Vec<ETok>>)
    ensures
        match r {
            Some(v) => tokenize(s@) == Some(toks_view(v@)),
            None => tokenize(s@) is None,
        },
{
    let mut out: Vec<ETok> = Vec::new();
    let mut i: usize = 0;
    proof {
        assert(s@.skip(0) =~= s@);
        if tokenize(s@) is Some {
            assert(toks_view(out@) + tokenize(s@).unwrap() =~= tokenize(s@).unwrap());
        }
    }
    while i < s.len()
        invariant
            i <= s.len(),
            tokenize(s@) == cons_toks(toks_view(out@), tokenize(s@.skip(i as int))),
        decreases s.len() - i,
    {
        let ghost prev = toks_view(out@);
        let ghost tail = s@.skip(i as int);
        proof {
            assert(tail[0] == s@[i as int]);
            assert(tail.skip(1) =~= s@.skip(i as int + 1));
        }
        let c = s[i];
        if exec_is_ws(c) {
            i = i + 1;
        } else if c == '[' || c == ']' || c == '<' || c == '>' || c == ';' {
            let tok = if c == '[' {
                ETok::LBrack
            } else if c == ']' {
                ETok::RBrack
            } else if c == '<' {
                ETok::Lt
            } else if c == '>' {
                ETok::Gt
            } else {
                ETok::Semi
            };
            let ghost tv = tok@;
            out.push(tok);
            i = i + 1;
            proof {
                assert(toks_view(out@) =~= prev.push(tv));
                assert(tokenize(tail) == cons_tok(tv, tokenize(s@.skip(i as int))));
                lemma_cons_shift(prev, tv, tokenize(s@.skip(i as int)));
            }
        } else if exec_is_digit(c) {
            let start = i;
            let mut val: usize = 0;
            let mut overflow: bool = false;
            while i < s.len() && exec_is_digit(s[i])
                invariant
                    start <= i <= s.len(),
                    start < s.len(),
                    is_digit(s@[start as int]),
                    forall|j: int| start <= j < i ==> is_digit(s@[j]),
                    !overflow ==> val == val_of_digits(s@.subrange(start as int, i as int)),
                    overflow ==> val_of_digits(s@.subrange(start as int, i as int))
                        > usize::MAX,
                decreases s.len() - i,
            {
                let ghost pre_digits = s@.subrange(start as int, i as int);
                let d: usize = (s[i] as u32 - 48) as usize;
                proof {
                    let post_digits = s@.subrange(start as int, i as int + 1);
                    assert(post_digits.drop_last() =~= pre_digits);
                    assert(val_of_digits(post_digits) == (val_of_digits(pre_digits) * 10 + (
                    s@[i as int] as u32 - 48)) as nat);
                }
                if overflow || val > (usize::MAX - d) / 10 {
                    proof {
                        if !overflow {
                            assert(val * 10 + d > usize::MAX) by (nonlinear_arith)
                                requires
                                    val > (usize::MAX - d) / 10,
                                    0 <= d <= usize::MAX,
                            {
                            }
                        } else {
                            assert(val_of_digits(pre_digits) * 10 >= val_of_digits(
                                pre_digits,
                            ));
                        }
                        assert(val_of_digits(s@.subrange(start as int, i as int + 1))
                            > usize::MAX);
                    }
                    overflow = true;
                } else {
                    proof {
                        assert(val * 10 + d <= usize::MAX) by (nonlinear_arith)
                            requires
                                val <= (usize::MAX - d) / 10,
                                0 <= d <= usize::MAX,
                        {
                        }
                    }
                    val = val * 10 + d;
                }
                i = i + 1;
            }
            proof {
                let t = s@.skip(start as int);
                let k = i - start;
                assert(forall|j: int| 0 <= j < k ==> is_digit(t[j]));
                if i < s.len() {
                    assert(t[k] == s@[i as int]);
                }
                lemma_digit_run_char(t, k);
                assert(t.take(k) =~= s@.subrange(start as int, i as int));
                assert(t.skip(k) =~= s@.skip(i as int));
            }
            if overflow {
                proof {
                    assert(tokenize(tail) is None);
                }
                return None;
            }
            out.push(ETok::Num(val));
            proof {
                assert(toks_view(out@) =~= prev.push(Tok::Num(val)));
                assert(tokenize(tail) == cons_tok(Tok::Num(val), tokenize(s@.skip(i as int))));
                lemma_cons_shift(prev, Tok::Num(val), tokenize(s@.skip(i as int)));
            }
        } else if exec_is_ident_start(c) {
            let start = i;
            let mut name: Vec<char> = Vec::new();
            while i < s.len() && exec_is_ident_char(s[i])
                invariant
                    start <= i <= s.len(),
                    start < s.len(),
                    is_ident_start(s@[start as int]),
                    forall|j: int| start <= j < i ==> is_ident_char(s@[j]),
                    name@ == s@.subrange(start as int, i as int),
                decreases s.len() - i,
            {
                name.push(s[i]);
                proof {
                    assert(name@ =~= s@.subrange(start as int, i as int + 1));
                }
                i = i + 1;
            }
            proof {
                let t = s@.skip(start as int);
                let k = i - start;
                assert(forall|j: int| 0 <= j < k ==> is_ident_char(t[j]));
                if i < s.len() {
                    assert(t[k] == s@[i as int]);
                }
                assert(k > 0) by {
                    assert(is_ident_char(s@[start as int]));
                }
                lemma_ident_run_char(t, k);
                assert(t.take(k) =~= s@.subrange(start as int, i as int));
                assert(t.skip(k) =~= s@.skip(i as int));
            }
            let ghost name_seq = name@;
            out.push(ETok::Ident(name));
            proof {
                assert(toks_view(out@) =~= prev.push(Tok::Ident(name_seq)));
                assert(tokenize(tail) == cons_tok(
                    Tok::Ident(name_seq),
                    tokenize(s@.skip(i as int)),
                ));
                lemma_cons_shift(prev, Tok::Ident(name_seq), tokenize(s@.skip(i as int)));
            }
        } else {
            proof {
                assert(tokenize(tail) is None);
            }
            return None;
        }
    }
    proof {
        assert(s@.skip(i as int).len() == 0);
        assert(tokenize(s@.skip(i as int)) == Some(Seq::<Tok>::empty()));
        assert(toks_view(out@) + Seq::<Tok>::empty() =~= toks_view(out@));
    }
    Some(out)
}

/// Classifies an identifier as a primitive type.
fn keyword_type_exec(name: &Vec<char>) -> (r: Option<BorshType>)
    ensures
        match r {
            Some(t) => keyword_type(name@) == Some(t@),
            None => keyword_type(name@) is None,
        },
{
    if chars_eq_lit(name, "bool") {
        Some(BorshType::Bool)
    } else if chars_eq_lit(name, "u8") {
        Some(BorshType::U8)
    } else if chars_eq_lit(name, "u16") {
        Some(BorshType::U16)
    } else if chars_eq_lit(name, "u32") {
        Some(BorshType::U32)
    } else if chars_eq_lit(name, "u64") {
        Some(BorshType::U64)
    } else if chars_eq_lit(name, "u128") {
        Some(BorshType::U128)
    } else if chars_eq_lit(name, "i8") {
        Some(BorshType::I8)
    } else if chars_eq_lit(name, "i16") {
        Some(BorshType::I16)
    } else if chars_eq_lit(name, "i32") {
        Some(BorshType::I32)
    } else if chars_eq_lit(name, "i64") {
        Some(BorshType::I64)
    } else if chars_eq_lit(name, "i128") {
        Some(BorshType::I128)
    } else if chars_eq_lit(name, "String") {
        Some(BorshType::String)
    } else if chars_eq_lit(name, "Pubkey") {
        Some(BorshType::FixedBytes(32))
    } else {
        None
    }
}

/// Parses one type from position `i` of the token stream, returning the type
/// and the position just past it.
fn parse_ty_exec(toks: &Vec<ETok>, i: usize) -> (r: Option<(BorshType, usize)>)
    requires
        i <= toks@.len(),
    ensures
        match r {
            Some(pair) => i <= pair.1 <= toks@.len() && parse_ty(
                toks_view(toks@).skip(i as int),
            ) == Some((pair.0@, toks_view(toks@).skip(pair.1 as int))),
            None => parse_ty(toks_view(toks@).skip(i as int)) is None,
        },
    decreases toks@.len() - i,
{
    let ghost v = toks_view(toks@);
    let n = toks.len();
    if i == n {
        proof {
            assert(v.skip(i as int).len() == 0);
        }
        return None;
    }
    proof {
        assert(v.skip(i as int)[0] == v[i as int]);
        assert(v[i as int] == toks@[i as int]@);
    }
    match &toks[i] {
        ETok::LBrack => {
            proof {
                assert(v.skip(i as int).skip(1) =~= v.skip(i as int + 1));
            }
            match parse_ty_exec(toks, i + 1) {
                Some((inner, j)) => {
                    if n - j >= 3 {
                        proof {
                            assert(v.skip(j as int)[0] == v[j as int]);
                            assert(v.skip(j as int)[1] == v[j as int + 1]);
                            assert(v.skip(j as int)[2] == v[j as int + 2]);
                            assert(v[j as int] == toks@[j as int]@);
                            assert(v[j as int + 1] == toks@[j as int + 1]@);
                            assert(v[j as int + 2] == toks@[j as int + 2]@);
                        }
                        let semi_ok = matches!(&toks[j], ETok::Semi);
                        let rbrack_ok = matches!(&toks[j + 2], ETok::RBrack);
                        if semi_ok && rbrack_ok {
                            match &toks[j + 1] {
                                ETok::Num(len) => {
                                    proof {
                                        assert(v.skip(j as int).skip(3) =~= v.skip(
                                            j as int + 3,
                                        ));
                                    }
                                    Some((BorshType::FixedArray(Box::new(inner), *len), j + 3))
                                },
                                _ => None,
                            }
                        } else {
                            None
                        }
                    } else {
                        None
                    }
                },
                None => None,
            }
        },
        ETok::Ident(name) => {
            proof {
                if i + 1 < n {
                    assert(v.skip(i as int)[1] == v[i as int + 1]);
                    assert(v[i as int + 1] == toks@[i as int + 1]@);
                }
            }
            let has_lt = i + 1 < n && matches!(&toks[i + 1], ETok::Lt);
            if has_lt {
                let is_opt = chars_eq_lit(name, "Option");
                let is_vec = chars_eq_lit(name, "Vec");
                if is_opt || is_vec {
                    proof {
                        assert(v.skip(i as int).skip(2) =~= v.skip(i as int + 2));
                    }
                    match parse_ty_exec(toks, i + 2) {
                        Some((inner, j)) => {
                            if j < n {
                                proof {
                                    assert(v.skip(j as int)[0] == v[j as int]);
                                    assert(v[j as int] == toks@[j as int]@);
                                }
                                let gt_ok = matches!(&toks[j], ETok::Gt);
                                if gt_ok {
                                    proof {
                                        assert(v.skip(j as int).skip(1) =~= v.skip(
                                            j as int + 1,
                                        ));
                                    }
                                    if is_opt {
                                        Some((BorshType::Option(Box::new(inner)), j + 1))
                                    } else {
                                        Some((BorshType::Vec(Box::new(inner)), j + 1))
                                    }
                                } else {
                                    None
                                }
                            } else {
                                proof {
                                    assert(v.skip(j as int).len() == 0);
                                }
                                None
                            }
                        },
                        None => None,
                    }
                } else {
                    None
                }
            } else {
                proof {
                    assert(v.skip(i as int).skip(1) =~= v.skip(i as int + 1));
                }
                match keyword_type_exec(name) {
                    Some(k) => Some((k, i + 1)),
                    None => {
                        let name_string = chars_to_string(name);
                        Some((BorshType::Custom(name_string), i + 1))
                    },
                }
            }
        },
        _ => None,
    }
}

/// The raw type expression that the resolver could not understand.
#[derive(Debug)]
pub struct TypeError {
    pub expr: String,
}

/// Resolves a textual type expression into its canonical type.
///
/// Returns `Ok` exactly when the expression matches the supported grammar
/// ([`resolve_spec`]); a malformed expression comes back as an
/// unsupported-type error carrying the raw expression text.
pub fn resolve(expr: &str) -> (r: Result<BorshType, TypeError>)
    ensures
        match r {
            Ok(t) => resolve_spec(expr@) == Some(t@),
            Err(e) => resolve_spec(expr@) is None && e.expr@ == expr@,
        },
{
    let chars = str_to_chars(expr);
    match tokenize_exec(&chars) {
        Some(toks) => {
            proof {
                assert(toks_view(toks@).skip(0) =~= toks_view(toks@));
            }
            match parse_ty_exec(&toks, 0) {
                Some((t, j)) => {
                    if j == toks.len() {
                        proof {
                            assert(toks_view(toks@).skip(j as int).len() == 0);
                        }
                        Ok(t)
                    } else {
                        proof {
                            assert(toks_view(toks@).skip(j as int).len() > 0);
                        }
                        Err(TypeError { expr: expr.to_owned() })
                    }
                },
                None => Err(TypeError { expr: expr.to_owned() }),
            }
        },
        None => Err(TypeError { expr: expr.to_owned() }),
    }
}

} // verus!
