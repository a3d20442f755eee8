//! Atoms of expressions: integer, character and string literals, variables,
//! and type names.
use crate::ast::{sexpr_v, stype_v, type_v, Expr, ExprV, Type, TypeV, SV};
use crate::lex::{
    at, at2, at3, char_at, chars_at2, chars_at3, ident, ident_at, is_ascii, is_digit, is_digit_char,
    keyword, keyword_at, lemma_ident, lemma_keyword, lemma_ws_end, skip_ws, sp, string_of, ws_end,
};
use crate::span::{Span, SrcId, Spanned};
use vstd::prelude::*;

verus! {

/// The integer types a literal can be given with a suffix.
#[derive(PartialEq, Eq, Structural, Clone, Copy)]
pub enum IntKind {
    I8,
    I16,
    I32,
    I64,
    U8,
    U16,
    U32,
    U64,
}

/// The suffix after the digits of an integer literal, tried in this order:
/// `i8`, `i16`, `i32`, `i64`, `u8`, `u16`, `u32`, `u64`.
pub open spec fn suffix(s: Seq<char>, j: int) -> Option<(IntKind, int)> {
    if at2(s, j, 'i', '8') {
        Some((IntKind::I8, j + 2))
    } else if at3(s, j, 'i', '1', '6') {
        Some((IntKind::I16, j + 3))
    } else if at3(s, j, 'i', '3', '2') {
        Some((IntKind::I32, j + 3))
    } else if at3(s, j, 'i', '6', '4') {
        Some((IntKind::I64, j + 3))
    } else if at2(s, j, 'u', '8') {
        Some((IntKind::U8, j + 2))
    } else if at3(s, j, 'u', '1', '6') {
        Some((IntKind::U16, j + 3))
    } else if at3(s, j, 'u', '3', '2') {
        Some((IntKind::U32, j + 3))
    } else if at3(s, j, 'u', '6', '4') {
        Some((IntKind::U64, j + 3))
    } else {
        None
    }
}

/// The largest value of each integer type.
pub open spec fn kind_max(k: IntKind) -> int {
    match k {
        IntKind::I8 => 127,
        IntKind::I16 => 32767,
        IntKind::I32 => 2147483647,
        IntKind::I64 => 9223372036854775807,
        IntKind::U8 => 255,
        IntKind::U16 => 65535,
        IntKind::U32 => 4294967295,
        IntKind::U64 => 18446744073709551615,
    }
}

/// The literal of type `k` with value `v`.
pub open spec fn int_lit(k: IntKind, v: int) -> ExprV {
    match k {
        IntKind::I8 => ExprV::I8(v as i8),
        IntKind::I16 => ExprV::I16(v as i16),
        IntKind::I32 => ExprV::I32(v as i32),
        IntKind::I64 => ExprV::I64(v as i64),
        IntKind::U8 => ExprV::U8(v as u8),
        IntKind::U16 => ExprV::U16(v as u16),
        IntKind::U32 => ExprV::U32(v as u32),
        IntKind::U64 => ExprV::U64(v as u64),
    }
}

pub open spec fn digit_value(c: char) -> int {
    (c as u32) - ('0' as u32)
}

/// The value of a sequence of decimal digits.
pub open spec fn dec_value(d: Seq<char>) -> int
    decreases d.len(),
{
    if d.len() == 0 {
        0
    } else {
        dec_value(d.drop_last()) * 10 + digit_value(d.last())
    }
}

/// The position after the digits that start at `i`.
pub open spec fn digits_end(s: Seq<char>, i: int) -> int
    decreases s.len() - i,
{
    if 0 <= i < s.len() && is_digit(s[i]) {
        digits_end(s, i + 1)
    } else {
        i
    }
}

/// The digits of a decimal integer: `0`, or a digit other than `0`
/// followed by digits.
pub open spec fn int_end(s: Seq<char>, a: int) -> Option<int> {
    if 0 <= a < s.len() && is_digit(s[a]) && s[a] != '0' {
        Some(digits_end(s, a + 1))
    } else if at(s, a, '0') {
        Some(a + 1)
    } else {
        None
    }
}

/// An integer literal: digits and an optional type suffix, with whitespace
/// around them. Without a suffix the literal is an `i32`. It is refused
/// when its value does not fit its type.
pub open spec fn integer(src: SrcId, s: Seq<char>, i: int) -> Option<(SV<ExprV>, int)> {
    let a = ws_end(s, i);
    match int_end(s, a) {
        None => None,
        Some(b) => {
            let (k, c) = match suffix(s, b) {
                Some((k, c)) => (k, c),
                None => (IntKind::I32, b),
            };
            let d = ws_end(s, c);
            let v = dec_value(s.subrange(a, b));
            if v <= kind_max(k) {
                Some((SV { value: int_lit(k, v), span: sp(src, i, d) }, d))
            } else {
                None
            }
        },
    }
}

/// A character literal: one ASCII character between `'`; its value is the
/// character's code, as an `i8`.
pub open spec fn character(src: SrcId, s: Seq<char>, i: int) -> Option<(SV<ExprV>, int)> {
    if at(s, i, '\'') && 0 <= i + 1 < s.len() && is_ascii(s[i + 1]) && at(s, i + 2, '\'') {
        Some((SV { value: ExprV::I8((s[i + 1] as u32) as i8), span: sp(src, i, i + 3) }, i + 3))
    } else {
        None
    }
}

/// The position after the ASCII characters other than `"` that start at `i`.
pub open spec fn str_body_end(s: Seq<char>, i: int) -> int
    decreases s.len() - i,
{
    if 0 <= i < s.len() && is_ascii(s[i]) && s[i] != '"' {
        str_body_end(s, i + 1)
    } else {
        i
    }
}

/// A string literal: ASCII characters other than `"` between `"`.
pub open spec fn string(src: SrcId, s: Seq<char>, i: int) -> Option<(SV<ExprV>, int)> {
    if at(s, i, '"') {
        let b = str_body_end(s, i + 1);
        if at(s, b, '"') {
            Some((SV { value: ExprV::Str(s.subrange(i + 1, b)), span: sp(src, i, b + 1) }, b + 1))
        } else {
            None
        }
    } else {
        None
    }
}

/// A variable: an identifier.
pub open spec fn variable(src: SrcId, s: Seq<char>, i: int) -> Option<(SV<ExprV>, int)> {
    match ident(s, i) {
        Some((n, j)) => Some((SV { value: ExprV::Variable(n), span: sp(src, i, j) }, j)),
        None => None,
    }
}

/// A primary expression: the first of an integer, a character, a string and
/// a variable that can be read, with whitespace around it.
pub open spec fn primary(src: SrcId, s: Seq<char>, i: int) -> Option<(SV<ExprV>, int)> {
    let a = ws_end(s, i);
    let atom = if integer(src, s, a) is Some {
        integer(src, s, a)
    } else if character(src, s, a) is Some {
        character(src, s, a)
    } else if string(src, s, a) is Some {
        string(src, s, a)
    } else {
        variable(src, s, a)
    };
    match atom {
        Some((e, b)) => Some((e, ws_end(s, b))),
        None => None,
    }
}

pub open spec fn kw_void() -> Seq<char> { seq!['v', 'o', 'i', 'd'] }
pub open spec fn kw_char() -> Seq<char> { seq!['c', 'h', 'a', 'r'] }
pub open spec fn kw_i8() -> Seq<char> { seq!['i', '8'] }
pub open spec fn kw_i16() -> Seq<char> { seq!['i', '1', '6'] }
pub open spec fn kw_i32() -> Seq<char> { seq!['i', '3', '2'] }
pub open spec fn kw_i64() -> Seq<char> { seq!['i', '6', '4'] }
pub open spec fn kw_u8() -> Seq<char> { seq!['u', '8'] }
pub open spec fn kw_u16() -> Seq<char> { seq!['u', '1', '6'] }
pub open spec fn kw_u32() -> Seq<char> { seq!['u', '3', '2'] }
pub open spec fn kw_u64() -> Seq<char> { seq!['u', '6', '4'] }

/// The builtin type a keyword names, tried in this order: `void`, `char`
/// (an `i8`), `i8`, `i16`, `i32`, `i64`, `u8`, `u16`, `u32`, `u64`.
pub open spec fn builtin_type(s: Seq<char>, i: int) -> Option<(TypeV, int)> {
    if let Some(j) = keyword(s, i, kw_void()) {
        Some((TypeV::Void, j))
    } else if let Some(j) = keyword(s, i, kw_char()) {
        Some((TypeV::I8, j))
    } else if let Some(j) = keyword(s, i, kw_i8()) {
        Some((TypeV::I8, j))
    } else if let Some(j) = keyword(s, i, kw_i16()) {
        Some((TypeV::I16, j))
    } else if let Some(j) = keyword(s, i, kw_i32()) {
        Some((TypeV::I32, j))
    } else if let Some(j) = keyword(s, i, kw_i64()) {
        Some((TypeV::I64, j))
    } else if let Some(j) = keyword(s, i, kw_u8()) {
        Some((TypeV::U8, j))
    } else if let Some(j) = keyword(s, i, kw_u16()) {
        Some((TypeV::U16, j))
    } else if let Some(j) = keyword(s, i, kw_u32()) {
        Some((TypeV::U32, j))
    } else if let Some(j) = keyword(s, i, kw_u64()) {
        Some((TypeV::U64, j))
    } else {
        None
    }
}

/// A type: a builtin type's keyword, else any identifier, which names a
/// user defined type.
pub open spec fn typeref(src: SrcId, s: Seq<char>, i: int) -> Option<(SV<TypeV>, int)> {
    match builtin_type(s, i) {
        Some((t, j)) => Some((SV { value: t, span: sp(src, i, j) }, j)),
        None => match ident(s, i) {
            Some((n, j)) => Some((SV { value: TypeV::User(n), span: sp(src, i, j) }, j)),
            None => None,
        },
    }
}

pub proof fn lemma_atoms(src: SrcId, s: Seq<char>, a: int)
    requires
        0 <= a <= s.len(),
    ensures
        integer(src, s, a) matches Some((e, b)) ==> a < b <= s.len() && e.span.src == src,
        character(src, s, a) matches Some((e, b)) ==> a < b <= s.len() && e.span.src == src,
        string(src, s, a) matches Some((e, b)) ==> a < b <= s.len() && e.span.src == src,
        variable(src, s, a) matches Some((e, b)) ==> a < b <= s.len() && e.span.src == src,
{
    lemma_ws_end(s, a);
    lemma_ident(s, a);
    let a1 = ws_end(s, a);
    lemma_digits_end(s, a1);
    if let Some(b1) = int_end(s, a1) {
        let c = match suffix(s, b1) {
            Some((k, c)) => c,
            None => b1,
        };
        lemma_ws_end(s, c);
    }
    if a + 1 <= s.len() {
        lemma_str_body_end(s, a + 1);
    }
}

pub proof fn lemma_primary(src: SrcId, s: Seq<char>, i: int)
    requires
        0 <= i <= s.len(),
    ensures
        primary(src, s, i) matches Some((e, j)) ==> i < j <= s.len() && e.span.src == src,
{
    let a = ws_end(s, i);
    lemma_ws_end(s, i);
    lemma_atoms(src, s, a);
    let atom = if integer(src, s, a) is Some {
        integer(src, s, a)
    } else if character(src, s, a) is Some {
        character(src, s, a)
    } else if string(src, s, a) is Some {
        string(src, s, a)
    } else {
        variable(src, s, a)
    };
    if let Some((e, b)) = atom {
        lemma_ws_end(s, b);
    }
}

pub proof fn lemma_typeref(src: SrcId, s: Seq<char>, i: int)
    requires
        0 <= i <= s.len(),
    ensures
        typeref(src, s, i) matches Some((t, j)) ==> i < j <= s.len() && t.span == sp(src, i, j),
{
    lemma_keyword(s, i, kw_void());
    lemma_keyword(s, i, kw_char());
    lemma_keyword(s, i, kw_i8());
    lemma_keyword(s, i, kw_i16());
    lemma_keyword(s, i, kw_i32());
    lemma_keyword(s, i, kw_i64());
    lemma_keyword(s, i, kw_u8());
    lemma_keyword(s, i, kw_u16());
    lemma_keyword(s, i, kw_u32());
    lemma_keyword(s, i, kw_u64());
    lemma_ident(s, i);
}

pub proof fn lemma_digits_end(s: Seq<char>, a: int)
    requires
        0 <= a <= s.len(),
    ensures
        int_end(s, a) matches Some(b) ==> a < b <= s.len(),
        a < s.len() ==> a < digits_end(s, a + 1) <= s.len() || a + 1 > s.len(),
{
    if a < s.len() {
        lemma_digits_end_rec(s, a + 1);
    }
}

pub proof fn lemma_digits_end_rec(s: Seq<char>, i: int)
    requires
        0 <= i <= s.len(),
    ensures
        i <= digits_end(s, i) <= s.len(),
        forall|k: int| i <= k < digits_end(s, i) ==> is_digit(#[trigger] s[k]),
    decreases s.len() - i,
{
    if i < s.len() && is_digit(s[i]) {
        lemma_digits_end_rec(s, i + 1);
    }
}

pub proof fn lemma_str_body_end(s: Seq<char>, i: int)
    requires
        0 <= i <= s.len(),
    ensures
        i <= str_body_end(s, i) <= s.len(),
    decreases s.len() - i,
{
    if i < s.len() && is_ascii(s[i]) && s[i] != '"' {
        lemma_str_body_end(s, i + 1);
    }
}

// ---------------------------------------------------------------------------
/// The model of an exec parse result.
pub open spec fn res_e(r: Option<(Spanned<Expr>, usize)>) -> Option<(SV<ExprV>, int)> {
    match r {
        Some((e, j)) => Some((sexpr_v(e), j as int)),
        None => None,
    }
}

pub open spec fn res_t(r: Option<(Spanned<Type>, usize)>) -> Option<(SV<TypeV>, int)> {
    match r {
        Some((t, j)) => Some((stype_v(t), j as int)),
        None => None,
    }
}

fn suffix_at(s: &Vec<char>, j: usize) -> (r: Option<(IntKind, usize)>)
    requires
        j <= s.len(),
    ensures
        match r {
            Some((k, c)) => suffix(s@, j as int) == Some((k, c as int)) && j < c <= s.len(),
            None => suffix(s@, j as int) is None,
        },
{
    if chars_at2(s, j, 'i', '8') {
        Some((IntKind::I8, j + 2))
    } else if chars_at3(s, j, 'i', '1', '6') {
        Some((IntKind::I16, j + 3))
    } else if chars_at3(s, j, 'i', '3', '2') {
        Some((IntKind::I32, j + 3))
    } else if chars_at3(s, j, 'i', '6', '4') {
        Some((IntKind::I64, j + 3))
    } else if chars_at2(s, j, 'u', '8') {
        Some((IntKind::U8, j + 2))
    } else if chars_at3(s, j, 'u', '1', '6') {
        Some((IntKind::U16, j + 3))
    } else if chars_at3(s, j, 'u', '3', '2') {
        Some((IntKind::U32, j + 3))
    } else if chars_at3(s, j, 'u', '6', '4') {
        Some((IntKind::U64, j + 3))
    } else {
        None
    }
}

proof fn lemma_dec_value_nonneg(d: Seq<char>)
    requires
        forall|k: int| 0 <= k < d.len() ==> is_digit(#[trigger] d[k]),
    ensures
        dec_value(d) >= 0,
    decreases d.len(),
{
    if d.len() > 0 {
        lemma_dec_value_nonneg(d.drop_last());
    }
}

/// The value of the digits `s[a..b]`, when it is at most `u64::MAX`.
fn digits_value(s: &Vec<char>, a: usize, b: usize) -> (r: Option<u64>)
    requires
        a <= b <= s.len(),
        forall|k: int| a <= k < b ==> is_digit(#[trigger] s@[k]),
    ensures
        match r {
            Some(v) => v == dec_value(s@.subrange(a as int, b as int)),
            None => dec_value(s@.subrange(a as int, b as int)) > u64::MAX,
        },
{
    let mut acc: u64 = 0;
    let mut k = a;
    while k < b
        invariant
            a <= k <= b <= s.len(),
            forall|t: int| a <= t < b ==> is_digit(#[trigger] s@[t]),
            acc == dec_value(s@.subrange(a as int, k as int)),
        decreases b - k,
    {
        let c = s[k];
        let dv = (c as u32 - '0' as u32) as u64;
        proof {
            assert(is_digit(s@[k as int]));
            assert(s@.subrange(a as int, k + 1).drop_last() =~= s@.subrange(a as int, k as int));
            assert(s@.subrange(a as int, k + 1).last() == c);
        }
        if acc > (u64::MAX - dv) / 10 {
            proof {
                assert(dec_value(s@.subrange(a as int, k + 1)) > u64::MAX);
                lemma_dec_grows(s@, a as int, k + 1, b as int);
            }
            return None;
        }
        acc = acc * 10 + dv;
        k = k + 1;
    }
    Some(acc)
}

/// Reading more digits never makes the value smaller.
proof fn lemma_dec_grows(s: Seq<char>, a: int, k: int, b: int)
    requires
        0 <= a <= k <= b <= s.len(),
        forall|t: int| a <= t < b ==> is_digit(#[trigger] s[t]),
    ensures
        dec_value(s.subrange(a, b)) >= dec_value(s.subrange(a, k)),
    decreases b - k,
{
    if k < b {
        lemma_dec_grows(s, a, k + 1, b);
        assert(s.subrange(a, k + 1).drop_last() =~= s.subrange(a, k));
        assert(is_digit(s[k]));
        assert(s.subrange(a, k + 1).last() == s[k]);
        assert forall|t: int| 0 <= t < s.subrange(a, k).len() implies is_digit(
            #[trigger] s.subrange(a, k)[t],
        ) by {
            assert(s.subrange(a, k)[t] == s[a + t]);
        }
        lemma_dec_value_nonneg(s.subrange(a, k));
    }
}

/// An integer literal at `i` (see [`integer`]).
pub fn integer_at(src: SrcId, s: &Vec<char>, i: usize) -> (r: Option<(Spanned<Expr>, usize)>)
    requires
        i <= s.len(),
    ensures
        res_e(r) == integer(src, s@, i as int),
        r matches Some((_, j)) ==> j <= s.len(),
{
    let a = skip_ws(s, i);
    let b = if a < s.len() && is_digit_char(s[a]) && s[a] != '0' {
        let mut k = a + 1;
        while k < s.len() && is_digit_char(s[k])
            invariant
                a + 1 <= k <= s.len(),
                digits_end(s@, a + 1) == digits_end(s@, k as int),
            decreases s.len() - k,
        {
            k = k + 1;
        }
        k
    } else if char_at(s, a, '0') {
        a + 1
    } else {
        return None;
    };
    proof {
        lemma_digits_end_rec(s@, a + 1);
    }
    let (kind, c) = match suffix_at(s, b) {
        Some((k, c)) => (k, c),
        None => (IntKind::I32, b),
    };
    let d = skip_ws(s, c);
    let v = match digits_value(s, a, b) {
        Some(v) => v,
        None => {
            return None;
        },
    };
    let span = Span::new(src, i, d);
    let e = match kind {
        IntKind::I8 => {
            if v > 127 {
                return None;
            }
            Expr::I8(v as i8)
        },
        IntKind::I16 => {
            if v > 32767 {
                return None;
            }
            Expr::I16(v as i16)
        },
        IntKind::I32 => {
            if v > 2147483647 {
                return None;
            }
            Expr::I32(v as i32)
        },
        IntKind::I64 => {
            if v > 9223372036854775807 {
                return None;
            }
            Expr::I64(v as i64)
        },
        IntKind::U8 => {
            if v > 255 {
                return None;
            }
            Expr::U8(v as u8)
        },
        IntKind::U16 => {
            if v > 65535 {
                return None;
            }
            Expr::U16(v as u16)
        },
        IntKind::U32 => {
            if v > 4294967295 {
                return None;
            }
            Expr::U32(v as u32)
        },
        IntKind::U64 => Expr::U64(v),
    };
    Some((Spanned::new(e, span), d))
}

/// A character literal at `i` (see [`character`]).
pub fn character_at(src: SrcId, s: &Vec<char>, i: usize) -> (r: Option<(Spanned<Expr>, usize)>)
    requires
        i <= s.len(),
    ensures
        res_e(r) == character(src, s@, i as int),
        r matches Some((_, j)) ==> j <= s.len(),
{
    if char_at(s, i, '\'') && i + 1 < s.len() && (s[i + 1] as u32) < 128 && char_at(s, i + 2, '\'') {
        let c = s[i + 1];
        Some((Spanned::new(Expr::I8((c as u32) as i8), Span::new(src, i, i + 3)), i + 3))
    } else {
        None
    }
}

/// A string literal at `i` (see [`string`]).
pub fn string_at(src: SrcId, s: &Vec<char>, i: usize) -> (r: Option<(Spanned<Expr>, usize)>)
    requires
        i <= s.len(),
    ensures
        res_e(r) == string(src, s@, i as int),
        r matches Some((_, j)) ==> j <= s.len(),
{
    if !char_at(s, i, '"') {
        return None;
    }
    let mut k = i + 1;
    while k < s.len() && (s[k] as u32) < 128 && s[k] != '"'
        invariant
            i + 1 <= k <= s.len(),
            str_body_end(s@, i + 1) == str_body_end(s@, k as int),
        decreases s.len() - k,
    {
        k = k + 1;
    }
    if char_at(s, k, '"') {
        let body = string_of(s, i + 1, k);
        Some((Spanned::new(Expr::String(body), Span::new(src, i, k + 1)), k + 1))
    } else {
        None
    }
}

/// A variable at `i` (see [`variable`]).
pub fn variable_at(src: SrcId, s: &Vec<char>, i: usize) -> (r: Option<(Spanned<Expr>, usize)>)
    requires
        i <= s.len(),
    ensures
        res_e(r) == variable(src, s@, i as int),
        r matches Some((_, j)) ==> j <= s.len(),
{
    match ident_at(s, i) {
        Some((n, j)) => Some((Spanned::new(Expr::Variable(n), Span::new(src, i, j)), j)),
        None => None,
    }
}

/// A primary expression at `i` (see [`primary`]).
pub fn primary_at(src: SrcId, s: &Vec<char>, i: usize) -> (r: Option<(Spanned<Expr>, usize)>)
    requires
        i <= s.len(),
    ensures
        res_e(r) == primary(src, s@, i as int),
        r matches Some((e, j)) ==> i < j <= s.len() && e.span.src == src,
{
    proof {
        lemma_primary(src, s@, i as int);
    }
    let a = skip_ws(s, i);
    let atom = match integer_at(src, s, a) {
        Some(x) => Some(x),
        None => match character_at(src, s, a) {
            Some(x) => Some(x),
            None => match string_at(src, s, a) {
                Some(x) => Some(x),
                None => variable_at(src, s, a),
            },
        },
    };
    match atom {
        Some((e, b)) => {
            proof {
                lemma_ws_end(s@, a as int);
            }
            Some((e, skip_ws(s, b)))
        },
        None => None,
    }
}

fn builtin_type_at(s: &Vec<char>, i: usize) -> (r: Option<(Type, usize)>)
    requires
        i <= s.len(),
    ensures
        match r {
            Some((t, j)) => builtin_type(s@, i as int) == Some((type_v(t), j as int)),
            None => builtin_type(s@, i as int) is None,
        },
{
    if let Some(j) = keyword_at(s, i, &['v', 'o', 'i', 'd']) {
        Some((Type::Void, j))
    } else if let Some(j) = keyword_at(s, i, &['c', 'h', 'a', 'r']) {
        Some((Type::I8, j))
    } else if let Some(j) = keyword_at(s, i, &['i', '8']) {
        Some((Type::I8, j))
    } else if let Some(j) = keyword_at(s, i, &['i', '1', '6']) {
        Some((Type::I16, j))
    } else if let Some(j) = keyword_at(s, i, &['i', '3', '2']) {
        Some((Type::I32, j))
    } else if let Some(j) = keyword_at(s, i, &['i', '6', '4']) {
        Some((Type::I64, j))
    } else if let Some(j) = keyword_at(s, i, &['u', '8']) {
        Some((Type::U8, j))
    } else if let Some(j) = keyword_at(s, i, &['u', '1', '6']) {
        Some((Type::U16, j))
    } else if let Some(j) = keyword_at(s, i, &['u', '3', '2']) {
        Some((Type::U32, j))
    } else if let Some(j) = keyword_at(s, i, &['u', '6', '4']) {
        Some((Type::U64, j))
    } else {
        None
    }
}

/// A type at `i` (see [`typeref`]).
pub fn typeref_at(src: SrcId, s: &Vec<char>, i: usize) -> (r: Option<(Spanned<Type>, usize)>)
    requires
        i <= s.len(),
    ensures
        res_t(r) == typeref(src, s@, i as int),
        r matches Some((t, j)) ==> i < j <= s.len() && t.span == sp(src, i as int, j as int),
{
    proof {
        lemma_typeref(src, s@, i as int);
    }
    match builtin_type_at(s, i) {
        Some((t, j)) => Some((Spanned::new(t, Span::new(src, i, j)), j)),
        None => match ident_at(s, i) {
            Some((n, j)) => Some((Spanned::new(Type::User(n), Span::new(src, i, j)), j)),
            None => None,
        },
    }
}

} // verus!
