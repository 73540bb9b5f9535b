//! Reading a task network from its text.
use vstd::prelude::*;
use crate::conditions::{is_option, none_name, some_name, CondV, HtnCondition};
use crate::model::{lemma_with_value, lookup, wrap_i32, IntKind, Val};
use crate::effects::{EffV, Effect};
use crate::error::{ErrV, HtnErr};
use crate::lexer::{is_digit, is_digit_exec, lex, toks_wf, token_wf, tokenize, TokKind, Token};
use crate::tasks::{
    conds_view, effs_view, texts_view, CompoundTask, CompoundV, HtnSchema, HtnV, Method, MethodV,
    Operator, OperatorV, PrimitiveTask, PrimitiveV, Task, TaskV, HTN,
};
use crate::text::{chars_of, decimal_digits, digit_char, join, string_of, text};

verus! {

/// The value of a run of decimal digits.
pub open spec fn digits_value(d: Seq<char>) -> int
    decreases d.len(),
{
    if d.len() == 0 {
        0
    } else {
        digits_value(d.drop_last()) * 10 + (d.last() as int - '0' as int)
    }
}

/// Whether every character is a decimal digit.
pub open spec fn all_digits(d: Seq<char>) -> bool {
    forall|k: int| 0 <= k < d.len() ==> is_digit(#[trigger] d[k])
}

/// The `i32` that the text spells in decimal, with an optional sign, as
/// Rust's `i32` parsing reads it; `None` when the text is not one or is out
/// of range.
pub open spec fn i32_of_text(t: Seq<char>) -> Option<i32> {
    let signed = t.len() > 0 && (t[0] == '-' || t[0] == '+');
    let body = if signed { t.drop_first() } else { t };
    let v = if signed && t[0] == '-' { -digits_value(body) } else { digits_value(body) };
    if body.len() > 0 && all_digits(body) && i32::MIN <= v <= i32::MAX {
        Some(v as i32)
    } else {
        None
    }
}

/// How an integer is written in decimal: a minus sign for negative
/// numbers, then its digits.
pub open spec fn decimal_text(x: int) -> Seq<char> {
    if x < 0 {
        seq!['-'] + decimal_digits((-x) as nat)
    } else {
        decimal_digits(x as nat)
    }
}

proof fn lemma_decimal_digits(n: nat)
    ensures
        decimal_digits(n).len() > 0,
        all_digits(decimal_digits(n)),
        digits_value(decimal_digits(n)) == n,
    decreases n,
{
    let d = decimal_digits(n);
    assert(digit_char((n % 10) as int) as int == '0' as int + n % 10);
    if n < 10 {
        assert(n % 10 == n);
        assert(d.drop_last() =~= Seq::<char>::empty());
        assert(digits_value(d) == digits_value(d.drop_last()) * 10 + (d.last() as int - '0' as int));
    }
    if n >= 10 {
        lemma_decimal_digits(n / 10);
        let front = decimal_digits(n / 10);
        assert(d.drop_last() =~= front);
        assert(d.last() == digit_char((n % 10) as int));
        assert forall|k: int| 0 <= k < d.len() implies is_digit(#[trigger] d[k]) by {
            if k < front.len() {
                assert(d[k] == front[k]);
            }
        }
        assert(n == (n / 10) * 10 + n % 10) by (nonlinear_arith);
        assert(digits_value(d) == digits_value(front) * 10 + (d.last() as int - '0' as int));
    }
}

/// Every `i32`, written in decimal, reads back as itself.
pub proof fn law_i32_decimal_round_trip(x: i32, context: Seq<char>)
    ensures
        parse_i32_spec(decimal_text(x as int), context) == Ok::<i32, ErrV>(x),
{
    let t = decimal_text(x as int);
    if x < 0 {
        lemma_decimal_digits((-x) as nat);
        assert(t.drop_first() =~= decimal_digits((-x) as nat));
    } else {
        lemma_decimal_digits(x as nat);
        let d = decimal_digits(x as nat);
        assert(is_digit(d[0]));
    }
}

/// "Invalid K `v` in: `c`".
pub open spec fn invalid_msg(kind: Seq<char>, v: Seq<char>, context: Seq<char>) -> Seq<char> {
    "Invalid "@ + kind + " `"@ + v + "` in: `"@ + context + "`"@
}

/// The result of reading an integer.
pub open spec fn parse_i32_spec(v: Seq<char>, context: Seq<char>) -> Result<i32, ErrV> {
    match i32_of_text(v) {
        Some(i) => Ok(i),
        None => Err(ErrV::Int { syntax: v, details: invalid_msg("integer"@, v, context) }),
    }
}

/// The result of reading a boolean.
pub open spec fn parse_bool_spec(v: Seq<char>, context: Seq<char>) -> Result<bool, ErrV> {
    if v == "true"@ {
        Ok(true)
    } else if v == "false"@ {
        Ok(false)
    } else {
        Err(ErrV::Bool { syntax: v, details: invalid_msg("boolean"@, v, context) })
    }
}

/// The first position from `from` on where `::` begins.
pub open spec fn find_sep(t: Seq<char>, from: int) -> Option<int>
    decreases t.len() - from,
{
    if from < 0 || from + 1 >= t.len() {
        None
    } else if t[from] == ':' && t[from + 1] == ':' {
        Some(from)
    } else {
        find_sep(t, from + 1)
    }
}

/// The result of reading `Type::Variant`: the text split at `::` into
/// exactly two non-empty parts.
pub open spec fn parse_enum_spec(v: Seq<char>, context: Seq<char>) -> Result<
    (Seq<char>, Seq<char>),
    ErrV,
> {
    let err = Err(ErrV::Enum { syntax: v, details: invalid_msg("enum"@, v, context) });
    match find_sep(v, 0) {
        None => err,
        Some(p) => if find_sep(v, p + 2) is Some || p == 0 || p + 2 == v.len() {
            err
        } else {
            Ok((v.subrange(0, p), v.subrange(p + 2, v.len() as int)))
        },
    }
}

/// A floating-point literal of a task network's text, with the bit
/// pattern of the `f32` that it reads as.
#[derive(Debug, Clone, PartialEq)]
pub struct FloatReading {
    pub literal: String,
    pub bits: u32,
}

/// The readings as pairs of a literal and its bits.
pub open spec fn readings_view(fl: Seq<FloatReading>) -> Seq<(Seq<char>, u32)> {
    fl.map_values(|r: FloatReading| (r.literal@, r.bits))
}

/// The result of reading a floating-point literal: the bits of the first
/// reading of that literal, or an invalid float when there is none.
pub open spec fn parse_f32_spec(fl: Seq<(Seq<char>, u32)>, v: Seq<char>, context: Seq<char>) -> Result<
    u32,
    ErrV,
>
    decreases fl.len(),
{
    if fl.len() == 0 {
        Err(ErrV::Float { syntax: v, details: invalid_msg("float"@, v, context) })
    } else if fl[0].0 == v {
        Ok(fl[0].1)
    } else {
        parse_f32_spec(fl.drop_first(), v, context)
    }
}

/// Reads a floating-point literal by its reading in `fl`.
pub fn parse_f32(val_str: &String, context: &String, fl: &Vec<FloatReading>) -> (r: Result<u32, HtnErr>)
    ensures
        match r {
            Ok(b) => parse_f32_spec(readings_view(fl@), val_str@, context@) == Ok::<u32, ErrV>(b),
            Err(e) => parse_f32_spec(readings_view(fl@), val_str@, context@) == Err::<u32, ErrV>(e@),
        },
{
    let ghost all = readings_view(fl@);
    let mut i: usize = 0;
    assert(all.skip(0) =~= all);
    while i < fl.len()
        invariant
            0 <= i <= fl@.len(),
            all == readings_view(fl@),
            parse_f32_spec(all, val_str@, context@) == parse_f32_spec(all.skip(i as int), val_str@, context@),
        decreases fl@.len() - i,
    {
        let ghost rest = all.skip(i as int);
        assert(rest[0] == all[i as int]);
        assert(rest.drop_first() =~= all.skip(i + 1));
        if fl[i].literal == *val_str {
            return Ok(fl[i].bits);
        }
        i = i + 1;
    }
    assert(all.skip(i as int) =~= Seq::<(Seq<char>, u32)>::empty());
    Err(HtnErr::Float { syntax: val_str.clone(), details: invalid("float", val_str.as_str(), context.as_str()) })
}

fn invalid(kind: &str, v: &str, context: &str) -> (r: String)
    ensures
        r@ == invalid_msg(kind@, v@, context@),
{
    let m = join(text("Invalid "), kind);
    let m = join(m, " `");
    let m = join(m, v);
    let m = join(m, "` in: `");
    let m = join(m, context);
    join(m, "`")
}

/// Reads a decimal `i32` with an optional sign.
#[verifier::rlimit(30)]
pub fn parse_i32(val_str: &str, context: &str) -> (r: Result<i32, HtnErr>)
    ensures
        match r {
            Ok(i) => parse_i32_spec(val_str@, context@) == Ok::<i32, ErrV>(i),
            Err(e) => parse_i32_spec(val_str@, context@) == Err::<i32, ErrV>(e@),
        },
{
    let t = chars_of(val_str);
    let n = t.len();
    let signed = n > 0 && (t[0] == '-' || t[0] == '+');
    let neg = signed && t[0] == '-';
    let start: usize = if signed { 1 } else { 0 };
    let ghost body = if signed { t@.drop_first() } else { t@ };
    assert(body =~= t@.subrange(start as int, n as int));
    let mut acc: i64 = 0;
    let mut big = false;
    let mut k = start;
    let mut ok = n > start;
    while k < n
        invariant
            start <= k <= n,
            n == t@.len(),
            body =~= t@.subrange(start as int, n as int),
            ok ==> n > start && all_digits(t@.subrange(start as int, k as int)),
            !ok ==> !(body.len() > 0 && all_digits(body)),
            ok && big ==> digits_value(t@.subrange(start as int, k as int)) > 0x8000_0000,
            ok && !big ==> acc == digits_value(t@.subrange(start as int, k as int)) && 0 <= acc
                <= 0x8000_0000,
        decreases n - k,
    {
        let ghost prefix = t@.subrange(start as int, k as int);
        let ghost next = t@.subrange(start as int, k + 1);
        assert(next.drop_last() =~= prefix);
        if !is_digit_exec(t[k]) {
            assert(body[k - start] == t@[k as int]);
            ok = false;
        } else if ok {
            assert forall|j: int| 0 <= j < next.len() implies is_digit(#[trigger] next[j]) by {
                if j < prefix.len() {
                    assert(next[j] == prefix[j]);
                }
            }
            let d = (t[k] as u32 - '0' as u32) as i64;
            if !big {
                let v = acc * 10 + d;
                if v > 0x8000_0000 {
                    big = true;
                } else {
                    acc = v;
                }
            }
        }
        k = k + 1;
    }
    proof {
        assert(t@.subrange(start as int, n as int) =~= body);
    }
    let value: Option<i32> = if !ok || big {
        None
    } else if neg {
        Some((-acc) as i32)
    } else if acc > 0x7fff_ffff {
        None
    } else {
        Some(acc as i32)
    };
    match value {
        Some(i) => Ok(i),
        None => {
            let s = text(val_str);
            Err(HtnErr::Int { syntax: s, details: invalid("integer", val_str, context) })
        },
    }
}

/// Reads `true` or `false`.
pub fn parse_bool(val_str: &str, context: &str) -> (r: Result<bool, HtnErr>)
    ensures
        match r {
            Ok(b) => parse_bool_spec(val_str@, context@) == Ok::<bool, ErrV>(b),
            Err(e) => parse_bool_spec(val_str@, context@) == Err::<bool, ErrV>(e@),
        },
{
    let s = text(val_str);
    if crate::text::eq_text(&s, "true") {
        Ok(true)
    } else if crate::text::eq_text(&s, "false") {
        Ok(false)
    } else {
        Err(HtnErr::Bool { syntax: s, details: invalid("boolean", val_str, context) })
    }
}

fn find_sep_exec(t: &Vec<char>, from: usize) -> (r: Option<usize>)
    ensures
        match r {
            Some(p) => find_sep(t@, from as int) == Some(p as int),
            None => find_sep(t@, from as int) is None,
        },
{
    let mut k = from;
    while k < t.len() && k + 1 < t.len()
        invariant
            from <= k,
            find_sep(t@, from as int) == find_sep(t@, k as int),
        decreases t@.len() - k,
    {
        if t[k] == ':' && t[k + 1] == ':' {
            return Some(k);
        }
        k = k + 1;
    }
    None
}

/// Reads `Type::Variant` into its two parts.
pub fn parse_enum(val_str: &str, context: &str) -> (r: Result<(String, String), HtnErr>)
    ensures
        match r {
            Ok((a, b)) => parse_enum_spec(val_str@, context@) == Ok::<(Seq<char>, Seq<char>), ErrV>(
                (a@, b@),
            ),
            Err(e) => parse_enum_spec(val_str@, context@) == Err::<(Seq<char>, Seq<char>), ErrV>(
                e@,
            ),
        },
{
    let t = chars_of(val_str);
    let n = t.len();
    match find_sep_exec(&t, 0) {
        Some(p) => {
            proof {
                lemma_find_sep(t@, 0);
            }
            if p != 0 && p + 2 != n && find_sep_exec(&t, p + 2).is_none() {
                return Ok((string_of(&t, 0, p), string_of(&t, p + 2, t.len())));
            }
        },
        None => {},
    }
    Err(HtnErr::Enum { syntax: text(val_str), details: invalid("enum", val_str, context) })
}

/// `find_sep` finds a `::` inside the text.
pub proof fn lemma_find_sep(t: Seq<char>, from: int)
    ensures
        find_sep(t, from) matches Some(p) ==> from <= p && p + 2 <= t.len() && t[p] == ':' && t[p
            + 1] == ':',
    decreases t.len() - from,
{
    if from >= 0 && from + 1 < t.len() && !(t[from] == ':' && t[from + 1] == ':') {
        lemma_find_sep(t, from + 1);
    }
}


/// What `find_sep` finds: no `::` begins between `from` and the position
/// found (or the end), and one begins at that position.
proof fn lemma_find_sep_scan(t: Seq<char>, from: int)
    requires
        0 <= from,
    ensures
        forall|k: int|
            from <= k && k + 1 < t.len() && (find_sep(t, from) matches Some(p) ==> k < p) ==> !(
            #[trigger] t[k] == ':' && t[k + 1] == ':'),
        find_sep(t, from) matches Some(p) ==> from <= p && p + 1 < t.len() && t[p] == ':' && t[p + 1]
            == ':',
    decreases t.len() - from,
{
    if from + 1 < t.len() && !(t[from] == ':' && t[from + 1] == ':') {
        lemma_find_sep_scan(t, from + 1);
    }
}

/// Whether the text holds no `:`.
pub open spec fn colon_free(t: Seq<char>) -> bool {
    forall|k: int| 0 <= k < t.len() ==> #[trigger] t[k] != ':'
}

/// Whether no `::` occurs in the text.
pub open spec fn sep_free(t: Seq<char>) -> bool {
    forall|k: int| 0 <= k && k + 1 < t.len() ==> !(#[trigger] t[k] == ':' && t[k + 1] == ':')
}

/// Reading `a::b`, where neither part holds a `:`, gives back `a` and `b`
/// exactly when both are non-empty, and is an invalid enum otherwise.
pub proof fn law_parse_enum_split(a: Seq<char>, b: Seq<char>, context: Seq<char>)
    requires
        colon_free(a),
        colon_free(b),
    ensures
        parse_enum_spec(a + "::"@ + b, context) == if a.len() > 0 && b.len() > 0 {
            Ok::<(Seq<char>, Seq<char>), ErrV>((a, b))
        } else {
            Err::<(Seq<char>, Seq<char>), ErrV>(
                ErrV::Enum {
                    syntax: a + "::"@ + b,
                    details: invalid_msg("enum"@, a + "::"@ + b, context),
                },
            )
        },
{
    reveal_strlit("::");
    let v = a + "::"@ + b;
    let p = a.len() as int;
    assert(v.len() == a.len() + 2 + b.len());
    assert(v[p] == ':' && v[p + 1] == ':');
    assert forall|k: int| 0 <= k < p implies #[trigger] v[k] == a[k] by {}
    assert forall|k: int| p + 2 <= k < v.len() implies #[trigger] v[k] == b[k - p - 2] by {}
    lemma_find_sep_scan(v, 0);
    match find_sep(v, 0) {
        Some(q) => {
            if q < p {
                assert(v[q] == a[q]);
            }
            if q > p {
                assert(!(v[p] == ':' && v[p + 1] == ':'));
            }
            assert(q == p);
        },
        None => {
            assert(!(v[p] == ':' && v[p + 1] == ':'));
        },
    }
    lemma_find_sep_scan(v, p + 2);
    if let Some(q) = find_sep(v, p + 2) {
        assert(v[q] == b[q - p - 2]);
    }
    assert(v.subrange(0, p) =~= a);
    assert(v.subrange(p + 2, v.len() as int) =~= b);
}

/// Every successful read of `Type::Variant` gives two non-empty parts,
/// neither of which holds `::`.
pub proof fn law_parse_enum_parts(v: Seq<char>, context: Seq<char>)
    ensures
        parse_enum_spec(v, context) matches Ok((t, u)) ==> t.len() > 0 && u.len() > 0 && sep_free(t)
            && sep_free(u),
{
    lemma_find_sep_scan(v, 0);
    if let Some(p) = find_sep(v, 0) {
        lemma_find_sep_scan(v, p + 2);
        let t = v.subrange(0, p);
        let u = v.subrange(p + 2, v.len() as int);
        assert forall|k: int| 0 <= k && k + 1 < t.len() implies !(#[trigger] t[k] == ':' && t[k + 1]
            == ':') by {
            assert(t[k] == v[k] && t[k + 1] == v[k + 1]);
        }
        if find_sep(v, p + 2) is None {
            assert forall|k: int| 0 <= k && k + 1 < u.len() implies !(#[trigger] u[k] == ':' && u[k
                + 1] == ':') by {
                assert(u[k] == v[k + p + 2] && u[k + 1] == v[k + p + 3]);
            }
        }
    }
}

/// Whether token `i` exists and has kind `k`.
pub open spec fn kind_at(ts: Seq<Token>, i: int, k: TokKind) -> bool {
    0 <= i < ts.len() && ts[i].kind == k
}

/// The text a token spans.
pub open spec fn tok_text(s: Seq<char>, t: Token) -> Seq<char> {
    s.subrange(t.start as int, t.end as int)
}

/// The text between the quotes of a text token.
pub open spec fn str_content(s: Seq<char>, t: Token) -> Seq<char> {
    s.subrange(t.start + 1, t.end - 1)
}

/// Whether token `i` is the keyword `kw`.
pub open spec fn kw_at(s: Seq<char>, ts: Seq<Token>, i: int, kw: Seq<char>) -> bool {
    kind_at(ts, i, TokKind::Ident) && tok_text(s, ts[i]) == kw
}

/// The value side of a condition or effect.
pub enum ValTok {
    Int(Seq<char>),
    Float(Seq<char>),
    Bool(bool),
    NoneLit,
    EnumPath(Seq<char>),
    Ident(Seq<char>),
}

/// The kind of a value token.
#[derive(Debug, Clone, Copy, PartialEq, Eq, Structural)]
pub enum ValKind {
    Int,
    Float,
    Bool(bool),
    NoneLit,
    EnumPath,
    Ident,
}

/// The value that a kind and a text stand for.
pub open spec fn valtok_of(k: ValKind, x: Seq<char>) -> ValTok {
    match k {
        ValKind::Int => ValTok::Int(x),
        ValKind::Float => ValTok::Float(x),
        ValKind::Bool(b) => ValTok::Bool(b),
        ValKind::NoneLit => ValTok::NoneLit,
        ValKind::EnumPath => ValTok::EnumPath(x),
        ValKind::Ident => ValTok::Ident(x),
    }
}

/// The value that token `i` stands for, if it is a value.
pub open spec fn value_at(s: Seq<char>, ts: Seq<Token>, i: int) -> Option<ValTok> {
    if 0 <= i < ts.len() {
        let x = tok_text(s, ts[i]);
        match ts[i].kind {
            TokKind::Int => Some(ValTok::Int(x)),
            TokKind::Float => Some(ValTok::Float(x)),
            TokKind::EnumPath => Some(ValTok::EnumPath(x)),
            TokKind::Ident => if x == "true"@ {
                Some(ValTok::Bool(true))
            } else if x == "false"@ {
                Some(ValTok::Bool(false))
            } else if x == "None"@ {
                Some(ValTok::NoneLit)
            } else {
                Some(ValTok::Ident(x))
            },
            _ => None,
        }
    } else {
        None
    }
}

/// Whether the token kind compares: `==`, `!=`, `>=`, `>`, `<=`, `<`.
pub open spec fn is_comparison(k: TokKind) -> bool {
    k == TokKind::EqEq || k == TokKind::NotEq || k == TokKind::Ge || k == TokKind::Gt || k
        == TokKind::Le || k == TokKind::Lt
}

/// Whether the token kind writes: `=`, `+=`, `-=`.
pub open spec fn is_assign(k: TokKind) -> bool {
    k == TokKind::Assign || k == TokKind::PlusAssign || k == TokKind::MinusAssign
}

/// "Unsupported condition `s`".
pub open spec fn bad_condition(syntax: Seq<char>) -> ErrV {
    ErrV::Condition { syntax, details: "Unsupported condition `"@ + syntax + "`"@ }
}

/// "Unsupported effect type: `s`".
pub open spec fn bad_effect(syntax: Seq<char>) -> ErrV {
    ErrV::Effect { syntax, details: "Unsupported effect type: `"@ + syntax + "`"@ }
}

/// The condition `field op value`, written as `syntax`.
///
/// `>`/`>=` and `<`/`<=` take an integer, a float or a field; `==`/`!=`
/// take any value, `None` giving an `Option` test. Other pairs are
/// unsupported.
pub open spec fn build_cond(fl: Seq<(Seq<char>, u32)>, field: Seq<char>, op: TokKind, v: ValTok, syntax: Seq<char>) -> Result<
    CondV,
    ErrV,
> {
    let gt = op == TokKind::Ge || op == TokKind::Gt;
    let lt = op == TokKind::Le || op == TokKind::Lt;
    let notted = op == TokKind::NotEq;
    match v {
        ValTok::Int(x) => match parse_i32_spec(x, syntax) {
            Err(e) => Err(e),
            Ok(t) => if gt {
                Ok(CondV::GreaterThanInt { field, threshold: t, orequals: op == TokKind::Ge, syntax })
            } else if lt {
                Ok(CondV::LessThanInt { field, threshold: t, orequals: op == TokKind::Le, syntax })
            } else {
                Ok(CondV::EqualsInt { field, value: t, notted, syntax })
            },
        },
        ValTok::Float(x) => match parse_f32_spec(fl, x, syntax) {
            Err(e) => Err(e),
            Ok(t) => if gt {
                Ok(CondV::GreaterThanFloat { field, threshold: t, orequals: op == TokKind::Ge, syntax })
            } else if lt {
                Ok(CondV::LessThanFloat { field, threshold: t, orequals: op == TokKind::Le, syntax })
            } else {
                Ok(CondV::EqualsFloat { field, value: t, notted, syntax })
            },
        },
        ValTok::Ident(x) => if gt {
            Ok(
                CondV::GreaterThanIdentifier {
                    field,
                    other_field: x,
                    orequals: op == TokKind::Ge,
                    syntax,
                },
            )
        } else if lt {
            Ok(
                CondV::LessThanIdentifier {
                    field,
                    other_field: x,
                    orequals: op == TokKind::Le,
                    syntax,
                },
            )
        } else {
            Ok(CondV::EqualsIdentifier { field, other_field: x, notted, syntax })
        },
        ValTok::Bool(b) => if gt || lt {
            Err(bad_condition(syntax))
        } else {
            Ok(CondV::EqualsBool { field, value: b, notted, syntax })
        },
        ValTok::NoneLit => if gt || lt {
            Err(bad_condition(syntax))
        } else if notted {
            Ok(CondV::IsSome { field, syntax })
        } else {
            Ok(CondV::IsNone { field, syntax })
        },
        ValTok::EnumPath(x) => if gt || lt {
            Err(bad_condition(syntax))
        } else {
            match parse_enum_spec(x, syntax) {
                Err(e) => Err(e),
                Ok((a, b)) => Ok(
                    CondV::EqualsEnum { field, enum_type: a, enum_variant: b, notted, syntax },
                ),
            }
        },
    }
}

/// `-i`, wrapping `i32::MIN` to itself.
pub open spec fn neg_i32(i: i32) -> i32 {
    if i == i32::MIN { i32::MIN } else { (-i) as i32 }
}

/// The effect `field op value`, written as `syntax`.
///
/// `=` takes any value (a field copies that field); `+=` and `-=` take an
/// integer. Other pairs are unsupported.
pub open spec fn build_effect(fl: Seq<(Seq<char>, u32)>, field: Seq<char>, op: TokKind, v: ValTok, syntax: Seq<char>) -> Result<
    EffV,
    ErrV,
> {
    if op == TokKind::Assign {
        match v {
            ValTok::Bool(b) => Ok(EffV::SetBool { field, value: b, syntax }),
            ValTok::Int(x) => match parse_i32_spec(x, syntax) {
                Err(e) => Err(e),
                Ok(i) => Ok(EffV::SetInt { field, value: i, syntax }),
            },
            ValTok::Float(x) => match parse_f32_spec(fl, x, syntax) {
                Err(e) => Err(e),
                Ok(b) => Ok(EffV::SetFloat { field, value: b, syntax }),
            },
            ValTok::EnumPath(x) => match parse_enum_spec(x, syntax) {
                Err(e) => Err(e),
                Ok((a, b)) => Ok(EffV::SetEnum { field, enum_type: a, enum_variant: b, syntax }),
            },
            ValTok::NoneLit => Ok(EffV::SetNone { field, syntax }),
            ValTok::Ident(x) => Ok(EffV::SetIdentifier { field, field_source: x, syntax }),
        }
    } else {
        match v {
            ValTok::Int(x) => match parse_i32_spec(x, syntax) {
                Err(e) => Err(e),
                Ok(i) => Ok(
                    EffV::IncrementInt {
                        field,
                        by: if op == TokKind::PlusAssign { i } else { neg_i32(i) },
                        syntax,
                    },
                ),
            },
            _ => Err(bad_effect(syntax)),
        }
    }
}

/// Whether `x op y` is true, for a comparison `op`.
pub open spec fn compares(op: TokKind, x: int, y: int) -> bool {
    match op {
        TokKind::Lt => x < y,
        TokKind::Le => x <= y,
        TokKind::Gt => x > y,
        TokKind::Ge => x >= y,
        TokKind::EqEq => x == y,
        TokKind::NotEq => x != y,
        _ => false,
    }
}

/// A condition `f op g` read from the text, between two `i32` fields,
/// holds on a state exactly when the written comparison of their values is
/// true there (`!=` between two fields is left out: it tests equality).
pub proof fn law_parsed_field_comparison(
    fl: Seq<(Seq<char>, u32)>,
    c: HtnCondition,
    f: Seq<char>,
    op: TokKind,
    g: Seq<char>,
    syntax: Seq<char>,
    state: Seq<(Seq<char>, Val)>,
    x: int,
    y: int,
)
    requires
        is_comparison(op),
        op != TokKind::NotEq,
        build_cond(fl, f, op, ValTok::Ident(g), syntax) == Ok::<CondV, ErrV>(c@),
        lookup(state, f) == Some(Val::Int { kind: IntKind::I32, value: x }),
        lookup(state, g) == Some(Val::Int { kind: IntKind::I32, value: y }),
    ensures
        c.holds(state) == compares(op, x, y),
{
}

/// A condition `f op n` read from the text, with an integer literal `n`,
/// holds on a state whose field `f` is an `i32` exactly when the written
/// comparison of its value with `n` is true there.
pub proof fn law_parsed_int_comparison(
    fl: Seq<(Seq<char>, u32)>,
    c: HtnCondition,
    f: Seq<char>,
    op: TokKind,
    t: Seq<char>,
    n: i32,
    syntax: Seq<char>,
    state: Seq<(Seq<char>, Val)>,
    x: int,
)
    requires
        is_comparison(op),
        i32_of_text(t) == Some(n),
        build_cond(fl, f, op, ValTok::Int(t), syntax) == Ok::<CondV, ErrV>(c@),
        lookup(state, f) == Some(Val::Int { kind: IntKind::I32, value: x }),
    ensures
        c.holds(state) == compares(op, x, n as int),
{
}

/// A test `f == b` or `f != b` read from the text, with a boolean literal
/// `b`, holds on a state whose field `f` is the boolean `x` exactly when
/// the written (in)equality is true there.
pub proof fn law_parsed_bool_test(
    fl: Seq<(Seq<char>, u32)>,
    c: HtnCondition,
    f: Seq<char>,
    op: TokKind,
    b: bool,
    syntax: Seq<char>,
    state: Seq<(Seq<char>, Val)>,
    x: bool,
)
    requires
        op == TokKind::EqEq || op == TokKind::NotEq,
        build_cond(fl, f, op, ValTok::Bool(b), syntax) == Ok::<CondV, ErrV>(c@),
        lookup(state, f) == Some(Val::Bool(x)),
    ensures
        c.holds(state) == ((x == b) == (op == TokKind::EqEq)),
{
}

/// A test `f == T::V` or `f != T::V` read from the text holds on a state
/// whose field `f` is an enum in variant `w` exactly when the written
/// (in)equality of `w` and `V` is true there.
pub proof fn law_parsed_enum_test(
    fl: Seq<(Seq<char>, u32)>,
    c: HtnCondition,
    f: Seq<char>,
    op: TokKind,
    ty: Seq<char>,
    variant: Seq<char>,
    syntax: Seq<char>,
    state: Seq<(Seq<char>, Val)>,
    w: Seq<char>,
)
    requires
        op == TokKind::EqEq || op == TokKind::NotEq,
        build_cond(fl, f, op, ValTok::EnumPath(ty + "::"@ + variant), syntax) == Ok::<CondV, ErrV>(c@),
        colon_free(ty),
        colon_free(variant),
        lookup(state, f) matches Some(Val::Enum { variant: cur, .. }) && cur == w,
    ensures
        c.holds(state) == ((w == variant) == (op == TokKind::EqEq)),
{
    law_parse_enum_split(ty, variant, syntax);
}

/// A test `f == None` or `f != None` read from the text holds on a state
/// whose field `f` is an `Option` exactly when the written (in)equality is
/// true there.
pub proof fn law_parsed_none_test(
    fl: Seq<(Seq<char>, u32)>,
    c: HtnCondition,
    f: Seq<char>,
    op: TokKind,
    syntax: Seq<char>,
    state: Seq<(Seq<char>, Val)>,
    variants: Seq<(Seq<char>, bool)>,
    variant: Seq<char>,
)
    requires
        op == TokKind::EqEq || op == TokKind::NotEq,
        build_cond(fl, f, op, ValTok::NoneLit, syntax) == Ok::<CondV, ErrV>(c@),
        lookup(state, f) matches Some(Val::Enum { variants: vs, variant: w, .. }) && vs == variants
            && w == variant,
        is_option(variants),
        variant == none_name() || variant == some_name(),
    ensures
        c.holds(state) == ((variant == none_name()) == (op == TokKind::EqEq)),
{
    assert(none_name() != some_name());
}

/// An effect `f = b` read from the text, with a boolean literal `b`,
/// writes `b` to the boolean field `f`.
pub proof fn law_parsed_set_bool(
    fl: Seq<(Seq<char>, u32)>,
    e: Effect,
    f: Seq<char>,
    b: bool,
    syntax: Seq<char>,
    state: Seq<(Seq<char>, Val)>,
    x: bool,
)
    requires
        build_effect(fl, f, TokKind::Assign, ValTok::Bool(b), syntax) == Ok::<EffV, ErrV>(e@),
        lookup(state, f) == Some(Val::Bool(x)),
    ensures
        lookup(e.applied(state), f) == Some(Val::Bool(b)),
{
    lemma_with_value(state, f, Val::Bool(b), f);
}

/// An effect `f = n` read from the text, with an integer literal `n`,
/// writes `n` to the `i32` field `f`.
pub proof fn law_parsed_set_int(
    fl: Seq<(Seq<char>, u32)>,
    e: Effect,
    f: Seq<char>,
    t: Seq<char>,
    n: i32,
    syntax: Seq<char>,
    state: Seq<(Seq<char>, Val)>,
    x: int,
)
    requires
        i32_of_text(t) == Some(n),
        build_effect(fl, f, TokKind::Assign, ValTok::Int(t), syntax) == Ok::<EffV, ErrV>(e@),
        lookup(state, f) == Some(Val::Int { kind: IntKind::I32, value: x }),
    ensures
        lookup(e.applied(state), f) == Some(Val::Int { kind: IntKind::I32, value: n as int }),
{
    lemma_with_value(state, f, Val::Int { kind: IntKind::I32, value: n as int }, f);
}

/// An effect `f = g` read from the text, with two existing fields, writes
/// the value of `g` to `f`.
pub proof fn law_parsed_copy(
    fl: Seq<(Seq<char>, u32)>,
    e: Effect,
    f: Seq<char>,
    g: Seq<char>,
    syntax: Seq<char>,
    state: Seq<(Seq<char>, Val)>,
    w: Val,
)
    requires
        build_effect(fl, f, TokKind::Assign, ValTok::Ident(g), syntax) == Ok::<EffV, ErrV>(e@),
        lookup(state, f) is Some,
        lookup(state, g) == Some(w),
    ensures
        lookup(e.applied(state), f) == Some(w),
{
    lemma_with_value(state, f, w, f);
}

/// An effect `f += n` or `f -= n` read from the text, with an integer
/// literal `n`, adds `n` to (or takes it from) the `i32` field `f`, with
/// two's complement wrap-around.
pub proof fn law_parsed_increment(
    fl: Seq<(Seq<char>, u32)>,
    e: Effect,
    f: Seq<char>,
    op: TokKind,
    t: Seq<char>,
    n: i32,
    syntax: Seq<char>,
    state: Seq<(Seq<char>, Val)>,
    x: int,
)
    requires
        op == TokKind::PlusAssign || op == TokKind::MinusAssign,
        i32_of_text(t) == Some(n),
        build_effect(fl, f, op, ValTok::Int(t), syntax) == Ok::<EffV, ErrV>(e@),
        lookup(state, f) == Some(Val::Int { kind: IntKind::I32, value: x }),
        i32::MIN <= x <= i32::MAX,
    ensures
        lookup(e.applied(state), f) == Some(
            Val::Int {
                kind: IntKind::I32,
                value: wrap_i32(if op == TokKind::PlusAssign { x + n } else { x - n }),
            },
        ),
{
    if let Effect::IncrementInt { by, .. } = e {
        lemma_with_value(state, f, Val::Int { kind: IntKind::I32, value: wrap_i32(x + by) }, f);
        if op == TokKind::MinusAssign {
            assert(wrap_i32(x + neg_i32(n)) == wrap_i32(x - n));
        }
    }
}

/// The condition at token `i`: a field, a comparison, a value.
pub open spec fn p_cond(s: Seq<char>, ts: Seq<Token>, fl: Seq<(Seq<char>, u32)>, i: int) -> Option<(Result<CondV, ErrV>, int)> {
    if kind_at(ts, i, TokKind::Ident) && i + 2 < ts.len() && is_comparison(ts[i + 1].kind) && value_at(
        s,
        ts,
        i + 2,
    ) is Some {
        let syntax = s.subrange(ts[i].start as int, ts[i + 2].end as int);
        Some(
            (
                build_cond(fl, tok_text(s, ts[i]), ts[i + 1].kind, value_at(s, ts, i + 2)->0, syntax),
                i + 3,
            ),
        )
    } else {
        None
    }
}

/// The effect at token `i`: a field, a write, a value.
pub open spec fn p_effect(s: Seq<char>, ts: Seq<Token>, fl: Seq<(Seq<char>, u32)>, i: int) -> Option<(Result<EffV, ErrV>, int)> {
    if kind_at(ts, i, TokKind::Ident) && i + 2 < ts.len() && is_assign(ts[i + 1].kind) && value_at(
        s,
        ts,
        i + 2,
    ) is Some {
        let syntax = s.subrange(ts[i].start as int, ts[i + 2].end as int);
        Some(
            (
                build_effect(fl, tok_text(s, ts[i]), ts[i + 1].kind, value_at(s, ts, i + 2)->0, syntax),
                i + 3,
            ),
        )
    } else {
        None
    }
}

/// An element followed by the rest of a list, keeping the first error.
pub open spec fn cons<T>(x: Result<T, ErrV>, rest: Result<Seq<T>, ErrV>) -> Result<Seq<T>, ErrV> {
    match x {
        Err(e) => Err(e),
        Ok(v) => match rest {
            Err(e) => Err(e),
            Ok(r) => Ok(seq![v] + r),
        },
    }
}

/// The conditions of a list from token `i` (just after `[`) through `]`:
/// separated by commas, with an optional trailing comma.
pub open spec fn p_conds(s: Seq<char>, ts: Seq<Token>, fl: Seq<(Seq<char>, u32)>, i: int) -> Option<(Result<Seq<CondV>, ErrV>, int)>
    decreases ts.len() - i,
{
    if i < 0 || i >= ts.len() {
        None
    } else if kind_at(ts, i, TokKind::RBracket) {
        Some((Ok(Seq::empty()), i + 1))
    } else {
        match p_cond(s, ts, fl, i) {
            None => None,
            Some((c, j)) => if kind_at(ts, j, TokKind::Comma) {
                match p_conds(s, ts, fl, j + 1) {
                    None => None,
                    Some((rest, k)) => Some((cons(c, rest), k)),
                }
            } else if kind_at(ts, j, TokKind::RBracket) {
                Some((cons(c, Ok(Seq::empty())), j + 1))
            } else {
                None
            },
        }
    }
}

/// The effects of a list from token `i` (just after `[`) through `]`.
pub open spec fn p_effects(s: Seq<char>, ts: Seq<Token>, fl: Seq<(Seq<char>, u32)>, i: int) -> Option<(Result<Seq<EffV>, ErrV>, int)>
    decreases ts.len() - i,
{
    if i < 0 || i >= ts.len() {
        None
    } else if kind_at(ts, i, TokKind::RBracket) {
        Some((Ok(Seq::empty()), i + 1))
    } else {
        match p_effect(s, ts, fl, i) {
            None => None,
            Some((c, j)) => if kind_at(ts, j, TokKind::Comma) {
                match p_effects(s, ts, fl, j + 1) {
                    None => None,
                    Some((rest, k)) => Some((cons(c, rest), k)),
                }
            } else if kind_at(ts, j, TokKind::RBracket) {
                Some((cons(c, Ok(Seq::empty())), j + 1))
            } else {
                None
            },
        }
    }
}

/// The names of a list from token `i` (just after `[`) through `]`.
pub open spec fn p_names(s: Seq<char>, ts: Seq<Token>, i: int) -> Option<(Seq<Seq<char>>, int)>
    decreases ts.len() - i,
{
    if i < 0 || i >= ts.len() {
        None
    } else if kind_at(ts, i, TokKind::RBracket) {
        Some((Seq::empty(), i + 1))
    } else if kind_at(ts, i, TokKind::Ident) {
        let x = tok_text(s, ts[i]);
        if kind_at(ts, i + 1, TokKind::Comma) {
            match p_names(s, ts, i + 2) {
                None => None,
                Some((rest, k)) => Some((seq![x] + rest, k)),
            }
        } else if kind_at(ts, i + 1, TokKind::RBracket) {
            Some((seq![x], i + 2))
        } else {
            None
        }
    } else {
        None
    }
}

/// Operator parameters from token `i` (just after `(`) through `)`:
/// names separated by commas.
pub open spec fn p_params(s: Seq<char>, ts: Seq<Token>, i: int) -> Option<(Seq<Seq<char>>, int)>
    decreases ts.len() - i,
{
    if i < 0 || !kind_at(ts, i, TokKind::Ident) {
        None
    } else {
        let x = tok_text(s, ts[i]);
        if kind_at(ts, i + 1, TokKind::Comma) {
            match p_params(s, ts, i + 2) {
                None => None,
                Some((rest, k)) => Some((seq![x] + rest, k)),
            }
        } else if kind_at(ts, i + 1, TokKind::RParen) {
            Some((seq![x], i + 2))
        } else {
            None
        }
    }
}

/// `operator: Name` or `operator: Name(p, ...)` at token `i`.
pub open spec fn p_operator(s: Seq<char>, ts: Seq<Token>, i: int) -> Option<(OperatorV, int)> {
    if kw_at(s, ts, i, "operator"@) && kind_at(ts, i + 1, TokKind::Colon) && kind_at(
        ts,
        i + 2,
        TokKind::Ident,
    ) {
        let name = tok_text(s, ts[i + 2]);
        if kind_at(ts, i + 3, TokKind::LParen) {
            match p_params(s, ts, i + 4) {
                None => None,
                Some((params, j)) => Some((OperatorV { name, params }, j)),
            }
        } else {
            Some((OperatorV { name, params: Seq::empty() }, i + 3))
        }
    } else {
        None
    }
}

/// An optional `kw: [conditions]` section at token `i`.
pub open spec fn p_cond_section(s: Seq<char>, ts: Seq<Token>, fl: Seq<(Seq<char>, u32)>, i: int, kw: Seq<char>) -> Option<
    (Result<Seq<CondV>, ErrV>, int),
> {
    if kw_at(s, ts, i, kw) {
        if kind_at(ts, i + 1, TokKind::Colon) && kind_at(ts, i + 2, TokKind::LBracket) {
            p_conds(s, ts, fl, i + 3)
        } else {
            None
        }
    } else {
        Some((Ok(Seq::empty()), i))
    }
}

/// An optional `kw: [effects]` section at token `i`.
pub open spec fn p_effect_section(s: Seq<char>, ts: Seq<Token>, fl: Seq<(Seq<char>, u32)>, i: int, kw: Seq<char>) -> Option<
    (Result<Seq<EffV>, ErrV>, int),
> {
    if kw_at(s, ts, i, kw) {
        if kind_at(ts, i + 1, TokKind::Colon) && kind_at(ts, i + 2, TokKind::LBracket) {
            p_effects(s, ts, fl, i + 3)
        } else {
            None
        }
    } else {
        Some((Ok(Seq::empty()), i))
    }
}

/// An optional `subtasks: [names]` section at token `i`.
pub open spec fn p_subtasks(s: Seq<char>, ts: Seq<Token>, i: int) -> Option<(Seq<Seq<char>>, int)> {
    if kw_at(s, ts, i, "subtasks"@) {
        if kind_at(ts, i + 1, TokKind::Colon) && kind_at(ts, i + 2, TokKind::LBracket) {
            p_names(s, ts, i + 3)
        } else {
            None
        }
    } else {
        Some((Seq::empty(), i))
    }
}

/// `primitive_task "Name" { operator preconditions? effects? expected_effects? }`
/// at token `i`; the sections come in this order.
pub open spec fn p_primitive(s: Seq<char>, ts: Seq<Token>, fl: Seq<(Seq<char>, u32)>, i: int) -> Option<(Result<PrimitiveV, ErrV>, int)> {
    if kw_at(s, ts, i, "primitive_task"@) && kind_at(ts, i + 1, TokKind::Str) && kind_at(
        ts,
        i + 2,
        TokKind::LBrace,
    ) {
        let name = str_content(s, ts[i + 1]);
        match p_operator(s, ts, i + 3) {
            None => None,
            Some((op, j1)) => match p_cond_section(s, ts, fl, j1, "preconditions"@) {
                None => None,
                Some((pre, j2)) => match p_effect_section(s, ts, fl, j2, "effects"@) {
                    None => None,
                    Some((eff, j3)) => match p_effect_section(s, ts, fl, j3, "expected_effects"@) {
                        None => None,
                        Some((exp, j4)) => if kind_at(ts, j4, TokKind::RBrace) {
                            Some((primitive_result(name, op, pre, eff, exp), j4 + 1))
                        } else {
                            None
                        },
                    },
                },
            },
        }
    } else {
        None
    }
}

/// A primitive task from its parts: the first error among its
/// preconditions, effects and expected effects, or the task.
pub open spec fn primitive_result(
    name: Seq<char>,
    op: OperatorV,
    pre: Result<Seq<CondV>, ErrV>,
    eff: Result<Seq<EffV>, ErrV>,
    exp: Result<Seq<EffV>, ErrV>,
) -> Result<PrimitiveV, ErrV> {
    match (pre, eff, exp) {
        (Err(e), _, _) => Err(e),
        (Ok(_), Err(e), _) => Err(e),
        (Ok(_), Ok(_), Err(e)) => Err(e),
        (Ok(p), Ok(f), Ok(x)) => Ok(
            PrimitiveV { name, operator: op, preconditions: p, effects: f, expected_effects: x },
        ),
    }
}

/// `method "Name"? { preconditions? subtasks? }` at token `i`.
pub open spec fn p_method(s: Seq<char>, ts: Seq<Token>, fl: Seq<(Seq<char>, u32)>, i: int) -> Option<(Result<MethodV, ErrV>, int)> {
    if kw_at(s, ts, i, "method"@) {
        let named = kind_at(ts, i + 1, TokKind::Str);
        let name = if named { Some(str_content(s, ts[i + 1])) } else { None };
        let k = if named { i + 2 } else { i + 1 };
        if kind_at(ts, k, TokKind::LBrace) {
            match p_cond_section(s, ts, fl, k + 1, "preconditions"@) {
                None => None,
                Some((pre, j2)) => match p_subtasks(s, ts, j2) {
                    None => None,
                    Some((subs, j3)) => if kind_at(ts, j3, TokKind::RBrace) {
                        let r = match pre {
                            Err(e) => Err(e),
                            Ok(p) => Ok(MethodV { name, preconditions: p, subtasks: subs }),
                        };
                        Some((r, j3 + 1))
                    } else {
                        None
                    },
                },
            }
        } else {
            None
        }
    } else {
        None
    }
}

/// The methods from token `i` on, up to the first token that does not
/// start one.
pub open spec fn p_methods(s: Seq<char>, ts: Seq<Token>, fl: Seq<(Seq<char>, u32)>, i: int) -> Option<(Result<Seq<MethodV>, ErrV>, int)>
    decreases ts.len() - i,
{
    if i < 0 || i >= ts.len() {
        None
    } else if kw_at(s, ts, i, "method"@) {
        match p_method(s, ts, fl, i) {
            None => None,
            Some((m, j)) => if j <= i {
                None
            } else {
                match p_methods(s, ts, fl, j) {
                    None => None,
                    Some((rest, k)) => Some((cons(m, rest), k)),
                }
            },
        }
    } else {
        Some((Ok(Seq::empty()), i))
    }
}

/// `compound_task "Name" { method* }` at token `i`.
pub open spec fn p_compound(s: Seq<char>, ts: Seq<Token>, fl: Seq<(Seq<char>, u32)>, i: int) -> Option<(Result<CompoundV, ErrV>, int)> {
    if kw_at(s, ts, i, "compound_task"@) && kind_at(ts, i + 1, TokKind::Str) && kind_at(
        ts,
        i + 2,
        TokKind::LBrace,
    ) {
        let name = str_content(s, ts[i + 1]);
        match p_methods(s, ts, fl, i + 3) {
            None => None,
            Some((ms, j)) => if kind_at(ts, j, TokKind::RBrace) {
                let r = match ms {
                    Err(e) => Err(e),
                    Ok(m) => Ok(CompoundV { name, methods: m }),
                };
                Some((r, j + 1))
            } else {
                None
            },
        }
    } else {
        None
    }
}

/// `schema { version: X.Y.Z }` at token `i`: the version.
pub open spec fn p_schema(s: Seq<char>, ts: Seq<Token>, i: int) -> Option<(Seq<char>, int)> {
    if kw_at(s, ts, i, "schema"@) && kind_at(ts, i + 1, TokKind::LBrace) && kw_at(
        s,
        ts,
        i + 2,
        "version"@,
    ) && kind_at(ts, i + 3, TokKind::Colon) && kind_at(ts, i + 4, TokKind::SemVer) && kind_at(
        ts,
        i + 5,
        TokKind::RBrace,
    ) {
        Some((tok_text(s, ts[i + 4]), i + 6))
    } else {
        None
    }
}

/// The tasks and the last declared version of the items from token `i` to
/// the end: schema blocks, primitive tasks and compound tasks, in any order.
pub open spec fn p_items(s: Seq<char>, ts: Seq<Token>, fl: Seq<(Seq<char>, u32)>, i: int) -> Option<
    Result<(Seq<TaskV>, Option<Seq<char>>), ErrV>,
>
    decreases ts.len() - i,
{
    if i < 0 || i > ts.len() {
        None
    } else if i == ts.len() {
        Some(Ok((Seq::empty(), None)))
    } else if kw_at(s, ts, i, "schema"@) {
        match p_schema(s, ts, i) {
            None => None,
            Some((v, j)) => match p_items(s, ts, fl, j) {
                None => None,
                Some(Err(e)) => Some(Err(e)),
                Some(Ok((tasks, ver))) => Some(
                    Ok((tasks, if ver is Some { ver } else { Some(v) })),
                ),
            },
        }
    } else if kw_at(s, ts, i, "primitive_task"@) {
        match p_primitive(s, ts, fl, i) {
            None => None,
            Some((p, j)) => if j <= i {
                None
            } else {
                match p_items(s, ts, fl, j) {
                    None => None,
                    Some(rest) => Some(
                        match (p, rest) {
                            (Err(e), _) => Err(e),
                            (Ok(_), Err(e)) => Err(e),
                            (Ok(t), Ok((tasks, ver))) => Ok(
                                (seq![TaskV::Primitive(t)] + tasks, ver),
                            ),
                        },
                    ),
                }
            },
        }
    } else if kw_at(s, ts, i, "compound_task"@) {
        match p_compound(s, ts, fl, i) {
            None => None,
            Some((c, j)) => if j <= i {
                None
            } else {
                match p_items(s, ts, fl, j) {
                    None => None,
                    Some(rest) => Some(
                        match (c, rest) {
                            (Err(e), _) => Err(e),
                            (Ok(_), Err(e)) => Err(e),
                            (Ok(t), Ok((tasks, ver))) => Ok((seq![TaskV::Compound(t)] + tasks, ver)),
                        },
                    ),
                }
            },
        }
    } else {
        None
    }
}

/// The message of a syntax error.
pub open spec fn syntax_error() -> ErrV {
    ErrV::ParserError { details: "the input does not follow the task network grammar"@ }
}

/// The result of reading a task network from its text, with `fl` giving
/// the `f32` that each floating-point literal reads as: the tokens must
/// form the grammar; then the first error in reading literals, conditions
/// and effects, in text order, is the result; otherwise the network, whose
/// version is that of the last schema block (empty when there is none).
pub open spec fn parse_spec(input: Seq<char>, fl: Seq<(Seq<char>, u32)>) -> Result<HtnV, ErrV> {
    match lex(input) {
        None => Err(syntax_error()),
        Some(ts) => match p_items(input, ts, fl, 0) {
            None => Err(syntax_error()),
            Some(Err(e)) => Err(e),
            Some(Ok((tasks, ver))) => Ok(
                HtnV {
                    tasks,
                    version: match ver {
                        Some(v) => v,
                        None => Seq::empty(),
                    },
                },
            ),
        },
    }
}


/// The model of a condition result.
pub open spec fn rv_cond(r: Result<HtnCondition, HtnErr>) -> Result<CondV, ErrV> {
    match r {
        Ok(c) => Ok(c@),
        Err(e) => Err(e@),
    }
}

/// The model of an effect result.
pub open spec fn rv_effect(r: Result<Effect, HtnErr>) -> Result<EffV, ErrV> {
    match r {
        Ok(c) => Ok(c@),
        Err(e) => Err(e@),
    }
}

/// The model of a conditions result.
pub open spec fn rv_conds(r: Result<Vec<HtnCondition>, HtnErr>) -> Result<Seq<CondV>, ErrV> {
    match r {
        Ok(c) => Ok(conds_view(c@)),
        Err(e) => Err(e@),
    }
}

/// The model of an effects result.
pub open spec fn rv_effects(r: Result<Vec<Effect>, HtnErr>) -> Result<Seq<EffV>, ErrV> {
    match r {
        Ok(c) => Ok(effs_view(c@)),
        Err(e) => Err(e@),
    }
}

fn kind_at_exec(ts: &Vec<Token>, i: usize, k: TokKind) -> (r: bool)
    ensures
        r == kind_at(ts@, i as int, k),
        r ==> i < ts@.len() <= usize::MAX,
{
    i < ts.len() && ts[i].kind == k
}

fn text_eq(s: &Vec<char>, start: usize, end: usize, kw: &str) -> (r: bool)
    requires
        start <= end <= s@.len(),
    ensures
        r == (s@.subrange(start as int, end as int) == kw@),
{
    let n = kw.unicode_len();
    if end - start != n {
        return false;
    }
    let mut k: usize = 0;
    while k < n
        invariant
            n == kw@.len(),
            end - start == n,
            start <= end <= s@.len(),
            0 <= k <= n,
            forall|j: int| 0 <= j < k ==> s@[start + j] == kw@[j],
        decreases n - k,
    {
        if s[start + k] != kw.get_char(k) {
            assert(s@.subrange(start as int, end as int)[k as int] != kw@[k as int]);
            return false;
        }
        k = k + 1;
    }
    assert(s@.subrange(start as int, end as int) =~= kw@);
    true
}

fn kw_at_exec(s: &Vec<char>, ts: &Vec<Token>, i: usize, kw: &str) -> (r: bool)
    requires
        toks_wf(s@, ts@),
    ensures
        r == kw_at(s@, ts@, i as int, kw@),
        r ==> i < ts@.len() <= usize::MAX,
{
    if i < ts.len() && ts[i].kind == TokKind::Ident {
        assert(token_wf(s@, ts@[i as int]));
        text_eq(s, ts[i].start, ts[i].end, kw)
    } else {
        false
    }
}

fn tok_string(s: &Vec<char>, ts: &Vec<Token>, i: usize) -> (r: String)
    requires
        toks_wf(s@, ts@),
        i < ts@.len(),
    ensures
        r@ == tok_text(s@, ts@[i as int]),
{
    assert(token_wf(s@, ts@[i as int]));
    string_of(s, ts[i].start, ts[i].end)
}

fn str_string(s: &Vec<char>, ts: &Vec<Token>, i: usize) -> (r: String)
    requires
        toks_wf(s@, ts@),
        kind_at(ts@, i as int, TokKind::Str),
    ensures
        r@ == str_content(s@, ts@[i as int]),
{
    assert(token_wf(s@, ts@[i as int]));
    string_of(s, ts[i].start + 1, ts[i].end - 1)
}

fn value_at_exec(s: &Vec<char>, ts: &Vec<Token>, i: usize) -> (r: Option<(ValKind, String)>)
    requires
        toks_wf(s@, ts@),
    ensures
        r matches Some((k, x)) ==> value_at(s@, ts@, i as int) == Some(valtok_of(k, x@)),
        r is None ==> value_at(s@, ts@, i as int) is None,
{
    if i >= ts.len() {
        return None;
    }
    let k = ts[i].kind;
    match k {
        TokKind::Int => Some((ValKind::Int, tok_string(s, ts, i))),
        TokKind::Float => Some((ValKind::Float, tok_string(s, ts, i))),
        TokKind::EnumPath => Some((ValKind::EnumPath, tok_string(s, ts, i))),
        TokKind::Ident => {
            let x = tok_string(s, ts, i);
            if kw_at_exec(s, ts, i, "true") {
                Some((ValKind::Bool(true), x))
            } else if kw_at_exec(s, ts, i, "false") {
                Some((ValKind::Bool(false), x))
            } else if kw_at_exec(s, ts, i, "None") {
                Some((ValKind::NoneLit, x))
            } else {
                Some((ValKind::Ident, x))
            }
        },
        _ => None,
    }
}

fn bad_condition_exec(syntax: String) -> (r: HtnErr)
    ensures
        r@ == bad_condition(syntax@),
{
    let d = join(join(text("Unsupported condition `"), syntax.as_str()), "`");
    HtnErr::Condition { syntax, details: d }
}

fn bad_effect_exec(syntax: String) -> (r: HtnErr)
    ensures
        r@ == bad_effect(syntax@),
{
    let d = join(join(text("Unsupported effect type: `"), syntax.as_str()), "`");
    HtnErr::Effect { syntax, details: d }
}

fn build_cond_exec(fl: &Vec<FloatReading>, field: String, op: TokKind, k: ValKind, x: String, syntax: String) -> (r: Result<
    HtnCondition,
    HtnErr,
>)
    requires
        is_comparison(op),
    ensures
        rv_cond(r) == build_cond(readings_view(fl@), field@, op, valtok_of(k, x@), syntax@),
{
    let gt = op == TokKind::Ge || op == TokKind::Gt;
    let lt = op == TokKind::Le || op == TokKind::Lt;
    let notted = op == TokKind::NotEq;
    match k {
        ValKind::Int => match parse_i32(x.as_str(), syntax.as_str()) {
            Err(e) => Err(e),
            Ok(t) => if gt {
                Ok(HtnCondition::GreaterThanInt { field, threshold: t, orequals: op == TokKind::Ge, syntax })
            } else if lt {
                Ok(HtnCondition::LessThanInt { field, threshold: t, orequals: op == TokKind::Le, syntax })
            } else {
                Ok(HtnCondition::EqualsInt { field, value: t, notted, syntax })
            },
        },
        ValKind::Float => match parse_f32(&x, &syntax, fl) {
            Err(e) => Err(e),
            Ok(t) => if gt {
                Ok(HtnCondition::GreaterThanFloat { field, threshold: t, orequals: op == TokKind::Ge, syntax })
            } else if lt {
                Ok(HtnCondition::LessThanFloat { field, threshold: t, orequals: op == TokKind::Le, syntax })
            } else {
                Ok(HtnCondition::EqualsFloat { field, value: t, notted, syntax })
            },
        },
        ValKind::Ident => if gt {
            Ok(HtnCondition::GreaterThanIdentifier { field, other_field: x, orequals: op == TokKind::Ge, syntax })
        } else if lt {
            Ok(HtnCondition::LessThanIdentifier { field, other_field: x, orequals: op == TokKind::Le, syntax })
        } else {
            Ok(HtnCondition::EqualsIdentifier { field, other_field: x, notted, syntax })
        },
        ValKind::Bool(b) => if gt || lt {
            Err(bad_condition_exec(syntax))
        } else {
            Ok(HtnCondition::EqualsBool { field, value: b, notted, syntax })
        },
        ValKind::NoneLit => if gt || lt {
            Err(bad_condition_exec(syntax))
        } else if notted {
            Ok(HtnCondition::IsSome { field, syntax })
        } else {
            Ok(HtnCondition::IsNone { field, syntax })
        },
        ValKind::EnumPath => if gt || lt {
            Err(bad_condition_exec(syntax))
        } else {
            match parse_enum(x.as_str(), syntax.as_str()) {
                Err(e) => Err(e),
                Ok((a, b)) => Ok(HtnCondition::EqualsEnum { field, enum_type: a, enum_variant: b, notted, syntax }),
            }
        },
    }
}

fn neg_i32_exec(i: i32) -> (r: i32)
    ensures
        r == neg_i32(i),
{
    if i == i32::MIN { i32::MIN } else { -i }
}

fn build_effect_exec(fl: &Vec<FloatReading>, field: String, op: TokKind, k: ValKind, x: String, syntax: String) -> (r: Result<
    Effect,
    HtnErr,
>)
    requires
        is_assign(op),
    ensures
        rv_effect(r) == build_effect(readings_view(fl@), field@, op, valtok_of(k, x@), syntax@),
{
    if op == TokKind::Assign {
        match k {
            ValKind::Bool(b) => Ok(Effect::SetBool { field, value: b, syntax }),
            ValKind::Int => match parse_i32(x.as_str(), syntax.as_str()) {
                Err(e) => Err(e),
                Ok(i) => Ok(Effect::SetInt { field, value: i, syntax }),
            },
            ValKind::Float => match parse_f32(&x, &syntax, fl) {
                Err(e) => Err(e),
                Ok(b) => Ok(Effect::SetFloat { field, value: b, syntax }),
            },
            ValKind::EnumPath => match parse_enum(x.as_str(), syntax.as_str()) {
                Err(e) => Err(e),
                Ok((a, b)) => Ok(Effect::SetEnum { field, enum_type: a, enum_variant: b, syntax }),
            },
            ValKind::NoneLit => Ok(Effect::SetNone { field, syntax }),
            ValKind::Ident => Ok(Effect::SetIdentifier { field, field_source: x, syntax }),
        }
    } else {
        match k {
            ValKind::Int => match parse_i32(x.as_str(), syntax.as_str()) {
                Err(e) => Err(e),
                Ok(i) => {
                    let by = if op == TokKind::PlusAssign { i } else { neg_i32_exec(i) };
                    Ok(Effect::IncrementInt { field, by, syntax })
                },
            },
            _ => Err(bad_effect_exec(syntax)),
        }
    }
}

#[verifier::rlimit(30)]
fn parse_condition(s: &Vec<char>, ts: &Vec<Token>, fl: &Vec<FloatReading>, i: usize) -> (r: Option<(Result<HtnCondition, HtnErr>, usize)>)
    requires
        toks_wf(s@, ts@),
    ensures
        match r {
            Some((c, j)) => p_cond(s@, ts@, readings_view(fl@), i as int) == Some((rv_cond(c), j as int)),
            None => p_cond(s@, ts@, readings_view(fl@), i as int) is None,
        },
{
    if !(i < ts.len() && ts[i].kind == TokKind::Ident && ts.len() - i > 2) {
        return None;
    }
    let op = ts[i + 1].kind;
    if !(op == TokKind::EqEq || op == TokKind::NotEq || op == TokKind::Ge || op == TokKind::Gt
        || op == TokKind::Le || op == TokKind::Lt) {
        return None;
    }
    match value_at_exec(s, ts, i + 2) {
        None => None,
        Some((k, x)) => {
            assert(token_wf(s@, ts@[i as int]));
            assert(token_wf(s@, ts@[i + 2]));
            assert(ts@[i as int].end <= ts@[i + 1].start);
            assert(ts@[i + 1].end <= ts@[i + 2].start);
            let syntax = string_of(s, ts[i].start, ts[i + 2].end);
            let field = tok_string(s, ts, i);
            Some((build_cond_exec(fl, field, op, k, x, syntax), i + 3))
        },
    }
}

#[verifier::rlimit(30)]
fn parse_effect(s: &Vec<char>, ts: &Vec<Token>, fl: &Vec<FloatReading>, i: usize) -> (r: Option<(Result<Effect, HtnErr>, usize)>)
    requires
        toks_wf(s@, ts@),
    ensures
        match r {
            Some((c, j)) => p_effect(s@, ts@, readings_view(fl@), i as int) == Some((rv_effect(c), j as int)),
            None => p_effect(s@, ts@, readings_view(fl@), i as int) is None,
        },
{
    if !(i < ts.len() && ts[i].kind == TokKind::Ident && ts.len() - i > 2) {
        return None;
    }
    let op = ts[i + 1].kind;
    if !(op == TokKind::Assign || op == TokKind::PlusAssign || op == TokKind::MinusAssign) {
        return None;
    }
    match value_at_exec(s, ts, i + 2) {
        None => None,
        Some((k, x)) => {
            assert(token_wf(s@, ts@[i as int]));
            assert(token_wf(s@, ts@[i + 2]));
            assert(ts@[i as int].end <= ts@[i + 1].start);
            assert(ts@[i + 1].end <= ts@[i + 2].start);
            let syntax = string_of(s, ts[i].start, ts[i + 2].end);
            let field = tok_string(s, ts, i);
            Some((build_effect_exec(fl, field, op, k, x, syntax), i + 3))
        },
    }
}

fn cons_conds(c: Result<HtnCondition, HtnErr>, rest: Result<Vec<HtnCondition>, HtnErr>) -> (r: Result<
    Vec<HtnCondition>,
    HtnErr,
>)
    ensures
        rv_conds(r) == cons(rv_cond(c), rv_conds(rest)),
{
    match c {
        Err(e) => Err(e),
        Ok(x) => match rest {
            Err(e) => Err(e),
            Ok(v) => {
                let ghost old_v = v@;
                let mut v = v;
                v.insert(0, x);
                assert(conds_view(v@) =~= seq![x@] + conds_view(old_v));
                Ok(v)
            },
        },
    }
}

fn cons_effects(c: Result<Effect, HtnErr>, rest: Result<Vec<Effect>, HtnErr>) -> (r: Result<
    Vec<Effect>,
    HtnErr,
>)
    ensures
        rv_effects(r) == cons(rv_effect(c), rv_effects(rest)),
{
    match c {
        Err(e) => Err(e),
        Ok(x) => match rest {
            Err(e) => Err(e),
            Ok(v) => {
                let ghost old_v = v@;
                let mut v = v;
                v.insert(0, x);
                assert(effs_view(v@) =~= seq![x@] + effs_view(old_v));
                Ok(v)
            },
        },
    }
}

fn parse_conditions(s: &Vec<char>, ts: &Vec<Token>, fl: &Vec<FloatReading>, i: usize) -> (r: Option<(Result<Vec<HtnCondition>, HtnErr>, usize)>)
    requires
        toks_wf(s@, ts@),
    ensures
        match r {
            Some((c, j)) => p_conds(s@, ts@, readings_view(fl@), i as int) == Some((rv_conds(c), j as int)),
            None => p_conds(s@, ts@, readings_view(fl@), i as int) is None,
        },
    decreases ts@.len() - i,
{
    if i >= ts.len() {
        return None;
    }
    if ts[i].kind == TokKind::RBracket {
        let empty: Vec<HtnCondition> = Vec::new();
        assert(conds_view(empty@) =~= Seq::<CondV>::empty());
        return Some((Ok(empty), i + 1));
    }
    match parse_condition(s, ts, fl, i) {
        None => None,
        Some((c, j)) => {
            if kind_at_exec(ts, j, TokKind::Comma) {
                match parse_conditions(s, ts, fl, j + 1) {
                    None => None,
                    Some((rest, k)) => Some((cons_conds(c, rest), k)),
                }
            } else if kind_at_exec(ts, j, TokKind::RBracket) {
                let empty: Vec<HtnCondition> = Vec::new();
                assert(conds_view(empty@) =~= Seq::<CondV>::empty());
                Some((cons_conds(c, Ok(empty)), j + 1))
            } else {
                None
            }
        },
    }
}

fn parse_effects(s: &Vec<char>, ts: &Vec<Token>, fl: &Vec<FloatReading>, i: usize) -> (r: Option<(Result<Vec<Effect>, HtnErr>, usize)>)
    requires
        toks_wf(s@, ts@),
    ensures
        match r {
            Some((c, j)) => p_effects(s@, ts@, readings_view(fl@), i as int) == Some((rv_effects(c), j as int)),
            None => p_effects(s@, ts@, readings_view(fl@), i as int) is None,
        },
    decreases ts@.len() - i,
{
    if i >= ts.len() {
        return None;
    }
    if ts[i].kind == TokKind::RBracket {
        let empty: Vec<Effect> = Vec::new();
        assert(effs_view(empty@) =~= Seq::<EffV>::empty());
        return Some((Ok(empty), i + 1));
    }
    match parse_effect(s, ts, fl, i) {
        None => None,
        Some((c, j)) => {
            if kind_at_exec(ts, j, TokKind::Comma) {
                match parse_effects(s, ts, fl, j + 1) {
                    None => None,
                    Some((rest, k)) => Some((cons_effects(c, rest), k)),
                }
            } else if kind_at_exec(ts, j, TokKind::RBracket) {
                let empty: Vec<Effect> = Vec::new();
                assert(effs_view(empty@) =~= Seq::<EffV>::empty());
                Some((cons_effects(c, Ok(empty)), j + 1))
            } else {
                None
            }
        },
    }
}

fn parse_names(s: &Vec<char>, ts: &Vec<Token>, i: usize) -> (r: Option<(Vec<String>, usize)>)
    requires
        toks_wf(s@, ts@),
    ensures
        match r {
            Some((v, j)) => p_names(s@, ts@, i as int) == Some((texts_view(v@), j as int)),
            None => p_names(s@, ts@, i as int) is None,
        },
    decreases ts@.len() - i,
{
    if i >= ts.len() {
        return None;
    }
    if ts[i].kind == TokKind::RBracket {
        let empty: Vec<String> = Vec::new();
        assert(texts_view(empty@) =~= Seq::<Seq<char>>::empty());
        return Some((empty, i + 1));
    }
    if ts[i].kind != TokKind::Ident {
        return None;
    }
    let x = tok_string(s, ts, i);
    if kind_at_exec(ts, i + 1, TokKind::Comma) {
        match parse_names(s, ts, i + 2) {
            None => None,
            Some((rest, k)) => {
                let ghost old_v = rest@;
                let mut v = rest;
                v.insert(0, x);
                assert(texts_view(v@) =~= seq![x@] + texts_view(old_v));
                Some((v, k))
            },
        }
    } else if kind_at_exec(ts, i + 1, TokKind::RBracket) {
        let mut v: Vec<String> = Vec::new();
        v.push(x);
        assert(texts_view(v@) =~= seq![x@]);
        Some((v, i + 2))
    } else {
        None
    }
}

fn parse_params(s: &Vec<char>, ts: &Vec<Token>, i: usize) -> (r: Option<(Vec<String>, usize)>)
    requires
        toks_wf(s@, ts@),
    ensures
        match r {
            Some((v, j)) => p_params(s@, ts@, i as int) == Some((texts_view(v@), j as int)),
            None => p_params(s@, ts@, i as int) is None,
        },
    decreases ts@.len() - i,
{
    if !kind_at_exec(ts, i, TokKind::Ident) {
        return None;
    }
    let x = tok_string(s, ts, i);
    if kind_at_exec(ts, i + 1, TokKind::Comma) {
        match parse_params(s, ts, i + 2) {
            None => None,
            Some((rest, k)) => {
                let ghost old_v = rest@;
                let mut v = rest;
                v.insert(0, x);
                assert(texts_view(v@) =~= seq![x@] + texts_view(old_v));
                Some((v, k))
            },
        }
    } else if kind_at_exec(ts, i + 1, TokKind::RParen) {
        let mut v: Vec<String> = Vec::new();
        v.push(x);
        assert(texts_view(v@) =~= seq![x@]);
        Some((v, i + 2))
    } else {
        None
    }
}

fn parse_operator(s: &Vec<char>, ts: &Vec<Token>, i: usize) -> (r: Option<(Operator, usize)>)
    requires
        toks_wf(s@, ts@),
    ensures
        match r {
            Some((o, j)) => p_operator(s@, ts@, i as int) == Some((o@, j as int)),
            None => p_operator(s@, ts@, i as int) is None,
        },
{
    if !(kw_at_exec(s, ts, i, "operator") && kind_at_exec(ts, i + 1, TokKind::Colon)
        && kind_at_exec(ts, i + 2, TokKind::Ident)) {
        return None;
    }
    let name = tok_string(s, ts, i + 2);
    if kind_at_exec(ts, i + 3, TokKind::LParen) {
        match parse_params(s, ts, i + 4) {
            None => None,
            Some((params, j)) => Some((Operator::Trigger { name, params }, j)),
        }
    } else {
        let params: Vec<String> = Vec::new();
        assert(texts_view(params@) =~= Seq::<Seq<char>>::empty());
        Some((Operator::Trigger { name, params }, i + 3))
    }
}

fn parse_cond_section(s: &Vec<char>, ts: &Vec<Token>, fl: &Vec<FloatReading>, i: usize, kw: &str) -> (r: Option<
    (Result<Vec<HtnCondition>, HtnErr>, usize),
>)
    requires
        toks_wf(s@, ts@),
    ensures
        match r {
            Some((c, j)) => p_cond_section(s@, ts@, readings_view(fl@), i as int, kw@) == Some((rv_conds(c), j as int)),
            None => p_cond_section(s@, ts@, readings_view(fl@), i as int, kw@) is None,
        },
{
    if kw_at_exec(s, ts, i, kw) {
        if kind_at_exec(ts, i + 1, TokKind::Colon) && kind_at_exec(ts, i + 2, TokKind::LBracket) {
            parse_conditions(s, ts, fl, i + 3)
        } else {
            None
        }
    } else {
        let empty: Vec<HtnCondition> = Vec::new();
        assert(conds_view(empty@) =~= Seq::<CondV>::empty());
        Some((Ok(empty), i))
    }
}

fn parse_effect_section(s: &Vec<char>, ts: &Vec<Token>, fl: &Vec<FloatReading>, i: usize, kw: &str) -> (r: Option<
    (Result<Vec<Effect>, HtnErr>, usize),
>)
    requires
        toks_wf(s@, ts@),
    ensures
        match r {
            Some((c, j)) => p_effect_section(s@, ts@, readings_view(fl@), i as int, kw@) == Some((rv_effects(c), j as int)),
            None => p_effect_section(s@, ts@, readings_view(fl@), i as int, kw@) is None,
        },
{
    if kw_at_exec(s, ts, i, kw) {
        if kind_at_exec(ts, i + 1, TokKind::Colon) && kind_at_exec(ts, i + 2, TokKind::LBracket) {
            parse_effects(s, ts, fl, i + 3)
        } else {
            None
        }
    } else {
        let empty: Vec<Effect> = Vec::new();
        assert(effs_view(empty@) =~= Seq::<EffV>::empty());
        Some((Ok(empty), i))
    }
}

fn parse_subtasks(s: &Vec<char>, ts: &Vec<Token>, i: usize) -> (r: Option<(Vec<String>, usize)>)
    requires
        toks_wf(s@, ts@),
    ensures
        match r {
            Some((v, j)) => p_subtasks(s@, ts@, i as int) == Some((texts_view(v@), j as int)),
            None => p_subtasks(s@, ts@, i as int) is None,
        },
{
    if kw_at_exec(s, ts, i, "subtasks") {
        if kind_at_exec(ts, i + 1, TokKind::Colon) && kind_at_exec(ts, i + 2, TokKind::LBracket) {
            parse_names(s, ts, i + 3)
        } else {
            None
        }
    } else {
        let empty: Vec<String> = Vec::new();
        assert(texts_view(empty@) =~= Seq::<Seq<char>>::empty());
        Some((empty, i))
    }
}

#[verifier::rlimit(30)]
fn parse_primitive(s: &Vec<char>, ts: &Vec<Token>, fl: &Vec<FloatReading>, i: usize) -> (r: Option<(Result<PrimitiveTask, HtnErr>, usize)>)
    requires
        toks_wf(s@, ts@),
    ensures
        match r {
            Some((Ok(t), j)) => p_primitive(s@, ts@, readings_view(fl@), i as int) == Some((Ok::<PrimitiveV, ErrV>(t@), j as int)),
            Some((Err(e), j)) => p_primitive(s@, ts@, readings_view(fl@), i as int) == Some((Err::<PrimitiveV, ErrV>(e@), j as int)),
            None => p_primitive(s@, ts@, readings_view(fl@), i as int) is None,
        },
{
    if !(kw_at_exec(s, ts, i, "primitive_task") && kind_at_exec(ts, i + 1, TokKind::Str)
        && kind_at_exec(ts, i + 2, TokKind::LBrace)) {
        return None;
    }
    let name = str_string(s, ts, i + 1);
    let (operator, j1) = match parse_operator(s, ts, i + 3) {
        None => return None,
        Some(x) => x,
    };
    let (pre, j2) = match parse_cond_section(s, ts, fl, j1, "preconditions") {
        None => return None,
        Some(x) => x,
    };
    let (eff, j3) = match parse_effect_section(s, ts, fl, j2, "effects") {
        None => return None,
        Some(x) => x,
    };
    let (exp, j4) = match parse_effect_section(s, ts, fl, j3, "expected_effects") {
        None => return None,
        Some(x) => x,
    };
    if !kind_at_exec(ts, j4, TokKind::RBrace) {
        return None;
    }
    Some((build_primitive(name, operator, pre, eff, exp), j4 + 1))
}

fn build_primitive(
    name: String,
    operator: Operator,
    pre: Result<Vec<HtnCondition>, HtnErr>,
    eff: Result<Vec<Effect>, HtnErr>,
    exp: Result<Vec<Effect>, HtnErr>,
) -> (r: Result<PrimitiveTask, HtnErr>)
    ensures
        match r {
            Ok(t) => primitive_result(name@, operator@, rv_conds(pre), rv_effects(eff), rv_effects(exp))
                == Ok::<PrimitiveV, ErrV>(t@),
            Err(e) => primitive_result(name@, operator@, rv_conds(pre), rv_effects(eff), rv_effects(exp))
                == Err::<PrimitiveV, ErrV>(e@),
        },
{
    match pre {
        Err(e) => Err(e),
        Ok(preconditions) => match eff {
            Err(e) => Err(e),
            Ok(effects) => match exp {
                Err(e) => Err(e),
                Ok(expected_effects) => Ok(
                    PrimitiveTask { name, operator, preconditions, effects, expected_effects },
                ),
            },
        },
    }
}

#[verifier::rlimit(30)]
fn parse_method(s: &Vec<char>, ts: &Vec<Token>, fl: &Vec<FloatReading>, i: usize) -> (r: Option<(Result<Method, HtnErr>, usize)>)
    requires
        toks_wf(s@, ts@),
    ensures
        match r {
            Some((Ok(m), j)) => p_method(s@, ts@, readings_view(fl@), i as int) == Some((Ok::<MethodV, ErrV>(m@), j as int)),
            Some((Err(e), j)) => p_method(s@, ts@, readings_view(fl@), i as int) == Some((Err::<MethodV, ErrV>(e@), j as int)),
            None => p_method(s@, ts@, readings_view(fl@), i as int) is None,
        },
{
    if !kw_at_exec(s, ts, i, "method") {
        return None;
    }
    let named = kind_at_exec(ts, i + 1, TokKind::Str);
    let name = if named {
        Some(str_string(s, ts, i + 1))
    } else {
        None
    };
    let k = if named {
        i + 2
    } else {
        i + 1
    };
    if !kind_at_exec(ts, k, TokKind::LBrace) {
        return None;
    }
    let (pre, j2) = match parse_cond_section(s, ts, fl, k + 1, "preconditions") {
        None => return None,
        Some(x) => x,
    };
    let (subtasks, j3) = match parse_subtasks(s, ts, j2) {
        None => return None,
        Some(x) => x,
    };
    if !kind_at_exec(ts, j3, TokKind::RBrace) {
        return None;
    }
    let r = match pre {
        Err(e) => Err(e),
        Ok(preconditions) => Ok(Method { name, preconditions, subtasks }),
    };
    Some((r, j3 + 1))
}

fn parse_methods(s: &Vec<char>, ts: &Vec<Token>, fl: &Vec<FloatReading>, i: usize) -> (r: Option<(Result<Vec<Method>, HtnErr>, usize)>)
    requires
        toks_wf(s@, ts@),
    ensures
        match r {
            Some((Ok(v), j)) => p_methods(s@, ts@, readings_view(fl@), i as int) == Some(
                (Ok::<Seq<MethodV>, ErrV>(v@.map_values(|m: Method| m@)), j as int),
            ),
            Some((Err(e), j)) => p_methods(s@, ts@, readings_view(fl@), i as int) == Some((Err::<Seq<MethodV>, ErrV>(e@), j as int)),
            None => p_methods(s@, ts@, readings_view(fl@), i as int) is None,
        },
    decreases ts@.len() - i,
{
    if i >= ts.len() {
        return None;
    }
    if !kw_at_exec(s, ts, i, "method") {
        let empty: Vec<Method> = Vec::new();
        assert(empty@.map_values(|m: Method| m@) =~= Seq::<MethodV>::empty());
        return Some((Ok(empty), i));
    }
    let (m, j) = match parse_method(s, ts, fl, i) {
        None => return None,
        Some(x) => x,
    };
    if j <= i {
        return None;
    }
    let (rest, k) = match parse_methods(s, ts, fl, j) {
        None => return None,
        Some(x) => x,
    };
    match m {
        Err(e) => Some((Err(e), k)),
        Ok(x) => match rest {
            Err(e) => Some((Err(e), k)),
            Ok(v) => {
                let ghost old_v = v@;
                let mut v = v;
                v.insert(0, x);
                assert(v@.map_values(|m: Method| m@) =~= seq![x@] + old_v.map_values(|m: Method| m@));
                Some((Ok(v), k))
            },
        },
    }
}

fn parse_compound(s: &Vec<char>, ts: &Vec<Token>, fl: &Vec<FloatReading>, i: usize) -> (r: Option<(Result<CompoundTask, HtnErr>, usize)>)
    requires
        toks_wf(s@, ts@),
    ensures
        match r {
            Some((Ok(t), j)) => p_compound(s@, ts@, readings_view(fl@), i as int) == Some((Ok::<CompoundV, ErrV>(t@), j as int)),
            Some((Err(e), j)) => p_compound(s@, ts@, readings_view(fl@), i as int) == Some((Err::<CompoundV, ErrV>(e@), j as int)),
            None => p_compound(s@, ts@, readings_view(fl@), i as int) is None,
        },
{
    if !(kw_at_exec(s, ts, i, "compound_task") && kind_at_exec(ts, i + 1, TokKind::Str)
        && kind_at_exec(ts, i + 2, TokKind::LBrace)) {
        return None;
    }
    let name = str_string(s, ts, i + 1);
    let (ms, j) = match parse_methods(s, ts, fl, i + 3) {
        None => return None,
        Some(x) => x,
    };
    if !kind_at_exec(ts, j, TokKind::RBrace) {
        return None;
    }
    let r = match ms {
        Err(e) => Err(e),
        Ok(methods) => Ok(CompoundTask { name, methods }),
    };
    Some((r, j + 1))
}

fn parse_schema(s: &Vec<char>, ts: &Vec<Token>, i: usize) -> (r: Option<(String, usize)>)
    requires
        toks_wf(s@, ts@),
    ensures
        match r {
            Some((v, j)) => p_schema(s@, ts@, i as int) == Some((v@, j as int)),
            None => p_schema(s@, ts@, i as int) is None,
        },
{
    if kw_at_exec(s, ts, i, "schema") && kind_at_exec(ts, i + 1, TokKind::LBrace) && kw_at_exec(
        s,
        ts,
        i + 2,
        "version",
    ) && kind_at_exec(ts, i + 3, TokKind::Colon) && kind_at_exec(ts, i + 4, TokKind::SemVer)
        && kind_at_exec(ts, i + 5, TokKind::RBrace) {
        Some((tok_string(s, ts, i + 4), i + 6))
    } else {
        None
    }
}

/// The model of an optional text.
pub open spec fn opt_text(o: Option<String>) -> Option<Seq<char>> {
    match o {
        Some(x) => Some(x@),
        None => None,
    }
}

/// The model of the result of reading items.
pub open spec fn rv_items(r: Result<(Vec<Task>, Option<String>), HtnErr>) -> Result<
    (Seq<TaskV>, Option<Seq<char>>),
    ErrV,
> {
    match r {
        Ok((v, ver)) => Ok((v@.map_values(|t: Task| t@), opt_text(ver))),
        Err(e) => Err(e@),
    }
}

fn push_front_task(t: Task, rest: Result<(Vec<Task>, Option<String>), HtnErr>) -> (r: Result<
    (Vec<Task>, Option<String>),
    HtnErr,
>)
    ensures
        match rv_items(rest) {
            Err(e) => rv_items(r) == Err::<(Seq<TaskV>, Option<Seq<char>>), ErrV>(e),
            Ok((tasks, ver)) => rv_items(r) == Ok::<(Seq<TaskV>, Option<Seq<char>>), ErrV>(
                (seq![t@] + tasks, ver),
            ),
        },
{
    match rest {
        Err(e) => Err(e),
        Ok((v, ver)) => {
            let ghost old_v = v@;
            let mut v = v;
            v.insert(0, t);
            assert(v@.map_values(|t: Task| t@) =~= seq![t@] + old_v.map_values(|t: Task| t@));
            Ok((v, ver))
        },
    }
}

#[verifier::rlimit(30)]
fn parse_items(s: &Vec<char>, ts: &Vec<Token>, fl: &Vec<FloatReading>, i: usize) -> (r: Option<Result<(Vec<Task>, Option<String>), HtnErr>>)
    requires
        toks_wf(s@, ts@),
        i <= ts@.len(),
    ensures
        match r {
            Some(x) => p_items(s@, ts@, readings_view(fl@), i as int) == Some(rv_items(x)),
            None => p_items(s@, ts@, readings_view(fl@), i as int) is None,
        },
    decreases ts@.len() - i,
{
    if i == ts.len() {
        let empty: Vec<Task> = Vec::new();
        assert(empty@.map_values(|t: Task| t@) =~= Seq::<TaskV>::empty());
        return Some(Ok((empty, None)));
    }
    if kw_at_exec(s, ts, i, "schema") {
        let (v, j) = match parse_schema(s, ts, i) {
            None => return None,
            Some(x) => x,
        };
        match parse_items(s, ts, fl, j) {
            None => None,
            Some(Err(e)) => Some(Err(e)),
            Some(Ok((tasks, ver))) => {
                let ver = match ver {
                    Some(x) => Some(x),
                    None => Some(v),
                };
                Some(Ok((tasks, ver)))
            },
        }
    } else if kw_at_exec(s, ts, i, "primitive_task") {
        let (p, j) = match parse_primitive(s, ts, fl, i) {
            None => return None,
            Some(x) => x,
        };
        if j <= i {
            return None;
        }
        let rest = match parse_items(s, ts, fl, j) {
            None => return None,
            Some(x) => x,
        };
        match p {
            Err(e) => Some(Err(e)),
            Ok(t) => Some(push_front_task(Task::Primitive(t), rest)),
        }
    } else if kw_at_exec(s, ts, i, "compound_task") {
        let (c, j) = match parse_compound(s, ts, fl, i) {
            None => return None,
            Some(x) => x,
        };
        if j <= i {
            return None;
        }
        let rest = match parse_items(s, ts, fl, j) {
            None => return None,
            Some(x) => x,
        };
        match c {
            Err(e) => Some(Err(e)),
            Ok(t) => Some(push_front_task(Task::Compound(t), rest)),
        }
    } else {
        None
    }
}

/// Reads a task network from its text (see [`parse_spec`]). `floats`
/// gives the `f32` that each floating-point literal of the text reads as
/// (see [`float_literals`]); a literal it has no reading for is an invalid
/// float.
pub fn parse_htn(input: &str, floats: &Vec<FloatReading>) -> (r: Result<HTN, HtnErr>)
    ensures
        match r {
            Ok(h) => parse_spec(input@, readings_view(floats@)) == Ok::<HtnV, ErrV>(h@),
            Err(e) => parse_spec(input@, readings_view(floats@)) == Err::<HtnV, ErrV>(e@),
        },
{
    let fl = floats;
    let s = chars_of(input);
    let ts = match tokenize(&s) {
        None => return Err(HtnErr::ParserError { details: syntax_error_text() }),
        Some(ts) => ts,
    };
    match parse_items(&s, &ts, fl, 0) {
        None => Err(HtnErr::ParserError { details: syntax_error_text() }),
        Some(Err(e)) => Err(e),
        Some(Ok((tasks, ver))) => {
            let version = match ver {
                Some(v) => v,
                None => String::new(),
            };
            Ok(HTN { tasks, schema: HtnSchema { version } })
        },
    }
}

/// The floating-point literals among the tokens, in order.
pub open spec fn float_tokens(s: Seq<char>, ts: Seq<Token>) -> Seq<Seq<char>>
    decreases ts.len(),
{
    if ts.len() == 0 {
        Seq::empty()
    } else if ts.last().kind == TokKind::Float {
        float_tokens(s, ts.drop_last()).push(tok_text(s, ts.last()))
    } else {
        float_tokens(s, ts.drop_last())
    }
}

/// The floating-point literals of a task network's text, in text order;
/// none when the text does not split into tokens.
pub open spec fn float_texts(input: Seq<char>) -> Seq<Seq<char>> {
    match lex(input) {
        Some(ts) => float_tokens(input, ts),
        None => Seq::empty(),
    }
}

/// The floating-point literals of a task network's text, in text order
/// (see [`float_texts`]): the texts that [`parse_htn`] needs readings for.
pub fn float_literals(input: &str) -> (r: Vec<String>)
    ensures
        texts_view(r@) == float_texts(input@),
{
    let s = chars_of(input);
    let ts = match tokenize(&s) {
        None => {
            let empty: Vec<String> = Vec::new();
            assert(texts_view(empty@) =~= Seq::<Seq<char>>::empty());
            return empty;
        },
        Some(ts) => ts,
    };
    let mut out: Vec<String> = Vec::new();
    let mut i: usize = 0;
    assert(texts_view(out@) =~= float_tokens(s@, ts@.take(0)));
    while i < ts.len()
        invariant
            0 <= i <= ts@.len(),
            toks_wf(s@, ts@),
            texts_view(out@) == float_tokens(s@, ts@.take(i as int)),
        decreases ts@.len() - i,
    {
        let ghost before = out@;
        assert(ts@.take(i + 1).drop_last() =~= ts@.take(i as int));
        assert(ts@.take(i + 1).last() == ts@[i as int]);
        if ts[i].kind == TokKind::Float {
            let x = tok_string(&s, &ts, i);
            out.push(x);
            assert(texts_view(out@) =~= texts_view(before).push(x@));
        }
        i = i + 1;
    }
    assert(ts@.take(ts@.len() as int) =~= ts@);
    out
}

fn syntax_error_text() -> (r: String)
    ensures
        syntax_error() == (ErrV::ParserError { details: r@ }),
{
    "the input does not follow the task network grammar".to_string()
}

} // verus!
