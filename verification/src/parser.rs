//! The script grammar and its parser.
//!
//! The grammar: a program is a sequence of statements (expression
//! statements and for-loops); expressions are assignments, math expressions
//! with left-associative precedence climbing (`* /` over `+ -`), string
//! literals (single-quoted, `''` escaping a quote), numeric literals with an
//! optional unit suffix, function calls with positional and named
//! parameters, and identifiers.  Whitespace and semicolons separate tokens;
//! every parse error carries a source span and the `Syntax` kind.
//!
//! The value layer is exact: the digit helpers pin every numeric literal,
//! `unit_of_range` pins the suffix mapping, and `scan_string` pins quote
//! unescaping.  The tree's conformance to the grammar itself carries no
//! specification (that would be a second grammar) and is exercised by
//! tests.

use crate::ast::{Arg, BinOp, Expr, Program, Span, Stmt};
use crate::err::{ErrorKind, GcadError};
use crate::fmt::push_char;
use crate::numbers::{Number, Unit};
use crate::rat::{norm, Rat};
use vstd::prelude::*;
use vstd::string::StrSliceExecFns;

verus! {

/// The characters of a script, for index-based scanning.
pub fn str_chars(s: &str) -> (r: Vec<char>)
    ensures
        r@ == s@,
{
    let n = s.unicode_len();
    let mut v: Vec<char> = Vec::new();
    let mut i: usize = 0;
    while i < n
        invariant
            i <= n,
            n == s@.len(),
            v@ == s@.take(i as int),
        decreases n - i,
    {
        let c = s.get_char(i);
        v.push(c);
        proof {
            assert(v@ =~= s@.take(i as int + 1));
        }
        i = i + 1;
    }
    proof {
        assert(s@.take(n as int) =~= s@);
    }
    v
}

/// Exact string equality.
pub fn str_eq(a: &str, b: &str) -> (r: bool)
    ensures
        r == (a@ == b@),
{
    let na = a.unicode_len();
    let nb = b.unicode_len();
    if na != nb {
        return false;
    }
    let mut i: usize = 0;
    while i < na
        invariant
            i <= na,
            na == a@.len(),
            na == b@.len(),
            forall|k: int| 0 <= k < i ==> a@[k] == b@[k],
        decreases na - i,
    {
        if a.get_char(i) != b.get_char(i) {
            return false;
        }
        i = i + 1;
    }
    proof {
        assert(a@ =~= b@);
    }
    true
}

pub open spec fn is_digit(c: char) -> bool {
    48 <= c as u32 <= 57
}

pub open spec fn digit_of(c: char) -> int {
    c as u32 as int - 48
}

/// The value of a digit string, most significant first.
pub open spec fn digits_val(s: Seq<char>) -> int
    decreases s.len(),
{
    if s.len() == 0 {
        0
    } else {
        digits_val(s.drop_last()) * 10 + digit_of(s.last())
    }
}

pub open spec fn pow10(k: nat) -> int
    decreases k,
{
    if k == 0 {
        1
    } else {
        10 * pow10((k - 1) as nat)
    }
}

proof fn lemma_digits_val_nonneg(s: Seq<char>)
    requires
        forall|k: int| 0 <= k < s.len() ==> is_digit(s[k]),
    ensures
        digits_val(s) >= 0,
    decreases s.len(),
{
    if s.len() > 0 {
        lemma_digits_val_nonneg(s.drop_last());
        assert(digits_val(s.drop_last()) * 10 >= 0) by (nonlinear_arith)
            requires
                digits_val(s.drop_last()) >= 0,
        ;
    }
}

/// Appending digits never shrinks the value.
proof fn lemma_digits_val_prefix(s: Seq<char>, j: int)
    requires
        0 <= j <= s.len(),
        forall|k: int| 0 <= k < s.len() ==> is_digit(s[k]),
    ensures
        digits_val(s.take(j)) <= digits_val(s),
    decreases s.len() - j,
{
    if j < s.len() {
        let t = s.take(j + 1);
        assert(t.drop_last() =~= s.take(j));
        lemma_digits_val_nonneg(s.take(j));
        assert(digits_val(s.take(j)) <= digits_val(s.take(j)) * 10 + digit_of(s[j]))
            by (nonlinear_arith)
            requires
                digits_val(s.take(j)) >= 0,
                digit_of(s[j]) >= 0,
        ;
        lemma_digits_val_prefix(s, j + 1);
    } else {
        assert(s.take(j) =~= s);
    }
}

/// The digits in `[lo, hi)` as an `i64`, or `None` when they exceed it.
fn digits_to_i64(chars: &Vec<char>, lo: usize, hi: usize) -> (r: Option<i64>)
    requires
        lo <= hi <= chars@.len(),
        forall|k: int| lo <= k < hi ==> is_digit(chars@[k]),
    ensures
        match r {
            Some(v) => v as int == digits_val(chars@.subrange(lo as int, hi as int)),
            None => digits_val(chars@.subrange(lo as int, hi as int)) > i64::MAX,
        },
{
    let ghost all = chars@.subrange(lo as int, hi as int);
    proof {
        assert(forall|k: int| 0 <= k < all.len() ==> is_digit(all[k]));
    }
    let mut acc: u128 = 0;
    let mut i: usize = lo;
    while i < hi
        invariant
            lo <= i <= hi <= chars@.len(),
            all == chars@.subrange(lo as int, hi as int),
            forall|k: int| 0 <= k < all.len() ==> is_digit(all[k]),
            acc as int == digits_val(all.take(i - lo)),
            acc <= 0x7fffffffffffffff,
        decreases hi - i,
    {
        let c = chars[i];
        proof {
            assert(all[i - lo] == chars@[i as int]);
            assert(is_digit(c));
        }
        let d = (c as u32) - 48;
        acc = acc * 10 + (d as u128);
        proof {
            assert(all.take(i - lo + 1).drop_last() =~= all.take(i - lo));
            assert(all.take(i - lo + 1).last() == all[i - lo]);
        }
        i = i + 1;
        if acc > 0x7fffffffffffffff {
            proof {
                lemma_digits_val_prefix(all, i - lo);
                assert(all.take(all.len() as int) =~= all);
            }
            return None;
        }
    }
    proof {
        assert(all.take((hi - lo) as int) =~= all);
    }
    Some(acc as i64)
}

/// The decimal `ip.fp` as an exact rational:
/// `(digits(ip) * 10^k + digits(fp)) / 10^k` with `k` fraction digits,
/// normalized.  `None` when the literal cannot be represented.
fn decimal_to_rat(chars: &Vec<char>, lo: usize, dot: usize, hi: usize) -> (r: Option<Rat>)
    requires
        lo < dot,
        dot < hi <= chars@.len(),
        forall|k: int| lo <= k < dot ==> is_digit(chars@[k]),
        forall|k: int| dot < k < hi ==> is_digit(chars@[k]),
    ensures
        ({
            let ip = digits_val(chars@.subrange(lo as int, dot as int));
            let fp = digits_val(chars@.subrange(dot as int + 1, hi as int));
            let p = pow10((hi - dot - 1) as nat);
            r matches Some(q) ==> q@ == norm(ip * p + fp, p)
        }),
{
    let ghost ipd = chars@.subrange(lo as int, dot as int);
    let ghost fpd = chars@.subrange(dot as int + 1, hi as int);
    let ghost ip = digits_val(ipd);
    proof {
        assert(forall|k: int| 0 <= k < ipd.len() ==> is_digit(ipd[k]));
        assert(forall|k: int| 0 <= k < fpd.len() ==> is_digit(fpd[k]));
        lemma_digits_val_nonneg(ipd);
        lemma_digits_val_nonneg(fpd);
    }
    let ipv = match digits_to_i64(chars, lo, dot) {
        Some(v) => v,
        None => {
            return None;
        },
    };
    let mut acc: u128 = ipv as u128;
    let mut den: u128 = 1;
    let mut i: usize = dot + 1;
    while i < hi
        invariant
            dot + 1 <= i <= hi <= chars@.len(),
            lo < dot,
            fpd == chars@.subrange(dot as int + 1, hi as int),
            forall|k: int| 0 <= k < fpd.len() ==> is_digit(fpd[k]),
            ip == digits_val(chars@.subrange(lo as int, dot as int)),
            ip >= 0,
            den as int == pow10((i - dot - 1) as nat),
            1 <= den <= 0x7fffffffffffffff,
            acc as int == ip * den as int + digits_val(fpd.take(i - dot - 1)),
            acc <= 0x7fffffffffffffffffffffffffffffff,
        decreases hi - i,
    {
        let c = chars[i];
        proof {
            assert(fpd[i - dot - 1] == chars@[i as int]);
            assert(is_digit(c));
            lemma_digits_val_nonneg(fpd.take(i - dot - 1));
        }
        let d = (c as u32) - 48;
        if den > 0x7fffffffffffffff / 10 {
            return None;
        }
        if acc > (0x7fffffffffffffffffffffffffffffff - 9) / 10 {
            return None;
        }
        let ghost acc0 = acc as int;
        let ghost den0 = den as int;
        acc = acc * 10 + (d as u128);
        den = den * 10;
        proof {
            assert(fpd.take(i - dot - 1 + 1).drop_last() =~= fpd.take(i - dot - 1));
            assert(fpd.take(i - dot - 1 + 1).last() == fpd[i - dot - 1]);
            assert(acc0 * 10 + digit_of(fpd[i - dot - 1]) == ip * (den0 * 10) + digits_val(
                fpd.take(i - dot - 1 + 1),
            )) by (nonlinear_arith)
                requires
                    acc0 == ip * den0 + digits_val(fpd.take(i - dot - 1)),
                    digits_val(fpd.take(i - dot - 1 + 1)) == digits_val(fpd.take(i - dot - 1)) * 10
                        + digit_of(fpd[i - dot - 1]),
            ;
        }
        i = i + 1;
    }
    proof {
        assert(fpd.take((hi - dot - 1) as int) =~= fpd);
    }
    if acc > (0x7fffffffffffffff as u128) * den {
        return None;
    }
    proof {
        assert(acc <= 0x3fffffffffffffff00000000000000010000000000000000) by (nonlinear_arith)
            requires
                acc as int <= 0x7fffffffffffffff * den as int,
                den <= 0x7fffffffffffffff,
                acc >= 0,
        ;
    }
    Rat::make(acc as i128, den as i128)
}

/// A lexical token.
pub enum TokKind {
    Ident(String),
    Num(Number),
    StrTok(String),
    LPar,
    RPar,
    LBrace,
    RBrace,
    Comma,
    Eq,
    Plus,
    Minus,
    Star,
    Slash,
}

pub struct Tok {
    pub kind: TokKind,
    pub span: Span,
}

pub open spec fn is_alpha(c: char) -> bool {
    (97 <= c as u32 <= 122) || (65 <= c as u32 <= 90) || c as u32 == 95
}

fn is_digit_e(c: char) -> (r: bool)
    ensures
        r == is_digit(c),
{
    let u = c as u32;
    48 <= u && u <= 57
}

fn is_alpha_e(c: char) -> (r: bool)
    ensures
        r == is_alpha(c),
{
    let u = c as u32;
    (97 <= u && u <= 122) || (65 <= u && u <= 90) || u == 95
}

fn is_space_e(c: char) -> bool {
    c == ' ' || c == '\t' || c == '\n' || c == '\r' || c == ';'
}

/// The text in `[lo, hi)` as a `String`.
fn range_string(chars: &Vec<char>, lo: usize, hi: usize) -> (r: String)
    requires
        lo <= hi <= chars@.len(),
    ensures
        r@ == chars@.subrange(lo as int, hi as int),
{
    let mut s = String::new();
    let mut i: usize = lo;
    while i < hi
        invariant
            lo <= i <= hi <= chars@.len(),
            s@ == chars@.subrange(lo as int, i as int),
        decreases hi - i,
    {
        push_char(&mut s, chars[i]);
        proof {
            assert(s@ =~= chars@.subrange(lo as int, i as int + 1));
        }
        i = i + 1;
    }
    s
}

fn syntax_err(msg: &str, lo: usize, hi: usize) -> (r: GcadError)
    ensures
        r.kind == ErrorKind::Syntax,
        r.span == Some((lo, hi)),
{
    GcadError::new(ErrorKind::Syntax, msg.to_owned()).at(lo, hi)
}

/// The text of a unit suffix.
pub open spec fn unit_name(u: Unit) -> Seq<char> {
    match u {
        Unit::MM => seq!['m', 'm'],
        Unit::CM => seq!['c', 'm'],
        Unit::M => seq!['m'],
        Unit::IN => seq!['i', 'n'],
        Unit::FT => seq!['f', 't'],
        Unit::YD => seq!['y', 'd'],
        Unit::Unitless => Seq::<char>::empty(),
    }
}


/// Unescaping a string literal's body from position `j` (just past the
/// opening quote): the text up to the closing quote with each doubled
/// quote collapsed, the position just past the closing quote, and whether
/// a closing quote exists at all.
pub open spec fn unesc(s: Seq<char>, j: int) -> (Seq<char>, int, bool)
    decreases s.len() - j,
{
    if j < 0 || j >= s.len() {
        (Seq::<char>::empty(), j, false)
    } else if s[j] == '\'' {
        if j + 1 < s.len() && s[j + 1] == '\'' {
            let r = unesc(s, j + 2);
            (seq!['\''] + r.0, r.1, r.2)
        } else {
            (Seq::<char>::empty(), j + 1, true)
        }
    } else {
        let r = unesc(s, j + 1);
        (seq![s[j]] + r.0, r.1, r.2)
    }
}

/// Scan a string literal from its opening quote: exactly the `unesc` text.
fn scan_string(chars: &Vec<char>, start: usize) -> (r: Result<(String, usize), GcadError>)
    requires
        start < chars@.len(),
    ensures
        ({
            let u = unesc(chars@, start as int + 1);
            match r {
                Ok(p) => u.2 && p.0@ == u.0 && p.1 == u.1 && start < p.1 <= chars@.len(),
                Err(e) => !u.2 && e.kind == ErrorKind::Syntax && e.span is Some,
            }
        }),
{
    let n = chars.len();
    let ghost full = unesc(chars@, start as int + 1);
    let mut j = start + 1;
    let mut text = String::new();
    loop
        invariant
            start < j <= n,
            n == chars@.len(),
            full == unesc(chars@, start as int + 1),
            ({
                let u = unesc(chars@, j as int);
                full.0 == text@ + u.0 && full.1 == u.1 && full.2 == u.2
            }),
        decreases n - j,
    {
        if j >= n {
            proof {
                assert(text@ + unesc(chars@, j as int).0 =~= text@);
            }
            return Err(syntax_err("unterminated string literal", start, n));
        }
        let d = chars[j];
        if d == '\'' {
            if n - j > 1 && chars[j + 1] == '\'' {
                let ghost t0 = text@;
                push_char(&mut text, '\'');
                proof {
                    let u = unesc(chars@, j as int);
                    let u2 = unesc(chars@, j as int + 2);
                    assert(u.0 == seq!['\''] + u2.0);
                    assert(t0 + u.0 =~= text@ + u2.0);
                }
                j = j + 2;
            } else {
                proof {
                    assert(unesc(chars@, j as int).0 =~= Seq::<char>::empty());
                    assert(text@ + unesc(chars@, j as int).0 =~= text@);
                }
                return Ok((text, j + 1));
            }
        } else {
            let ghost t0 = text@;
            push_char(&mut text, d);
            proof {
                let u = unesc(chars@, j as int);
                let u2 = unesc(chars@, j as int + 1);
                assert(u.0 == seq![chars@[j as int]] + u2.0);
                assert(t0 + u.0 =~= text@ + u2.0);
            }
            j = j + 1;
        }
    }
}

/// A text that differs from every suffix is no unit name.
proof fn lemma_not_a_unit(s: Seq<char>)
    requires
        s != unit_name(Unit::MM),
        s != unit_name(Unit::CM),
        s != unit_name(Unit::M),
        s != unit_name(Unit::IN),
        s != unit_name(Unit::FT),
        s != unit_name(Unit::YD),
    ensures
        forall|u: Unit| u != Unit::Unitless ==> s != #[trigger] unit_name(u),
{
}

/// The unit named by the letters in `[lo, hi)`: exactly the suffixes
/// `mm`, `cm`, `m`, `in`, `ft` and `yd`, case-sensitive; every other text
/// is rejected.
fn unit_of_range(chars: &Vec<char>, lo: usize, hi: usize) -> (r: Option<Unit>)
    requires
        lo <= hi <= chars@.len(),
    ensures
        match r {
            Some(u) => u != Unit::Unitless && chars@.subrange(lo as int, hi as int)
                == unit_name(u),
            None => forall|u: Unit|
                u != Unit::Unitless ==> chars@.subrange(lo as int, hi as int) != #[trigger] unit_name(u),
        },
{
    let ghost s = chars@.subrange(lo as int, hi as int);
    if hi - lo == 1 {
        if chars[lo] == 'm' {
            proof {
                assert(s =~= unit_name(Unit::M));
            }
            Some(Unit::M)
        } else {
            proof {
                assert(s.len() == 1 && s[0] == chars@[lo as int]);
                assert(s != unit_name(Unit::MM) && s != unit_name(Unit::CM) && s != unit_name(
                    Unit::IN,
                ) && s != unit_name(Unit::FT) && s != unit_name(Unit::YD));
                assert(s != unit_name(Unit::M));
                lemma_not_a_unit(s);
            }
            None
        }
    } else if hi - lo == 2 {
        let a = chars[lo];
        let b = chars[lo + 1];
        if a == 'm' && b == 'm' {
            proof {
                assert(s =~= unit_name(Unit::MM));
            }
            Some(Unit::MM)
        } else if a == 'c' && b == 'm' {
            proof {
                assert(s =~= unit_name(Unit::CM));
            }
            Some(Unit::CM)
        } else if a == 'i' && b == 'n' {
            proof {
                assert(s =~= unit_name(Unit::IN));
            }
            Some(Unit::IN)
        } else if a == 'f' && b == 't' {
            proof {
                assert(s =~= unit_name(Unit::FT));
            }
            Some(Unit::FT)
        } else if a == 'y' && b == 'd' {
            proof {
                assert(s =~= unit_name(Unit::YD));
            }
            Some(Unit::YD)
        } else {
            proof {
                assert(s.len() == 2 && s[0] == chars@[lo as int] && s[1] == chars@[lo as int + 1]);
                assert(s != unit_name(Unit::M));
                assert(s != unit_name(Unit::MM) && s != unit_name(Unit::CM) && s != unit_name(
                    Unit::IN,
                ) && s != unit_name(Unit::FT) && s != unit_name(Unit::YD));
                lemma_not_a_unit(s);
            }
            None
        }
    } else {
        proof {
            assert(s.len() != 1 && s.len() != 2);
            assert(s != unit_name(Unit::M));
            assert(s != unit_name(Unit::MM) && s != unit_name(Unit::CM) && s != unit_name(
                Unit::IN,
            ) && s != unit_name(Unit::FT) && s != unit_name(Unit::YD));
            lemma_not_a_unit(s);
        }
        None
    }
}

/// Split the script into tokens.
fn tokenize(chars: &Vec<char>) -> (r: Result<Vec<Tok>, GcadError>)
    ensures
        r matches Err(e) ==> e.kind == ErrorKind::Syntax && e.span is Some,
{
    let n = chars.len();
    let mut toks: Vec<Tok> = Vec::new();
    let mut i: usize = 0;
    while i < n
        invariant
            i <= n,
            n == chars@.len(),
        decreases n - i,
    {
        let c = chars[i];
        if is_space_e(c) {
            i = i + 1;
        } else if c == '(' {
            toks.push(Tok { kind: TokKind::LPar, span: Span { lo: i, hi: i + 1 } });
            i = i + 1;
        } else if c == ')' {
            toks.push(Tok { kind: TokKind::RPar, span: Span { lo: i, hi: i + 1 } });
            i = i + 1;
        } else if c == '{' {
            toks.push(Tok { kind: TokKind::LBrace, span: Span { lo: i, hi: i + 1 } });
            i = i + 1;
        } else if c == '}' {
            toks.push(Tok { kind: TokKind::RBrace, span: Span { lo: i, hi: i + 1 } });
            i = i + 1;
        } else if c == ',' {
            toks.push(Tok { kind: TokKind::Comma, span: Span { lo: i, hi: i + 1 } });
            i = i + 1;
        } else if c == '=' {
            toks.push(Tok { kind: TokKind::Eq, span: Span { lo: i, hi: i + 1 } });
            i = i + 1;
        } else if c == '+' {
            toks.push(Tok { kind: TokKind::Plus, span: Span { lo: i, hi: i + 1 } });
            i = i + 1;
        } else if c == '-' {
            toks.push(Tok { kind: TokKind::Minus, span: Span { lo: i, hi: i + 1 } });
            i = i + 1;
        } else if c == '*' {
            toks.push(Tok { kind: TokKind::Star, span: Span { lo: i, hi: i + 1 } });
            i = i + 1;
        } else if c == '/' {
            toks.push(Tok { kind: TokKind::Slash, span: Span { lo: i, hi: i + 1 } });
            i = i + 1;
        } else if c == '\'' {
            // string literal; '' is an escaped quote
            let lo = i;
            let (text, j) = scan_string(chars, i)?;
            toks.push(Tok { kind: TokKind::StrTok(text), span: Span { lo, hi: j } });
            i = j;
        } else if is_digit_e(c) {
            // numeric literal with optional decimal part and unit suffix
            let lo = i;
            let mut j = i;
            while j < n && is_digit_e(chars[j])
                invariant
                    lo <= j <= n,
                    n == chars@.len(),
                    forall|k: int| lo <= k < j ==> is_digit(chars@[k]),
                decreases n - j,
            {
                j = j + 1;
            }
            let mut dot: usize = 0;
            let mut has_dot = false;
            if j < n && chars[j] == '.' && j + 1 < n && is_digit_e(chars[j + 1]) {
                has_dot = true;
                dot = j;
                j = j + 1;
                while j < n && is_digit_e(chars[j])
                    invariant
                        lo < dot < j <= n,
                        n == chars@.len(),
                        forall|k: int| lo <= k < dot ==> is_digit(chars@[k]),
                        forall|k: int| dot < k < j ==> is_digit(chars@[k]),
                    decreases n - j,
                {
                    j = j + 1;
                }
            }
            let ulo = j;
            while j < n && is_alpha_e(chars[j])
                invariant
                    ulo <= j <= n,
                    lo <= ulo,
                    n == chars@.len(),
                decreases n - j,
            {
                j = j + 1;
            }
            let unit = if j > ulo {
                match unit_of_range(chars, ulo, j) {
                    Some(u) => Some(u),
                    None => {
                        return Err(syntax_err("unknown unit suffix", ulo, j));
                    },
                }
            } else {
                None
            };
            let num = if has_dot {
                match decimal_to_rat(chars, lo, dot, ulo) {
                    Some(q) => match unit {
                        Some(u) => Number::from_rat_and_unit(q, u),
                        None => Number::from_rat(q),
                    },
                    None => {
                        return Err(syntax_err("numeric literal too large", lo, ulo));
                    },
                }
            } else {
                match digits_to_i64(chars, lo, ulo) {
                    Some(v) => match unit {
                        Some(u) => Number::from_int_and_unit(v, u),
                        None => Number::from_int(v),
                    },
                    None => {
                        return Err(syntax_err("numeric literal too large", lo, ulo));
                    },
                }
            };
            toks.push(Tok { kind: TokKind::Num(num), span: Span { lo, hi: j } });
            i = j;
        } else if is_alpha_e(c) {
            let lo = i;
            let mut j = i;
            while j < n && (is_alpha_e(chars[j]) || is_digit_e(chars[j]))
                invariant
                    lo <= j <= n,
                    n == chars@.len(),
                decreases n - j,
            {
                j = j + 1;
            }
            let text = range_string(chars, lo, j);
            toks.push(Tok { kind: TokKind::Ident(text), span: Span { lo, hi: j } });
            i = j;
        } else {
            return Err(syntax_err("unexpected character", i, i + 1));
        }
    }
    Ok(toks)
}

/// The span of an expression.
pub fn span_of(e: &Expr) -> (r: Span) {
    match e {
        Expr::Num { span, .. } => *span,
        Expr::StrLit { span, .. } => *span,
        Expr::Ident { span, .. } => *span,
        Expr::Assign { span, .. } => *span,
        Expr::Bin { span, .. } => *span,
        Expr::Call { span, .. } => *span,
    }
}

/// One atom: a literal, an identifier, or a call.
fn parse_atom(toks: &Vec<Tok>, pos: usize, fuel: u64) -> (r: Result<(Expr, usize), GcadError>)
    requires
        pos <= toks@.len(),
    ensures
        r matches Ok(p) ==> p.1 <= toks@.len(),
        r matches Err(e) ==> e.kind == ErrorKind::Syntax && e.span is Some,
    decreases fuel,
{
    if fuel == 0 {
        return Err(syntax_err("expression too deeply nested", 0, 0));
    }
    if pos >= toks.len() {
        return Err(syntax_err("unexpected end of script", 0, 0));
    }
    let span = toks[pos].span;
    match &toks[pos].kind {
        TokKind::Num(n) => Ok((Expr::Num { value: *n, span }, pos + 1)),
        TokKind::StrTok(s) => Ok((Expr::StrLit { value: s.clone(), span }, pos + 1)),
        TokKind::Ident(name) => {
            if toks.len() - pos > 1 && matches!(&toks[pos + 1].kind, TokKind::LPar) {
                let (args, p) = parse_args(toks, pos + 2, fuel - 1)?;
                let hi = if p >= 1 && p <= toks.len() {
                    toks[p - 1].span.hi
                } else {
                    span.hi
                };
                Ok(
                    (
                        Expr::Call {
                            name: name.clone(),
                            name_span: span,
                            args,
                            span: Span { lo: span.lo, hi },
                        },
                        p,
                    ),
                )
            } else {
                Ok((Expr::Ident { name: name.clone(), span }, pos + 1))
            }
        },
        _ => Err(syntax_err("expected an expression", span.lo, span.hi)),
    }
}

/// The arguments of a call, from just after the opening parenthesis
/// through the closing one.
fn parse_args(toks: &Vec<Tok>, pos: usize, fuel: u64) -> (r: Result<
    (Vec<Arg>, usize),
    GcadError,
>)
    requires
        pos <= toks@.len(),
    ensures
        r matches Ok(p) ==> p.1 <= toks@.len(),
        r matches Err(e) ==> e.kind == ErrorKind::Syntax && e.span is Some,
    decreases fuel,
{
    if fuel == 0 {
        return Err(syntax_err("expression too deeply nested", 0, 0));
    }
    if pos < toks.len() && matches!(&toks[pos].kind, TokKind::RPar) {
        return Ok((Vec::new(), pos + 1));
    }
    parse_args_rest(toks, pos, fuel - 1, Vec::new())
}

fn parse_args_rest(toks: &Vec<Tok>, pos: usize, fuel: u64, acc: Vec<Arg>) -> (r: Result<
    (Vec<Arg>, usize),
    GcadError,
>)
    requires
        pos <= toks@.len(),
    ensures
        r matches Ok(p) ==> p.1 <= toks@.len(),
        r matches Err(e) ==> e.kind == ErrorKind::Syntax && e.span is Some,
    decreases fuel,
{
    let mut acc = acc;
    if fuel == 0 {
        return Err(syntax_err("expression too deeply nested", 0, 0));
    }
    // a named argument is `ident = expr`
    let named = pos < toks.len() && toks.len() - pos > 1 && matches!(
        &toks[pos].kind,
        TokKind::Ident(_),
    ) && matches!(&toks[pos + 1].kind, TokKind::Eq);
    let (arg, p) = if named {
        let (name, name_span) = match &toks[pos].kind {
            TokKind::Ident(n) => (n.clone(), toks[pos].span),
            _ => {
                return Err(syntax_err("expected an argument name", 0, 0));
            },
        };
        let (value, p) = parse_expr(toks, pos + 2, fuel - 1)?;
        (Arg { name: Some(name), name_span: Some(name_span), value }, p)
    } else {
        let (value, p) = parse_expr(toks, pos, fuel - 1)?;
        (Arg { name: None, name_span: None, value }, p)
    };
    acc.push(arg);
    if p < toks.len() && matches!(&toks[p].kind, TokKind::RPar) {
        Ok((acc, p + 1))
    } else if p < toks.len() && matches!(&toks[p].kind, TokKind::Comma) {
        parse_args_rest(toks, p + 1, fuel - 1, acc)
    } else {
        Err(syntax_err("expected a comma or closing parenthesis", 0, 0))
    }
}

/// Left-associative precedence climbing: `* /` bind tighter than `+ -`.
fn parse_math(toks: &Vec<Tok>, pos: usize, min_prec: u8, fuel: u64) -> (r: Result<
    (Expr, usize),
    GcadError,
>)
    requires
        pos <= toks@.len(),
    ensures
        r matches Ok(p) ==> p.1 <= toks@.len(),
        r matches Err(e) ==> e.kind == ErrorKind::Syntax && e.span is Some,
    decreases fuel,
{
    if fuel == 0 {
        return Err(syntax_err("expression too deeply nested", 0, 0));
    }
    let (lhs, p) = parse_atom(toks, pos, fuel - 1)?;
    parse_math_more(toks, p, lhs, min_prec, fuel - 1)
}

fn parse_math_more(toks: &Vec<Tok>, pos: usize, lhs: Expr, min_prec: u8, fuel: u64) -> (r: Result<
    (Expr, usize),
    GcadError,
>)
    requires
        pos <= toks@.len(),
    ensures
        r matches Ok(p) ==> p.1 <= toks@.len(),
        r matches Err(e) ==> e.kind == ErrorKind::Syntax && e.span is Some,
    decreases fuel,
{
    if fuel == 0 {
        return Err(syntax_err("expression too deeply nested", 0, 0));
    }
    if pos >= toks.len() {
        return Ok((lhs, pos));
    }
    let (op, prec): (BinOp, u8) = match &toks[pos].kind {
        TokKind::Plus => (BinOp::Add, 1),
        TokKind::Minus => (BinOp::Sub, 1),
        TokKind::Star => (BinOp::Mul, 2),
        TokKind::Slash => (BinOp::Div, 2),
        _ => {
            return Ok((lhs, pos));
        },
    };
    if prec < min_prec {
        return Ok((lhs, pos));
    }
    let (rhs, p2) = parse_math(toks, pos + 1, prec + 1, fuel - 1)?;
    let span = Span { lo: span_of(&lhs).lo, hi: span_of(&rhs).hi };
    let combined = Expr::Bin { op, lhs: Box::new(lhs), rhs: Box::new(rhs), span };
    parse_math_more(toks, p2, combined, min_prec, fuel - 1)
}

/// A full expression: an assignment or a math expression.
fn parse_expr(toks: &Vec<Tok>, pos: usize, fuel: u64) -> (r: Result<(Expr, usize), GcadError>)
    requires
        pos <= toks@.len(),
    ensures
        r matches Ok(p) ==> p.1 <= toks@.len(),
        r matches Err(e) ==> e.kind == ErrorKind::Syntax && e.span is Some,
    decreases fuel,
{
    if fuel == 0 {
        return Err(syntax_err("expression too deeply nested", 0, 0));
    }
    let assign = pos < toks.len() && toks.len() - pos > 1 && matches!(
        &toks[pos].kind,
        TokKind::Ident(_),
    ) && matches!(&toks[pos + 1].kind, TokKind::Eq);
    if assign {
        let (name, name_span) = match &toks[pos].kind {
            TokKind::Ident(n) => (n.clone(), toks[pos].span),
            _ => {
                return Err(syntax_err("expected an identifier", 0, 0));
            },
        };
        let (rhs, p) = parse_expr(toks, pos + 2, fuel - 1)?;
        let span = Span { lo: name_span.lo, hi: span_of(&rhs).hi };
        Ok((Expr::Assign { name, name_span, rhs: Box::new(rhs), span }, p))
    } else {
        parse_math(toks, pos, 1, fuel - 1)
    }
}

/// One statement: an expression statement or a for-loop.
fn parse_stmt(toks: &Vec<Tok>, pos: usize, fuel: u64) -> (r: Result<(Stmt, usize), GcadError>)
    requires
        pos <= toks@.len(),
    ensures
        r matches Ok(p) ==> p.1 <= toks@.len(),
        r matches Err(e) ==> e.kind == ErrorKind::Syntax && e.span is Some,
    decreases fuel,
{
    if fuel == 0 {
        return Err(syntax_err("expression too deeply nested", 0, 0));
    }
    if pos >= toks.len() {
        return Err(syntax_err("unexpected end of script", 0, 0));
    }
    let is_for = match &toks[pos].kind {
        TokKind::Ident(n) => str_eq(n.as_str(), "for"),
        _ => false,
    };
    if is_for {
        let span0 = toks[pos].span;
        if toks.len() - pos <= 2 {
            return Err(syntax_err("incomplete for-loop", span0.lo, span0.hi));
        }
        let (var, var_span) = match &toks[pos + 1].kind {
            TokKind::Ident(n) => (n.clone(), toks[pos + 1].span),
            _ => {
                return Err(syntax_err("expected a loop variable", span0.lo, span0.hi));
            },
        };
        let in_ok = match &toks[pos + 2].kind {
            TokKind::Ident(n) => str_eq(n.as_str(), "in"),
            _ => false,
        };
        if !in_ok {
            return Err(syntax_err("expected `in`", var_span.lo, var_span.hi));
        }
        let (range, p) = parse_expr(toks, pos + 3, fuel - 1)?;
        let range_span = span_of(&range);
        if !(p < toks.len() && matches!(&toks[p].kind, TokKind::LBrace)) {
            return Err(syntax_err("expected a block", range_span.lo, range_span.hi));
        }
        let (body, p2) = parse_block(toks, p + 1, fuel - 1, Vec::new())?;
        let hi = if p2 >= 1 {
            toks[p2 - 1].span.hi
        } else {
            range_span.hi
        };
        Ok(
            (
                Stmt::For { var, var_span, range, range_span, body, span: Span { lo: span0.lo, hi } },
                p2,
            ),
        )
    } else {
        let (e, p) = parse_expr(toks, pos, fuel - 1)?;
        Ok((Stmt::Expr(e), p))
    }
}

/// The statements of a block, through the closing brace.
fn parse_block(toks: &Vec<Tok>, pos: usize, fuel: u64, acc: Vec<Stmt>) -> (r: Result<
    (Vec<Stmt>, usize),
    GcadError,
>)
    requires
        pos <= toks@.len(),
    ensures
        r matches Ok(p) ==> p.1 <= toks@.len(),
        r matches Err(e) ==> e.kind == ErrorKind::Syntax && e.span is Some,
    decreases fuel,
{
    let mut acc = acc;
    if fuel == 0 {
        return Err(syntax_err("expression too deeply nested", 0, 0));
    }
    if pos >= toks.len() {
        return Err(syntax_err("expected a closing brace", 0, 0));
    }
    if matches!(&toks[pos].kind, TokKind::RBrace) {
        return Ok((acc, pos + 1));
    }
    let (s, p) = parse_stmt(toks, pos, fuel - 1)?;
    acc.push(s);
    parse_block(toks, p, fuel - 1, acc)
}

fn parse_stmts(toks: &Vec<Tok>, pos: usize, fuel: u64, acc: Vec<Stmt>) -> (r: Result<
    Vec<Stmt>,
    GcadError,
>)
    requires
        pos <= toks@.len(),
    ensures
        r matches Err(e) ==> e.kind == ErrorKind::Syntax && e.span is Some,
    decreases fuel,
{
    let mut acc = acc;
    if fuel == 0 {
        return Err(syntax_err("expression too deeply nested", 0, 0));
    }
    if pos >= toks.len() {
        return Ok(acc);
    }
    let (s, p) = parse_stmt(toks, pos, fuel - 1)?;
    acc.push(s);
    if p <= pos {
        // a statement always consumes tokens; refuse rather than spin
        return Err(syntax_err("parser made no progress", 0, 0));
    }
    parse_stmts(toks, p, fuel - 1, acc)
}

/// The grammar front end.
pub struct ScriptParser;

impl ScriptParser {
    /// Parse a whole script.  A text that does not match the grammar is
    /// rejected with a `Syntax` error carrying a source span.
    pub fn parse(source: &str) -> (r: Result<Program, GcadError>)
        ensures
            r matches Err(e) ==> e.kind == ErrorKind::Syntax && e.span is Some,
    {
        let chars = str_chars(source);
        let toks = tokenize(&chars)?;
        let stmts = parse_stmts(&toks, 0, u64::MAX, Vec::new())?;
        Ok(Program { stmts })
    }
}

} // verus!