//! The calculator app: integer expressions evaluated left to right.
use vstd::prelude::*;
use crate::text::{
    chars_of, char_vecs_view, parse_i64, parse_i64_spec, signed_decimal, signed_decimal_string,
    split_words, str_eq, trim, trim_string, words,
};

verus! {

/// What evaluating an expression gives: a value, a refusal (unparsable
/// input, unknown operator, division by zero), or an arithmetic overflow.
#[derive(Clone, Copy, Debug, PartialEq, Eq, Structural)]
pub enum Evaluation {
    Value(i64),
    Invalid,
    Overflow,
}

pub open spec fn in_i64(v: int) -> bool {
    i64::MIN <= v <= i64::MAX
}

/// Integer division rounding toward zero, as Rust's `/` does.
pub open spec fn trunc_div(a: int, b: int) -> int {
    let ua = if a < 0 { -a } else { a };
    let ub = if b < 0 { -b } else { b };
    let q = ua / ub;
    if (a < 0) != (b < 0) {
        -q
    } else {
        q
    }
}

/// `op` is one of the operators `+ - * /` applicable to `rhs`.
pub open spec fn op_applies(op: Seq<char>, rhs: int) -> bool {
    ||| op == seq!['+']
    ||| op == seq!['-']
    ||| op == seq!['*']
    ||| (op == seq!['/'] && rhs != 0)
}

/// The exact result of `acc op rhs`, for an operator that applies.
pub open spec fn apply_op(op: Seq<char>, acc: int, rhs: int) -> int {
    if op == seq!['+'] {
        acc + rhs
    } else if op == seq!['-'] {
        acc - rhs
    } else if op == seq!['*'] {
        acc * rhs
    } else {
        trunc_div(acc, rhs)
    }
}

/// Evaluation of the operator/operand pairs from position `i` on, with
/// `acc` the value so far. A trailing operator without operand is ignored.
pub open spec fn eval_from(tokens: Seq<Seq<char>>, i: int, acc: i64) -> Evaluation
    decreases tokens.len() - i,
{
    if 0 <= i && i + 1 < tokens.len() {
        match parse_i64_spec(tokens[i + 1]) {
            None => Evaluation::Invalid,
            Some(rhs) => if op_applies(tokens[i], rhs as int) {
                let v = apply_op(tokens[i], acc as int, rhs as int);
                if in_i64(v) {
                    eval_from(tokens, i + 2, v as i64)
                } else {
                    Evaluation::Overflow
                }
            } else {
                Evaluation::Invalid
            },
        }
    } else {
        Evaluation::Value(acc)
    }
}

/// Evaluation of the whitespace-separated expression `s`, strictly left to
/// right with no operator precedence.
pub open spec fn eval_spec(s: Seq<char>) -> Evaluation {
    let t = words(s);
    if t.len() == 0 {
        Evaluation::Invalid
    } else {
        match parse_i64_spec(t[0]) {
            None => Evaluation::Invalid,
            Some(v) => eval_from(t, 1, v),
        }
    }
}

fn is_op(op: &Vec<char>, c: char) -> (r: bool)
    ensures
        r == (op@ == seq![c]),
{
    let r = op.len() == 1 && op[0] == c;
    if op.len() == 1 {
        assert(op@ =~= seq![op@[0]]);
    }
    r
}

/// Evaluates `expr`, reporting an overflow instead of performing it.
pub fn evaluate(expr: &str) -> (r: Evaluation)
    ensures
        r == eval_spec(expr@),
{
    let cs = chars_of(expr);
    let tokens = split_words(&cs);
    let ghost tv = char_vecs_view(tokens@);
    assert(tv == words(expr@));
    if tokens.len() == 0 {
        return Evaluation::Invalid;
    }
    assert(tv[0] == tokens@[0]@);
    let mut result: i64 = match parse_i64(&tokens[0]) {
        None => {
            return Evaluation::Invalid;
        },
        Some(v) => v,
    };
    let mut i: usize = 1;
    while i < tokens.len() - 1
        invariant
            tv == char_vecs_view(tokens@),
            1 <= i <= tokens.len(),
            eval_spec(expr@) == eval_from(tv, i as int, result),
        decreases tokens.len() - i,
    {
        assert(tv[i + 1] == tokens@[i + 1]@);
        assert(tv[i as int] == tokens@[i as int]@);
        let rhs = match parse_i64(&tokens[i + 1]) {
            None => {
                return Evaluation::Invalid;
            },
            Some(v) => v,
        };
        let op = &tokens[i];
        let a = result as i128;
        let b = rhs as i128;
        let v: i128 = if is_op(op, '+') {
            a + b
        } else if is_op(op, '-') {
            a - b
        } else if is_op(op, '*') {
            assert(-0x4000_0000_0000_0000_0000_0000_0000_0000 <= a * b <= 0x4000_0000_0000_0000_0000_0000_0000_0000)
                by (nonlinear_arith)
                requires
                    -0x8000_0000_0000_0000 <= a <= 0x7fff_ffff_ffff_ffff,
                    -0x8000_0000_0000_0000 <= b <= 0x7fff_ffff_ffff_ffff,
            ;
            a * b
        } else if is_op(op, '/') {
            if rhs == 0 {
                return Evaluation::Invalid;
            }
            let ua: u128 = if a < 0 {
                (-a) as u128
            } else {
                a as u128
            };
            let ub: u128 = if b < 0 {
                (-b) as u128
            } else {
                b as u128
            };
            let q: u128 = ua / ub;
            assert(q <= ua) by (nonlinear_arith)
                requires
                    q == ua / ub,
                    ub >= 1,
            ;
            let qi = q as i128;
            if (a < 0) != (b < 0) {
                -qi
            } else {
                qi
            }
        } else {
            return Evaluation::Invalid;
        };
        if v < -0x8000_0000_0000_0000 || v > 0x7fff_ffff_ffff_ffff {
            return Evaluation::Overflow;
        }
        result = v as i64;
        i = i + 2;
    }
    Evaluation::Value(result)
}

/// Evaluates `expr` strictly left to right: `"2 + 3 * 4"` is 20. `None`
/// when a number does not parse, an operator is unknown or a divisor is 0.
pub fn eval(expr: &str) -> (r: Option<i64>)
    requires
        eval_spec(expr@) != Evaluation::Overflow,
    ensures
        r == (match eval_spec(expr@) {
            Evaluation::Value(v) => Some(v),
            _ => None::<i64>,
        }),
{
    match evaluate(expr) {
        Evaluation::Value(v) => Some(v),
        _ => None,
    }
}

/// What the calculator answers to a typed line.
#[derive(Debug, PartialEq, Eq)]
pub enum CalcReply {
    /// `exit` or `quit`: the line to print before closing.
    Close(String),
    /// The line to print: the result or a hint.
    Show(String),
    /// The expression overflows `i64`.
    Overflow,
}

/// The calculator's answer to `line`, as text: `None` for an overflow, and
/// whether the app closes.
pub open spec fn respond_spec(line: Seq<char>) -> (bool, Option<Seq<char>>) {
    let t = trim(line);
    if t == "exit"@ || t == "quit"@ {
        (true, Some("Closing Calculator."@))
    } else {
        match eval_spec(t) {
            Evaluation::Value(v) => (false, Some("= "@ + signed_decimal(v as int))),
            Evaluation::Invalid => (false, Some("Couldn't parse that. Try: 12 + 4"@)),
            Evaluation::Overflow => (false, None),
        }
    }
}

/// Answers one line typed at the `calc>` prompt.
pub fn respond(line: &str) -> (r: CalcReply)
    ensures
        respond_spec(line@) == (match r {
            CalcReply::Close(s) => (true, Some(s@)),
            CalcReply::Show(s) => (false, Some(s@)),
            CalcReply::Overflow => (false, None::<Seq<char>>),
        }),
{
    let t = trim_string(line);
    if str_eq(t.as_str(), "exit") || str_eq(t.as_str(), "quit") {
        return CalcReply::Close("Closing Calculator.".to_owned());
    }
    match evaluate(t.as_str()) {
        Evaluation::Value(v) => {
            let mut s = "= ".to_owned();
            s.append(signed_decimal_string(v).as_str());
            CalcReply::Show(s)
        },
        Evaluation::Invalid => CalcReply::Show("Couldn't parse that. Try: 12 + 4".to_owned()),
        Evaluation::Overflow => CalcReply::Overflow,
    }
}

} // verus!
