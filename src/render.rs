use vstd::prelude::*;

use crate::sanitize::push_char;

verus! {

/// The character of a decimal digit.
pub open spec fn digit_char(d: nat) -> char {
    ((48 + d) as u32) as char
}

/// The decimal text of a natural number, without leading zeros.
pub open spec fn decimal(n: nat) -> Seq<char>
    decreases n,
{
    if n < 10 {
        seq![digit_char(n)]
    } else {
        decimal(n / 10).push(digit_char(n % 10))
    }
}

/// The decimal text of an integer, with a leading `-` when it is negative.
pub open spec fn signed_decimal(i: int) -> Seq<char> {
    if i < 0 {
        seq!['-'] + decimal((-i) as nat)
    } else {
        decimal(i as nat)
    }
}

/// Writes a natural number in decimal.
pub fn decimal_u64(n: u64) -> (r: String)
    ensures
        r@ == decimal(n as nat),
{
    let mut digits: Vec<char> = Vec::new();
    let mut m: u64 = n;
    // digits holds the low-order digits, least significant first
    while m >= 10
        invariant
            decimal(n as nat) == decimal(m as nat) + digits@.reverse(),
        decreases m,
    {
        let d: u64 = m % 10;
        digits.push(((d as u8) + 48) as char);
        proof {
            assert(decimal(m as nat) == decimal((m / 10) as nat).push(digit_char((m % 10) as nat)));
            assert(digits@.reverse() == seq![digit_char(d as nat)] + digits@.drop_last().reverse());
            assert(decimal(m as nat) + digits@.drop_last().reverse() == decimal((m / 10) as nat)
                + digits@.reverse());
        }
        m = m / 10;
    }
    let mut out = String::new();
    push_char(&mut out, ((m as u8) + 48) as char);
    let mut i: usize = digits.len();
    while i > 0
        invariant
            i <= digits.len(),
            decimal(n as nat) == decimal(m as nat) + digits@.reverse(),
            out@ == decimal(m as nat) + digits@.subrange(i as int, digits.len() as int).reverse(),
        decreases i,
    {
        i = i - 1;
        push_char(&mut out, digits[i]);
        proof {
            let s = digits@.subrange(i as int, digits.len() as int);
            assert(s.reverse() == digits@.subrange(i + 1, digits.len() as int).reverse().push(digits@[i as int]));
        }
    }
    proof {
        assert(digits@.subrange(0, digits.len() as int) == digits@);
    }
    out
}

/// Writes an integer in decimal, with a leading `-` when it is negative.
pub fn decimal_i64(n: i64) -> (r: String)
    ensures
        r@ == signed_decimal(n as int),
{
    if n < 0 {
        let magnitude: u64 = (-(n as i128)) as u64;
        let digits = decimal_u64(magnitude);
        let mut out = String::new();
        push_char(&mut out, '-');
        out.append(digits.as_str());
        out
    } else {
        decimal_u64(n as u64)
    }
}

/// One error of a causal chain: its display text, and the operating-system
/// error code it carries, if it carries one.
pub struct ErrorStep {
    pub message: String,
    pub os_error: Option<i32>,
}

/// An error followed by its causes, the outermost error first.
pub struct ErrorChain {
    pub steps: Vec<ErrorStep>,
}

/// A value attached to a log event under some key.
pub enum Value {
    Unit,
    Absent,
    Bool(bool),
    Char(char),
    U8(u8),
    I8(i8),
    U16(u16),
    I16(i16),
    U32(u32),
    I32(i32),
    U64(u64),
    I64(i64),
    Usize(usize),
    Isize(isize),
    Str(String),
    /// Text that was formatted before it reached the drain.
    Formatted(String),
    Error(ErrorChain),
}

/// The display texts of the errors of a chain, in order.
pub open spec fn messages(steps: Seq<ErrorStep>) -> Seq<Seq<char>> {
    steps.map_values(|s: ErrorStep| s.message@)
}

/// Texts joined with `": "` between neighbours.
pub open spec fn joined(texts: Seq<Seq<char>>) -> Seq<char>
    decreases texts.len(),
{
    if texts.len() == 0 {
        Seq::empty()
    } else if texts.len() == 1 {
        texts[0]
    } else {
        joined(texts.drop_last()) + seq![':', ' '] + texts.last()
    }
}

/// The text a value is written as.
pub open spec fn value_text(v: Value) -> Seq<char> {
    match v {
        Value::Unit => Seq::empty(),
        Value::Absent => "None"@,
        Value::Bool(b) => if b { "true"@ } else { "false"@ },
        Value::Char(c) => seq![c],
        Value::U8(n) => decimal(n as nat),
        Value::I8(n) => signed_decimal(n as int),
        Value::U16(n) => decimal(n as nat),
        Value::I16(n) => signed_decimal(n as int),
        Value::U32(n) => decimal(n as nat),
        Value::I32(n) => signed_decimal(n as int),
        Value::U64(n) => decimal(n as nat),
        Value::I64(n) => signed_decimal(n as int),
        Value::Usize(n) => decimal(n as nat),
        Value::Isize(n) => signed_decimal(n as int),
        Value::Str(s) => s@,
        Value::Formatted(s) => s@,
        Value::Error(e) => joined(messages(e.steps@)),
    }
}

/// Writes the display texts of a chain on one line, `"top: cause: cause"`.
pub fn join_messages(steps: &Vec<ErrorStep>) -> (r: String)
    ensures
        r@ == joined(messages(steps@)),
{
    let mut out = String::new();
    let mut i: usize = 0;
    while i < steps.len()
        invariant
            i <= steps.len(),
            out@ == joined(messages(steps@.subrange(0, i as int))),
        decreases steps.len() - i,
    {
        let ghost prefix = steps@.subrange(0, i as int);
        let ghost next = steps@.subrange(0, i + 1);
        proof {
            assert(messages(next).drop_last() == messages(prefix));
            assert(messages(next).last() == steps@[i as int].message@);
        }
        if i > 0 {
            push_char(&mut out, ':');
            push_char(&mut out, ' ');
        } else {
            assert(messages(prefix).len() == 0);
        }
        out.append(steps[i].message.as_str());
        proof {
            if i > 0 {
                assert(out@ == joined(messages(prefix)) + seq![':', ' '] + messages(next).last());
            } else {
                assert(out@ == messages(next)[0]);
            }
        }
        i = i + 1;
    }
    proof {
        assert(steps@.subrange(0, steps.len() as int) == steps@);
    }
    out
}

/// Writes a value as text; an error is written with its causes on one line.
pub fn render_value(v: &Value) -> (r: String)
    ensures
        r@ == value_text(*v),
{
    match v {
        Value::Unit => String::new(),
        Value::Absent => String::from_str("None"),
        Value::Bool(b) => if *b { String::from_str("true") } else { String::from_str("false") },
        Value::Char(c) => {
            let mut out = String::new();
            push_char(&mut out, *c);
            out
        },
        Value::U8(n) => decimal_u64(*n as u64),
        Value::I8(n) => decimal_i64(*n as i64),
        Value::U16(n) => decimal_u64(*n as u64),
        Value::I16(n) => decimal_i64(*n as i64),
        Value::U32(n) => decimal_u64(*n as u64),
        Value::I32(n) => decimal_i64(*n as i64),
        Value::U64(n) => decimal_u64(*n),
        Value::I64(n) => decimal_i64(*n),
        Value::Usize(n) => decimal_u64(*n as u64),
        Value::Isize(n) => decimal_i64(*n as i64),
        Value::Str(s) => s.clone(),
        Value::Formatted(s) => s.clone(),
        Value::Error(e) => join_messages(&e.steps),
    }
}

} // verus!
