use vstd::prelude::*;

verus! {

/// A runtime value of the language.
#[derive(Debug)]
pub enum TermValue {
    Number(i64),
    True,
    False,
    Nil,
    StringValue(String),
    Empty,
    Error(String),
    /// Index into the function table of the scope that declared the function.
    Function(usize),
}

/// The mathematical model of a runtime value: strings become character sequences.
pub enum Val {
    Number(i64),
    True,
    False,
    Nil,
    Str(Seq<char>),
    Empty,
    Error(Seq<char>),
    Function(nat),
}

impl View for TermValue {
    type V = Val;

    open spec fn view(&self) -> Val {
        match self {
            TermValue::Number(n) => Val::Number(*n),
            TermValue::True => Val::True,
            TermValue::False => Val::False,
            TermValue::Nil => Val::Nil,
            TermValue::StringValue(s) => Val::Str(s@),
            TermValue::Empty => Val::Empty,
            TermValue::Error(s) => Val::Error(s@),
            TermValue::Function(i) => Val::Function(*i as nat),
        }
    }
}

/// Equality of the language: numbers, strings and errors by payload, the other
/// variants by tag alone; any two functions are equal.
pub open spec fn values_equal(a: Val, b: Val) -> bool {
    match (a, b) {
        (Val::Number(x), Val::Number(y)) => x == y,
        (Val::True, Val::True) => true,
        (Val::False, Val::False) => true,
        (Val::Nil, Val::Nil) => true,
        (Val::Str(x), Val::Str(y)) => x == y,
        (Val::Empty, Val::Empty) => true,
        (Val::Error(x), Val::Error(y)) => x == y,
        (Val::Function(_), Val::Function(_)) => true,
        _ => false,
    }
}

/// The boolean value of the language for a truth value.
pub open spec fn bool_val(b: bool) -> Val {
    if b {
        Val::True
    } else {
        Val::False
    }
}

pub open spec fn is_error(v: Val) -> bool {
    v is Error
}

impl TermValue {
    pub fn from_bool(b: bool) -> (r: TermValue)
        ensures
            r@ == bool_val(b),
    {
        if b {
            TermValue::True
        } else {
            TermValue::False
        }
    }

    pub fn is_error(&self) -> (r: bool)
        ensures
            r == is_error(self@),
    {
        matches!(self, TermValue::Error(_))
    }
}

impl PartialEq for TermValue {
    fn eq(&self, other: &TermValue) -> (r: bool) {
        match (self, other) {
            (TermValue::Number(a), TermValue::Number(b)) => *a == *b,
            (TermValue::True, TermValue::True) => true,
            (TermValue::False, TermValue::False) => true,
            (TermValue::Nil, TermValue::Nil) => true,
            (TermValue::StringValue(a), TermValue::StringValue(b)) => a.eq(b),
            (TermValue::Empty, TermValue::Empty) => true,
            (TermValue::Error(a), TermValue::Error(b)) => a.eq(b),
            (TermValue::Function(_), TermValue::Function(_)) => true,
            _ => false,
        }
    }
}

impl vstd::std_specs::cmp::PartialEqSpecImpl for TermValue {
    open spec fn obeys_eq_spec() -> bool {
        true
    }

    open spec fn eq_spec(&self, other: &TermValue) -> bool {
        values_equal(self@, other@)
    }
}

impl Clone for TermValue {
    fn clone(&self) -> (r: TermValue)
        ensures
            r@ == self@,
    {
        match self {
            TermValue::Number(n) => TermValue::Number(*n),
            TermValue::True => TermValue::True,
            TermValue::False => TermValue::False,
            TermValue::Nil => TermValue::Nil,
            TermValue::StringValue(s) => TermValue::StringValue(s.clone()),
            TermValue::Empty => TermValue::Empty,
            TermValue::Error(s) => TermValue::Error(s.clone()),
            TermValue::Function(i) => TermValue::Function(*i),
        }
    }
}

/// The character of a decimal digit.
pub open spec fn digit_char(d: nat) -> char {
    if d == 0 {
        '0'
    } else if d == 1 {
        '1'
    } else if d == 2 {
        '2'
    } else if d == 3 {
        '3'
    } else if d == 4 {
        '4'
    } else if d == 5 {
        '5'
    } else if d == 6 {
        '6'
    } else if d == 7 {
        '7'
    } else if d == 8 {
        '8'
    } else {
        '9'
    }
}

pub open spec fn is_digit(c: char) -> bool {
    '0' <= c <= '9'
}

/// A non-empty run of decimal digits.
pub open spec fn is_decimal(t: Seq<char>) -> bool {
    t.len() > 0 && forall|i: int| 0 <= i < t.len() ==> is_digit(#[trigger] t[i])
}

/// The number that a run of decimal digits denotes.
pub open spec fn decimal_value(t: Seq<char>) -> int
    decreases t.len(),
{
    if t.len() == 0 {
        0
    } else {
        decimal_value(t.drop_last()) * 10 + (t.last() as int - '0' as int)
    }
}

/// A longer run of digits denotes at least as much as its prefixes.
pub proof fn lemma_decimal_value_prefix(t: Seq<char>, k: int)
    requires
        0 <= k <= t.len(),
        forall|i: int| 0 <= i < t.len() ==> is_digit(#[trigger] t[i]),
    ensures
        0 <= decimal_value(t.take(k)) <= decimal_value(t),
    decreases t.len(),
{
    if k == t.len() {
        assert(t.take(k) =~= t);
        lemma_decimal_value_nonneg(t);
    } else {
        let d = t.drop_last();
        assert forall|i: int| 0 <= i < d.len() implies is_digit(#[trigger] d[i]) by {
            assert(d[i] == t[i]);
        }
        lemma_decimal_value_prefix(d, k);
        assert(d.take(k) =~= t.take(k));
        lemma_decimal_value_nonneg(d);
        assert(is_digit(t[t.len() - 1]));
    }
}

proof fn lemma_decimal_value_nonneg(t: Seq<char>)
    requires
        forall|i: int| 0 <= i < t.len() ==> is_digit(#[trigger] t[i]),
    ensures
        decimal_value(t) >= 0,
    decreases t.len(),
{
    if t.len() > 0 {
        let d = t.drop_last();
        assert forall|i: int| 0 <= i < d.len() implies is_digit(#[trigger] d[i]) by {
            assert(d[i] == t[i]);
        }
        lemma_decimal_value_nonneg(d);
        assert(is_digit(t[t.len() - 1]));
    }
}

/// Decimal digits of a natural number, most significant first, without leading zeros.
pub open spec fn nat_text(n: nat) -> Seq<char>
    decreases n,
{
    if n < 10 {
        seq![digit_char(n)]
    } else {
        nat_text(n / 10).push(digit_char(n % 10))
    }
}

/// Decimal text of an integer, with a leading `-` when it is negative.
pub open spec fn int_text(n: int) -> Seq<char> {
    if n < 0 {
        seq!['-'] + nat_text((-n) as nat)
    } else {
        nat_text(n as nat)
    }
}

/// The text that `print` writes for a value.
pub open spec fn render(v: Val) -> Seq<char> {
    match v {
        Val::Nil => "nil"@,
        Val::True => "true"@,
        Val::False => "false"@,
        Val::Number(n) => int_text(n as int),
        Val::Str(s) => s,
        _ => "unknown"@,
    }
}

fn digit_str(d: u64) -> (r: &'static str)
    requires
        d < 10,
    ensures
        r@ == seq![digit_char(d as nat)],
{
    proof {
        reveal_strlit("0");
        reveal_strlit("1");
        reveal_strlit("2");
        reveal_strlit("3");
        reveal_strlit("4");
        reveal_strlit("5");
        reveal_strlit("6");
        reveal_strlit("7");
        reveal_strlit("8");
        reveal_strlit("9");
    }
    if d == 0 {
        "0"
    } else if d == 1 {
        "1"
    } else if d == 2 {
        "2"
    } else if d == 3 {
        "3"
    } else if d == 4 {
        "4"
    } else if d == 5 {
        "5"
    } else if d == 6 {
        "6"
    } else if d == 7 {
        "7"
    } else if d == 8 {
        "8"
    } else {
        "9"
    }
}

fn append_digits(n: u64, out: &mut String)
    ensures
        final(out)@ == old(out)@ + nat_text(n as nat),
    decreases n,
{
    if n >= 10 {
        append_digits(n / 10, out);
    }
    out.append(digit_str(n % 10));
    proof {
        if n >= 10 {
            assert(old(out)@ + nat_text((n / 10) as nat) + seq![digit_char((n % 10) as nat)]
                =~= old(out)@ + nat_text(n as nat));
        } else {
            assert(old(out)@ + seq![digit_char(n as nat)] =~= old(out)@ + nat_text(n as nat));
        }
    }
}

/// Decimal text of a 64-bit integer.
pub fn int_to_text(n: i64) -> (r: String)
    ensures
        r@ == int_text(n as int),
{
    let mut out = String::new();
    if n < 0 {
        out.append("-");
        let m: u64 = (0 - (n as i128)) as u64;
        append_digits(m, &mut out);
        proof {
            reveal_strlit("-");
        }
    } else {
        append_digits(n as u64, &mut out);
    }
    out
}

/// The text that `print` writes for a value.
pub fn render_value(v: &TermValue) -> (r: String)
    ensures
        r@ == render(v@),
{
    match v {
        TermValue::Nil => String::from_str("nil"),
        TermValue::True => String::from_str("true"),
        TermValue::False => String::from_str("false"),
        TermValue::Number(n) => int_to_text(*n),
        TermValue::StringValue(s) => s.clone(),
        _ => String::from_str("unknown"),
    }
}

} // verus!
