//! Typed values of the expression language: integers, strings and booleans,
//! together with the boolean coercion used wherever a rule needs a truth
//! value.

use vstd::prelude::*;

verus! {

use vstd::string::StrSliceExecFns;

/// Mathematical model of a [`Value`]: integers are unbounded, strings are
/// character sequences.
pub enum ValueV {
    Int(int),
    Str(Seq<char>),
    Bool(bool),
}

/// A value of the expression language, as stored in a metrics map or
/// produced by evaluating an expression.
#[derive(Debug, PartialEq, Eq)]
pub enum Value {
    Int(i64),
    Str(String),
    Bool(bool),
}

impl View for Value {
    type V = ValueV;

    open spec fn view(&self) -> ValueV {
        match self {
            Value::Int(i) => ValueV::Int(*i as int),
            Value::Str(s) => ValueV::Str(s@),
            Value::Bool(b) => ValueV::Bool(*b),
        }
    }
}

impl Clone for Value {
    fn clone(&self) -> (r: Value)
        ensures
            r@ == self@,
    {
        match self {
            Value::Int(i) => Value::Int(*i),
            Value::Str(s) => Value::Str(s.clone()),
            Value::Bool(b) => Value::Bool(*b),
        }
    }
}

/// Whether `s` spells the word "false", in any mixture of case.
pub open spec fn is_false_word(s: Seq<char>) -> bool {
    &&& s.len() == 5
    &&& (s[0] == 'f' || s[0] == 'F')
    &&& (s[1] == 'a' || s[1] == 'A')
    &&& (s[2] == 'l' || s[2] == 'L')
    &&& (s[3] == 's' || s[3] == 'S')
    &&& (s[4] == 'e' || s[4] == 'E')
}

/// Boolean coercion: an integer is true iff nonzero; a string is true iff it
/// is non-empty and spells neither "false" (case-insensitively) nor "0"; a
/// boolean passes through.
pub open spec fn as_bool_v(v: ValueV) -> bool {
    match v {
        ValueV::Int(i) => i != 0,
        ValueV::Str(s) => s.len() > 0 && !is_false_word(s) && !(s.len() == 1 && s[0] == '0'),
        ValueV::Bool(b) => b,
    }
}

impl Value {
    /// Coerce this value to a boolean, per [`as_bool_v`].
    pub fn as_bool(&self) -> (r: bool)
        ensures
            r == as_bool_v(self@),
    {
        match self {
            Value::Int(i) => *i != 0,
            Value::Bool(b) => *b,
            Value::Str(s) => {
                let st: &str = s.as_str();
                let n = st.unicode_len();
                if n == 0 {
                    false
                } else if n == 1 {
                    let c0 = st.get_char(0);
                    c0 != '0'
                } else if n == 5 {
                    let c0 = st.get_char(0);
                    let c1 = st.get_char(1);
                    let c2 = st.get_char(2);
                    let c3 = st.get_char(3);
                    let c4 = st.get_char(4);
                    let spells_false = (c0 == 'f' || c0 == 'F') && (c1 == 'a' || c1 == 'A') && (c2
                        == 'l' || c2 == 'L') && (c3 == 's' || c3 == 'S') && (c4 == 'e' || c4
                        == 'E');
                    !spells_false
                } else {
                    true
                }
            },
        }
    }
}

/// Strict lexicographic order on character sequences, comparing code points,
/// starting at position `i` of both.
pub open spec fn lex_lt_from(a: Seq<char>, b: Seq<char>, i: int) -> bool
    decreases a.len() - i,
    when 0 <= i
{
    if i >= b.len() {
        false
    } else if i >= a.len() {
        true
    } else if (a[i] as u32) < (b[i] as u32) {
        true
    } else if (a[i] as u32) > (b[i] as u32) {
        false
    } else {
        lex_lt_from(a, b, i + 1)
    }
}

/// Strict lexicographic order on character sequences by code point.
pub open spec fn lex_lt(a: Seq<char>, b: Seq<char>) -> bool {
    lex_lt_from(a, b, 0)
}

fn lex_lt_str_from(a: &str, b: &str, i: usize) -> (r: bool)
    requires
        i <= a@.len(),
        i <= b@.len(),
    ensures
        r == lex_lt_from(a@, b@, i as int),
    decreases a@.len() - i,
{
    if i >= b.unicode_len() {
        false
    } else if i >= a.unicode_len() {
        true
    } else {
        let ca = a.get_char(i) as u32;
        let cb = b.get_char(i) as u32;
        if ca < cb {
            true
        } else if ca > cb {
            false
        } else {
            lex_lt_str_from(a, b, i + 1)
        }
    }
}

/// Compare two strings in the strict lexicographic order [`lex_lt`].
pub fn lex_lt_str(a: &String, b: &String) -> (r: bool)
    ensures
        r == lex_lt(a@, b@),
{
    lex_lt_str_from(a.as_str(), b.as_str(), 0)
}

} // verus!
