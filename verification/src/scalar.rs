//! Scalars: the primitive values, which also serve as the segments of a
//! concrete path.

use vstd::prelude::*;
use vstd::std_specs::convert::FromSpecImpl;

verus! {

/// What a [`Scalar`] stands for.
pub enum ScalarView {
    Integer(int),
    Boolean(bool),
    Text(Seq<char>),
}

/// The decimal digit for `d`, which lies in `0..=9`.
pub open spec fn digit_char(d: int) -> char {
    if d == 0 {
        '0'
    } else if d == 1 {
        '1'
    } else if d == 2 {
        '2'
    } else if d == 3 {
        '3'
    } else if d == 4 {
        '4'
    } else if d == 5 {
        '5'
    } else if d == 6 {
        '6'
    } else if d == 7 {
        '7'
    } else if d == 8 {
        '8'
    } else {
        '9'
    }
}

/// The decimal numeral of `n`, without leading zeros.
pub open spec fn natural_text(n: nat) -> Seq<char>
    decreases n,
{
    if n < 10 {
        seq![digit_char(n as int)]
    } else {
        natural_text(n / 10).push(digit_char((n % 10) as int))
    }
}

/// The decimal numeral of `i`, with a leading `-` below zero.
pub open spec fn integer_text(i: int) -> Seq<char> {
    if i < 0 {
        seq!['-'] + natural_text((-i) as nat)
    } else {
        natural_text(i as nat)
    }
}

impl ScalarView {
    /// The textual form: an integer in decimal, a boolean as `true` or
    /// `false`, a text as it stands.
    pub open spec fn text(self) -> Seq<char> {
        match self {
            ScalarView::Integer(i) => integer_text(i),
            ScalarView::Boolean(b) => if b {
                seq!['t', 'r', 'u', 'e']
            } else {
                seq!['f', 'a', 'l', 's', 'e']
            },
            ScalarView::Text(t) => t,
        }
    }
}

/// A primitive value.
#[derive(Debug, PartialEq, Eq)]
pub enum Scalar {
    Integer(i64),
    Boolean(bool),
    Text(String),
}

impl View for Scalar {
    type V = ScalarView;

    open spec fn view(&self) -> ScalarView {
        match self {
            Scalar::Integer(i) => ScalarView::Integer(*i as int),
            Scalar::Boolean(b) => ScalarView::Boolean(*b),
            Scalar::Text(t) => ScalarView::Text(t@),
        }
    }
}

impl Clone for Scalar {
    fn clone(&self) -> (copy: Self)
        ensures
            copy@ == self@,
    {
        match self {
            Scalar::Integer(i) => Scalar::Integer(*i),
            Scalar::Boolean(b) => Scalar::Boolean(*b),
            Scalar::Text(t) => Scalar::Text(t.clone()),
        }
    }
}

impl From<i64> for Scalar {
    fn from(value: i64) -> (scalar: Scalar) {
        Scalar::Integer(value)
    }
}

impl FromSpecImpl<i64> for Scalar {
    open spec fn obeys_from_spec() -> bool {
        true
    }

    open spec fn from_spec(value: i64) -> Scalar {
        Scalar::Integer(value)
    }
}

impl From<i32> for Scalar {
    fn from(value: i32) -> (scalar: Scalar) {
        Scalar::Integer(value as i64)
    }
}

impl FromSpecImpl<i32> for Scalar {
    open spec fn obeys_from_spec() -> bool {
        true
    }

    open spec fn from_spec(value: i32) -> Scalar {
        Scalar::Integer(value as i64)
    }
}

impl From<bool> for Scalar {
    fn from(value: bool) -> (scalar: Scalar) {
        Scalar::Boolean(value)
    }
}

impl FromSpecImpl<bool> for Scalar {
    open spec fn obeys_from_spec() -> bool {
        true
    }

    open spec fn from_spec(value: bool) -> Scalar {
        Scalar::Boolean(value)
    }
}

impl From<String> for Scalar {
    fn from(value: String) -> (scalar: Scalar) {
        Scalar::Text(value)
    }
}

impl FromSpecImpl<String> for Scalar {
    open spec fn obeys_from_spec() -> bool {
        true
    }

    open spec fn from_spec(value: String) -> Scalar {
        Scalar::Text(value)
    }
}

impl<'a> From<&'a str> for Scalar {
    fn from(value: &'a str) -> (scalar: Scalar)
        ensures
            scalar@ == ScalarView::Text(value@),
    {
        Scalar::Text(value.to_owned())
    }
}

impl<'a> FromSpecImpl<&'a str> for Scalar {
    open spec fn obeys_from_spec() -> bool {
        false
    }

    open spec fn from_spec(value: &'a str) -> Scalar {
        arbitrary()
    }
}

/// The numeral of one decimal digit.
fn digit_str(d: u64) -> (text: &'static str)
    requires
        d < 10,
    ensures
        text@ == seq![digit_char(d as int)],
{
    proof {
        reveal_strlit("0");
        reveal_strlit("1");
        reveal_strlit("2");
        reveal_strlit("3");
        reveal_strlit("4");
        reveal_strlit("5");
        reveal_strlit("6");
        reveal_strlit("7");
        reveal_strlit("8");
        reveal_strlit("9");
    }
    let text = if d == 0 {
        "0"
    } else if d == 1 {
        "1"
    } else if d == 2 {
        "2"
    } else if d == 3 {
        "3"
    } else if d == 4 {
        "4"
    } else if d == 5 {
        "5"
    } else if d == 6 {
        "6"
    } else if d == 7 {
        "7"
    } else if d == 8 {
        "8"
    } else {
        "9"
    };
    assert(text@ =~= seq![digit_char(d as int)]);
    text
}

/// Appends the decimal numeral of `n` to `out`.
fn push_natural(out: &mut String, n: u64)
    ensures
        final(out)@ == old(out)@ + natural_text(n as nat),
    decreases n,
{
    if n >= 10 {
        push_natural(out, n / 10);
    }
    out.append(digit_str(n % 10));
}

impl Scalar {
    /// The textual form of this scalar.
    pub fn to_text(&self) -> (text: String)
        ensures
            text@ == self@.text(),
    {
        match self {
            Scalar::Integer(i) => {
                let mut out = String::new();
                if *i < 0 {
                    out.append("-");
                    let magnitude: u64 = if *i == i64::MIN {
                        9223372036854775808u64
                    } else {
                        (-*i) as u64
                    };
                    proof {
                        reveal_strlit("-");
                    }
                    push_natural(&mut out, magnitude);
                } else {
                    push_natural(&mut out, *i as u64);
                }
                out
            },
            Scalar::Boolean(b) => {
                proof {
                    reveal_strlit("true");
                    reveal_strlit("false");
                }
                if *b {
                    "true".to_owned()
                } else {
                    "false".to_owned()
                }
            },
            Scalar::Text(t) => t.clone(),
        }
    }
}

} // verus!
