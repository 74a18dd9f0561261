//! Textual forms: decimal numerals, and the plain and typeset renderings of
//! scalars and fractions.

use vstd::prelude::*;
use vstd::string::StringExecFns;
use crate::rat::Rat;
use crate::rules::RealArithmetic;

verus! {

/// The character for a single decimal digit.
pub open spec fn digit(v: int) -> char {
    if v == 0 {
        '0'
    } else if v == 1 {
        '1'
    } else if v == 2 {
        '2'
    } else if v == 3 {
        '3'
    } else if v == 4 {
        '4'
    } else if v == 5 {
        '5'
    } else if v == 6 {
        '6'
    } else if v == 7 {
        '7'
    } else if v == 8 {
        '8'
    } else {
        '9'
    }
}

/// The decimal digits of a natural number, most significant first, without
/// leading zeros.
pub open spec fn digits(v: nat) -> Seq<char>
    decreases v,
{
    if v < 10 {
        seq![digit(v as int)]
    } else {
        digits(v / 10).push(digit((v % 10) as int))
    }
}

/// The decimal numeral of an integer, with a minus sign where it is negative.
pub open spec fn decimal(v: int) -> Seq<char> {
    if v < 0 {
        seq!['-'] + digits((-v) as nat)
    } else {
        digits(v as nat)
    }
}

/// The plain form of a fraction whose parts have the given plain forms.
pub open spec fn plain_fraction(n: Seq<char>, d: Seq<char>) -> Seq<char> {
    seq!['('] + n + seq!['/'] + d + seq![')']
}

/// The typeset form of a fraction whose parts have the given typeset forms.
pub open spec fn latex_fraction(n: Seq<char>, d: Seq<char>) -> Seq<char> {
    seq!['\\', 'f', 'r', 'a', 'c', '{'] + n + seq!['}', '{'] + d + seq!['}']
}

/// Values with a plain textual form.
pub trait Plain {
    spec fn plain_text(&self) -> Seq<char>;

    fn fmt(&self) -> (s: String)
        ensures
            s@ == self.plain_text(),
    ;
}

/// Values with a typeset form.
pub trait LaTeX {
    spec fn latex_text(&self) -> Seq<char>;

    fn latex(&self) -> (s: String)
        ensures
            s@ == self.latex_text(),
    ;
}

fn digit_str(v: u64) -> (s: &'static str)
    requires
        v < 10,
    ensures
        s@ == seq![digit(v as int)],
{
    proof {
        reveal_strlit("0");
        reveal_strlit("1");
        reveal_strlit("2");
        reveal_strlit("3");
        reveal_strlit("4");
        reveal_strlit("5");
        reveal_strlit("6");
        reveal_strlit("7");
        reveal_strlit("8");
        reveal_strlit("9");
    }
    let s: &'static str = if v == 0 {
        "0"
    } else if v == 1 {
        "1"
    } else if v == 2 {
        "2"
    } else if v == 3 {
        "3"
    } else if v == 4 {
        "4"
    } else if v == 5 {
        "5"
    } else if v == 6 {
        "6"
    } else if v == 7 {
        "7"
    } else if v == 8 {
        "8"
    } else {
        "9"
    };
    assert(s@ =~= seq![digit(v as int)]);
    s
}

fn digits_of(v: u64) -> (s: String)
    ensures
        s@ == digits(v as nat),
    decreases v,
{
    if v < 10 {
        String::from_str(digit_str(v))
    } else {
        let mut s: String = digits_of(v / 10);
        s.append(digit_str(v % 10));
        assert(s@ =~= digits(v as nat));
        s
    }
}

/// The decimal numeral of `v`.
pub fn decimal_of(v: i64) -> (s: String)
    ensures
        s@ == decimal(v as int),
{
    if v < 0 {
        let m: u64 = ((-(v + 1)) as u64) + 1;
        let tail: String = digits_of(m);
        proof {
            reveal_strlit("-");
        }
        let s: String = String::from_str("-").concat(tail.as_str());
        assert(s@ =~= decimal(v as int));
        s
    } else {
        digits_of(v as u64)
    }
}

impl Plain for i64 {
    open spec fn plain_text(&self) -> Seq<char> {
        decimal(*self as int)
    }

    fn fmt(&self) -> (s: String) {
        decimal_of(*self)
    }
}

impl LaTeX for i64 {
    open spec fn latex_text(&self) -> Seq<char> {
        decimal(*self as int)
    }

    fn latex(&self) -> (s: String) {
        decimal_of(*self)
    }
}

impl<R: RealArithmetic + Plain> Plain for Rat<R> {
    open spec fn plain_text(&self) -> Seq<char> {
        plain_fraction(self.n.plain_text(), self.d.plain_text())
    }

    /// The stored pair as `(numerator/denominator)`.
    fn fmt(&self) -> (s: String) {
        proof {
            reveal_strlit("(");
            reveal_strlit("/");
            reveal_strlit(")");
        }
        let mut s: String = String::from_str("(");
        s.append(self.n.fmt().as_str());
        s.append("/");
        s.append(self.d.fmt().as_str());
        s.append(")");
        assert(s@ =~= self.plain_text());
        s
    }
}

impl<R: RealArithmetic + LaTeX> LaTeX for Rat<R> {
    open spec fn latex_text(&self) -> Seq<char> {
        latex_fraction(self.n.latex_text(), self.d.latex_text())
    }

    /// The stored pair as `\frac{numerator}{denominator}`.
    fn latex(&self) -> (s: String) {
        proof {
            reveal_strlit("\\frac{");
            reveal_strlit("}{");
            reveal_strlit("}");
        }
        let mut s: String = String::from_str("\\frac{");
        s.append(self.n.latex().as_str());
        s.append("}{");
        s.append(self.d.latex().as_str());
        s.append("}");
        assert(s@ =~= self.latex_text());
        s
    }
}

} // verus!
