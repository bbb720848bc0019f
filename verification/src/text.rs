//! The textual form of generated values.

use vstd::prelude::*;
use vstd::string::StringExecFns;

verus! {

/// A value that has a textual form, which is a function of its deep view.
pub trait ToText: DeepView + Sized {
    /// The text of a value whose deep view is `model`.
    spec fn text(model: Self::V) -> Seq<char>;

    /// The text of the value.
    fn to_text(&self) -> (s: String)
        ensures
            s@ == Self::text(self.deep_view()),
    ;
}

/// The character of the digit `d`.
pub open spec fn digit_char(d: nat) -> char {
    if d == 0 {
        '0'
    } else if d == 1 {
        '1'
    } else if d == 2 {
        '2'
    } else if d == 3 {
        '3'
    } else if d == 4 {
        '4'
    } else if d == 5 {
        '5'
    } else if d == 6 {
        '6'
    } else if d == 7 {
        '7'
    } else if d == 8 {
        '8'
    } else {
        '9'
    }
}

/// The decimal digits of `n`, without leading zeros.
pub open spec fn decimal(n: nat) -> Seq<char>
    decreases n,
{
    if n < 10 {
        seq![digit_char(n)]
    } else {
        decimal(n / 10).push(digit_char(n % 10))
    }
}

/// The decimal form of the integer `n`, with a minus sign where it is negative.
pub open spec fn signed_decimal(n: int) -> Seq<char> {
    if n < 0 {
        seq!['-'] + decimal((-n) as nat)
    } else {
        decimal(n as nat)
    }
}

/// The texts of `items`, separated by a comma and a space.
pub open spec fn comma_separated<T: ToText>(items: Seq<T::V>) -> Seq<char>
    decreases items.len(),
{
    if items.len() == 0 {
        Seq::empty()
    } else if items.len() == 1 {
        T::text(items[0])
    } else {
        comma_separated::<T>(items.drop_last()) + seq![',', ' '] + T::text(items.last())
    }
}

/// The text of a sequence: its items' texts in brackets.
pub open spec fn bracketed<T: ToText>(items: Seq<T::V>) -> Seq<char> {
    seq!['['] + comma_separated::<T>(items) + seq![']']
}

/// Appends the character of the digit `d` to `s`.
fn push_digit(s: &mut String, d: u64)
    requires
        d < 10,
    ensures
        final(s)@ == old(s)@.push(digit_char(d as nat)),
{
    proof {
        reveal_strlit("0");
        reveal_strlit("1");
        reveal_strlit("2");
        reveal_strlit("3");
        reveal_strlit("4");
        reveal_strlit("5");
        reveal_strlit("6");
        reveal_strlit("7");
        reveal_strlit("8");
        reveal_strlit("9");
    }
    let digit: &str = if d == 0 {
        "0"
    } else if d == 1 {
        "1"
    } else if d == 2 {
        "2"
    } else if d == 3 {
        "3"
    } else if d == 4 {
        "4"
    } else if d == 5 {
        "5"
    } else if d == 6 {
        "6"
    } else if d == 7 {
        "7"
    } else if d == 8 {
        "8"
    } else {
        "9"
    };
    s.append(digit);
}

/// Appends the decimal digits of `n` to `s`.
pub fn push_decimal(s: &mut String, n: u64)
    ensures
        final(s)@ == old(s)@ + decimal(n as nat),
    decreases n,
{
    if n >= 10 {
        push_decimal(s, n / 10);
    }
    push_digit(s, n % 10);
}

impl ToText for i64 {
    open spec fn text(model: i64) -> Seq<char> {
        signed_decimal(model as int)
    }

    fn to_text(&self) -> (s: String) {
        let mut s = String::new();
        if *self < 0 {
            proof {
                reveal_strlit("-");
            }
            s.append("-");
            let magnitude: u64 = (-(*self as i128)) as u64;
            push_decimal(&mut s, magnitude);
        } else {
            push_decimal(&mut s, *self as u64);
        }
        s
    }
}

impl ToText for bool {
    open spec fn text(model: bool) -> Seq<char> {
        if model {
            seq!['t', 'r', 'u', 'e']
        } else {
            seq!['f', 'a', 'l', 's', 'e']
        }
    }

    fn to_text(&self) -> (s: String) {
        proof {
            reveal_strlit("true");
            reveal_strlit("false");
        }
        let s = if *self {
            String::from_str("true")
        } else {
            String::from_str("false")
        };
        s
    }
}

impl<T: ToText> ToText for Vec<T> {
    open spec fn text(model: Seq<T::V>) -> Seq<char> {
        bracketed::<T>(model)
    }

    fn to_text(&self) -> (s: String) {
        proof {
            reveal_strlit("[");
            reveal_strlit("]");
        }
        let mut s = String::from_str("[");
        let ghost items = self.deep_view();
        let mut i: usize = 0;
        while i < self.len()
            invariant
                i <= self.len(),
                items == self.deep_view(),
                s@ == seq!['['] + comma_separated::<T>(items.take(i as int)),
            decreases self.len() - i,
        {
            if i > 0 {
                s.append(", ");
            }
            let item = self[i].to_text();
            s.append(item.as_str());
            proof {
                let next = items.take(i + 1);
                assert(next.drop_last() =~= items.take(i as int));
                reveal_strlit(", ");
            }
            i = i + 1;
        }
        assert(items.take(i as int) =~= items);
        s.append("]");
        s
    }
}

} // verus!
