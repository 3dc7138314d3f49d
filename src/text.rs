use vstd::prelude::*;

verus! {

/// Decimal digits of a natural number, most significant first.
pub open spec fn digits(n: nat) -> Seq<char>
    decreases n,
{
    if n < 10 {
        seq![digit_char(n)]
    } else {
        digits(n / 10).push(digit_char(n % 10))
    }
}

pub open spec fn digit_char(d: nat) -> char {
    if d == 0 { '0' } else if d == 1 { '1' } else if d == 2 { '2' } else if d == 3 { '3' }
    else if d == 4 { '4' } else if d == 5 { '5' } else if d == 6 { '6' } else if d == 7 { '7' }
    else if d == 8 { '8' } else { '9' }
}

/// An integer written in decimal, with a leading `-` when negative.
pub open spec fn int_text(x: int) -> Seq<char> {
    if x < 0 {
        seq!['-'] + digits((-x) as nat)
    } else {
        digits(x as nat)
    }
}

/// Values that a failure message can show.
pub trait Describe {
    /// The text that stands for the value in a message.
    spec fn text(&self) -> Seq<char>;

    fn describe(&self) -> (r: String)
        ensures
            r@ == self.text(),
    ;
}

/// Relies on the `Debug` formatting of `i32`: the value in decimal, `-` first when negative.
#[verifier::external_body]
fn i32_debug(x: i32) -> (r: String)
    ensures
        r@ == int_text(x as int),
{
    format!("{:?}", x)
}

impl Describe for i32 {
    open spec fn text(&self) -> Seq<char> {
        int_text(*self as int)
    }

    fn describe(&self) -> (r: String) {
        i32_debug(*self)
    }
}

/// A pair is shown as `(a, b)`.
pub open spec fn pair_text(a: Seq<char>, b: Seq<char>) -> Seq<char> {
    seq!['('] + a + seq![',', ' '] + b + seq![')']
}

impl<A: Describe, B: Describe> Describe for (A, B) {
    open spec fn text(&self) -> Seq<char> {
        pair_text(self.0.text(), self.1.text())
    }

    fn describe(&self) -> (r: String) {
        let mut s = String::from_str("(");
        let a = self.0.describe();
        let b = self.1.describe();
        s.append(a.as_str());
        s.append(", ");
        s.append(b.as_str());
        s.append(")");
        proof {
            reveal_strlit("(");
            reveal_strlit(", ");
            reveal_strlit(")");
            assert(s@ =~= pair_text(a@, b@));
        }
        s
    }
}

} // verus!
