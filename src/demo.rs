//! The arithmetic that the harness checks itself on: gcd, its verifier, and the two
//! testbenches of pairs.

use vstd::prelude::*;
use crate::check::{first_failure, probed, Testbench};
use crate::text::{int_text, pair_text, Describe};

verus! {

/// The inputs of the gcd cases: every pair in `[0, 13) x [0, 13)` but `(0, 0)`, row by row.
pub open spec fn gcd_inputs() -> Seq<(i32, i32)> {
    Seq::new(168, |k: int| (((k + 1) / 13) as i32, ((k + 1) % 13) as i32))
}

/// The inputs of the multiplication cases: every pair in `[1, 6) x [1, 6)`, row by row.
pub open spec fn product_inputs() -> Seq<(i32, i32)> {
    Seq::new(25, |k: int| ((1 + k / 5) as i32, (1 + k % 5) as i32))
}

/// Probes every pair in `[0, 13) x [0, 13)` but `(0, 0)`, row by row, and stops at the
/// first failure.
pub fn gcdtb<P: Fn(&(i32, i32)) -> Option<String>>(probe: &P) -> (r: Option<String>)
    requires
        forall|k: int| 0 <= k < 168 ==> call_requires(*probe, (&#[trigger] gcd_inputs()[k],)),
    ensures
        first_failure(gcd_inputs(), probed(*probe), r),
{
    let mut i: i32 = 0;
    while i < 13
        invariant
            0 <= i <= 13,
            forall|k: int| 0 <= k < 168 ==> call_requires(*probe, (&#[trigger] gcd_inputs()[k],)),
            forall|t: int| 0 <= t < 13 * i - 1 ==> #[trigger] probed(*probe)(gcd_inputs()[t], None),
        decreases 13 - i,
    {
        let mut j: i32 = 0;
        while j < 13
            invariant
                0 <= i < 13,
                0 <= j <= 13,
                forall|k: int| 0 <= k < 168 ==> call_requires(*probe, (&#[trigger] gcd_inputs()[k],)),
                forall|t: int| 0 <= t < 13 * i + j - 1 ==> #[trigger] probed(*probe)(gcd_inputs()[t], None),
            decreases 13 - j,
        {
            if i > 0 || j > 0 {
                let inp = (i, j);
                assert(gcd_inputs()[13 * i + j - 1] == inp);
                let r = probe(&inp);
                if r.is_some() {
                    let ghost k = 13 * i + j - 1;
                    assert(probed(*probe)(gcd_inputs()[k], Some(r->0)));
                    assert(first_failure(gcd_inputs(), probed(*probe), r));
                    return r;
                }
            }
            j += 1;
        }
        i += 1;
    }
    None
}

/// Probes every pair in `[1, 6) x [1, 6)`, row by row, and stops at the first failure.
pub fn multiply_tb<P: Fn(&(i32, i32)) -> Option<String>>(probe: &P) -> (r: Option<String>)
    requires
        forall|k: int| 0 <= k < 25 ==> call_requires(*probe, (&#[trigger] product_inputs()[k],)),
    ensures
        first_failure(product_inputs(), probed(*probe), r),
{
    let mut i: i32 = 1;
    while i < 6
        invariant
            1 <= i <= 6,
            forall|k: int| 0 <= k < 25 ==> call_requires(*probe, (&#[trigger] product_inputs()[k],)),
            forall|t: int| 0 <= t < 5 * (i - 1) ==> #[trigger] probed(*probe)(product_inputs()[t], None),
        decreases 6 - i,
    {
        let mut j: i32 = 1;
        while j < 6
            invariant
                1 <= i < 6,
                1 <= j <= 6,
                forall|k: int| 0 <= k < 25 ==> call_requires(*probe, (&#[trigger] product_inputs()[k],)),
                forall|t: int| 0 <= t < 5 * (i - 1) + j - 1 ==> #[trigger] probed(*probe)(product_inputs()[t], None),
            decreases 6 - j,
        {
            let inp = (i, j);
            assert(product_inputs()[5 * (i - 1) + j - 1] == inp);
            let r = probe(&inp);
            if r.is_some() {
                let ghost k = 5 * (i - 1) + j - 1;
                assert(probed(*probe)(product_inputs()[k], Some(r->0)));
                assert(first_failure(product_inputs(), probed(*probe), r));
                return r;
            }
            j += 1;
        }
        i += 1;
    }
    None
}

} // verus!

verus! {

/// `d` divides `n`.
pub open spec fn divides(d: int, n: int) -> bool {
    if d == 0 {
        n == 0
    } else {
        n % (if d < 0 { -d } else { d }) == 0
    }
}

proof fn lemma_divides_combination(d: int, a: int, c: int, k: int)
    requires
        d > 0,
        a % d == 0,
        c % d == 0,
    ensures
        (k * a + c) % d == 0,
{
    vstd::arithmetic::div_mod::lemma_fundamental_div_mod(a, d);
    vstd::arithmetic::div_mod::lemma_fundamental_div_mod(c, d);
    let m = k * (a / d) + c / d;
    assert(k * a + c == m * d) by (nonlinear_arith)
        requires
            a == d * (a / d),
            c == d * (c / d),
            m == k * (a / d) + c / d,
    ;
    vstd::arithmetic::div_mod::lemma_mod_multiples_basic(m, d);
}

/// The greatest common divisor of two natural numbers that are not both zero.
pub fn gcd(a: i32, b: i32) -> (r: i32)
    requires
        a >= 0,
        b >= 0,
        a > 0 || b > 0,
    ensures
        r > 0,
        divides(r as int, a as int),
        divides(r as int, b as int),
        forall|d: int| d > 0 && divides(d, a as int) && divides(d, b as int) ==> #[trigger] divides(d, r as int),
    decreases a,
{
    if a == 0 {
        b
    } else {
        let r = gcd(b % a, a);
        proof {
            let q = b as int / a as int;
            vstd::arithmetic::div_mod::lemma_fundamental_div_mod(b as int, a as int);
            assert(b as int == q * a + b % a) by (nonlinear_arith)
                requires
                    b as int == a * q + b as int % a as int,
            ;
            lemma_divides_combination(r as int, a as int, (b % a) as int, q);
            assert forall|d: int| d > 0 && divides(d, a as int) && divides(d, b as int) implies #[trigger] divides(d, r as int) by {
                assert((b % a) as int == (-q) * a + b) by (nonlinear_arith)
                    requires
                        b as int == q * a + b % a,
                ;
                lemma_divides_combination(d, a as int, b as int, -q);
            }
        }
        r
    }
}

fn magnitude(x: i32) -> (r: i64)
    ensures
        r >= 0,
        r == x || r == -x,
{
    if x < 0 {
        -(x as i64)
    } else {
        x as i64
    }
}

proof fn lemma_divides_magnitude(d: int, n: int)
    requires
        d != 0,
    ensures
        divides(d, n) <==> (if n < 0 { -n } else { n }) % (if d < 0 { -d } else { d }) == 0,
{
    let e = if d < 0 { -d } else { d };
    if n < 0 {
        vstd::arithmetic::div_mod::lemma_fundamental_div_mod(n, e);
        vstd::arithmetic::div_mod::lemma_fundamental_div_mod(-n, e);
        if n % e == 0 {
            assert(-n == (-(n / e)) * e) by (nonlinear_arith)
                requires
                    n == e * (n / e),
            ;
            vstd::arithmetic::div_mod::lemma_mod_multiples_basic(-(n / e), e);
        }
        if (-n) % e == 0 {
            assert(n == (-((-n) / e)) * e) by (nonlinear_arith)
                requires
                    -n == e * ((-n) / e),
            ;
            vstd::arithmetic::div_mod::lemma_mod_multiples_basic(-((-n) / e), e);
        }
    }
}

/// The message of a gcd candidate that fails its check.
pub open spec fn wrong_answer_text(res: i32, a: i32, b: i32) -> Seq<char> {
    "wrong answer: "@ + int_text(res as int) + " by applying "@ + pair_text(
        int_text(a as int),
        int_text(b as int),
    )
}

/// Checks that `res` divides both numbers of `inp`; else a message with `res` and `inp`.
pub fn verify_gcd(res: &i32, inp: &(i32, i32)) -> (r: Option<String>)
    ensures
        r is None <==> divides(*res as int, inp.0 as int) && divides(*res as int, inp.1 as int),
        r is Some ==> r->0@ == wrong_answer_text(*res, inp.0, inp.1),
{
    let a = magnitude(inp.0);
    let b = magnitude(inp.1);
    let d = magnitude(*res);
    let ok = if d == 0 {
        a == 0 && b == 0
    } else {
        a % d == 0 && b % d == 0
    };
    proof {
        if d != 0 {
            lemma_divides_magnitude(*res as int, inp.0 as int);
            lemma_divides_magnitude(*res as int, inp.1 as int);
        }
    }
    if ok {
        None
    } else {
        let mut s = String::from_str("wrong answer: ");
        let x = res.describe();
        let y = inp.describe();
        s.append(x.as_str());
        s.append(" by applying ");
        s.append(y.as_str());
        Some(s)
    }
}

/// The testbench of the gcd cases.
pub struct GcdGrid;

impl Testbench<(i32, i32)> for GcdGrid {
    open spec fn domain(&self) -> Seq<(i32, i32)> {
        gcd_inputs()
    }

    fn sweep<P: Fn(&(i32, i32)) -> Option<String>>(&self, probe: &P) -> (r: Option<String>) {
        gcdtb(probe)
    }
}

/// The testbench of the multiplication cases.
pub struct ProductGrid;

impl Testbench<(i32, i32)> for ProductGrid {
    open spec fn domain(&self) -> Seq<(i32, i32)> {
        product_inputs()
    }

    fn sweep<P: Fn(&(i32, i32)) -> Option<String>>(&self, probe: &P) -> (r: Option<String>) {
        multiply_tb(probe)
    }
}

} // verus!
