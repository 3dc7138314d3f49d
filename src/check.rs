use vstd::prelude::*;
use crate::text::Describe;
use vstd::std_specs::cmp::PartialEqSpec;

verus! {

/// `r` is what a sweep over `dom`, in order, stopping at the first failure, may give,
/// where `step(x, o)` says that probing `x` may give `o`.
pub open spec fn first_failure<In>(
    dom: Seq<In>,
    step: spec_fn(In, Option<String>) -> bool,
    r: Option<String>,
) -> bool {
    match r {
        None => forall|k: int| 0 <= k < dom.len() ==> #[trigger] step(dom[k], None),
        Some(m) => exists|k: int|
            0 <= k < dom.len() && #[trigger] step(dom[k], Some(m))
                && forall|j: int| 0 <= j < k ==> #[trigger] step(dom[j], None),
    }
}

/// What probing `x` with `probe` may give.
pub open spec fn probed<In, P: Fn(&In) -> Option<String>>(probe: P) -> spec_fn(In, Option<String>) -> bool {
    |x: In, o: Option<String>| call_ensures(probe, (&x,), o)
}

/// A domain of inputs, swept in a fixed order.
pub trait Testbench<In> {
    /// The inputs, in the order in which they are tried.
    spec fn domain(&self) -> Seq<In>;

    /// Applies `probe` to each input of the domain in order and returns the first failure.
    fn sweep<P: Fn(&In) -> Option<String>>(&self, probe: &P) -> (r: Option<String>)
        requires
            forall|k: int| 0 <= k < self.domain().len() ==> call_requires(*probe, (&#[trigger] self.domain()[k],)),
        ensures
            first_failure(self.domain(), probed(*probe), r),
    ;
}

} // verus!

verus! {

/// The message of a fixed-value check whose result differs from the one expected.
pub open spec fn mismatch_text(expect: Seq<char>, actual: Seq<char>) -> Seq<char> {
    "expect: "@ + expect + ", actual: "@ + actual
}

/// The message of a comparison with an oracle that differs on `input`.
pub open spec fn divergence_text(expect: Seq<char>, actual: Seq<char>, input: Seq<char>) -> Seq<char> {
    mismatch_text(expect, actual) + ", by applying "@ + input
}

/// The verdict on a value `actual` that should equal `expect`.
pub open spec fn fixed_verdict<T: PartialEq + Describe>(expect: T, actual: T, r: Option<String>) -> bool {
    if expect.eq_spec(&actual) {
        r is None
    } else {
        r is Some && r->0@ == mismatch_text(expect.text(), actual.text())
    }
}

/// The verdict on `x` when `casefunc` may give `actual` and `oracle` may give `expect` there.
pub open spec fn oracle_verdict<In: Describe, Out: PartialEq + Describe>(
    x: In,
    expect: Out,
    actual: Out,
    r: Option<String>,
) -> bool {
    if actual.eq_spec(&expect) {
        r is None
    } else {
        r is Some && r->0@ == divergence_text(expect.text(), actual.text(), x.text())
    }
}

/// Probing `x` against the oracle may give `r`.
pub open spec fn compared<In: Describe, Out: PartialEq + Describe, F: Fn(&In) -> Out, H: Fn(&In) -> Out>(
    casefunc: F,
    oracle: H,
    x: In,
    r: Option<String>,
) -> bool {
    exists|actual: Out, expect: Out|
        call_ensures(casefunc, (&x,), actual) && call_ensures(oracle, (&x,), expect)
            && #[trigger] oracle_verdict(x, expect, actual, r)
}

/// `f` may be called on `x`.
pub open spec fn accepts<In, Out, F: Fn(&In) -> Out>(f: &F, x: &In) -> bool {
    call_requires(*f, (x,))
}

/// `compared`, over references to the two functions.
pub open spec fn compared_by<In: Describe, Out: PartialEq + Describe, F: Fn(&In) -> Out, H: Fn(&In) -> Out>(
    casefunc: &F,
    oracle: &H,
    x: &In,
    r: Option<String>,
) -> bool {
    compared(*casefunc, *oracle, *x, r)
}

/// Probing `x` with a verifier may give `r`.
pub open spec fn verified<In, Out, F: Fn(&In) -> Out, G: Fn(&Out, &In) -> Option<String>>(
    casefunc: F,
    verifier: G,
    x: In,
    r: Option<String>,
) -> bool {
    exists|actual: Out|
        #[trigger] call_ensures(casefunc, (&x,), actual) && call_ensures(verifier, (&actual, &x), r)
}

/// A sweep that may give `r` for one step relation may give it for any weaker one.
pub proof fn lemma_first_failure_weaken<In>(
    dom: Seq<In>,
    s1: spec_fn(In, Option<String>) -> bool,
    s2: spec_fn(In, Option<String>) -> bool,
    r: Option<String>,
)
    requires
        first_failure(dom, s1, r),
        forall|x: In, o: Option<String>| #[trigger] s1(x, o) ==> s2(x, o),
    ensures
        first_failure(dom, s2, r),
{
    if let Some(m) = r {
        let k = choose|k: int|
            0 <= k < dom.len() && #[trigger] s1(dom[k], Some(m))
                && forall|j: int| 0 <= j < k ==> #[trigger] s1(dom[j], None);
        assert(s2(dom[k], Some(m)));
        assert forall|j: int| 0 <= j < k implies #[trigger] s2(dom[j], None) by {
            assert(s1(dom[j], None));
        }
    } else {
        assert forall|k: int| 0 <= k < dom.len() implies #[trigger] s2(dom[k], None) by {
            assert(s1(dom[k], None));
        }
    }
}

} // verus!

verus! {

fn mismatch<T: Describe>(expect: &T, actual: &T) -> (r: String)
    ensures
        r@ == mismatch_text(expect.text(), actual.text()),
{
    let e = expect.describe();
    let a = actual.describe();
    let mut s = String::from_str("expect: ");
    s.append(e.as_str());
    s.append(", actual: ");
    s.append(a.as_str());
    s
}

fn divergence<In: Describe, Out: Describe>(expect: &Out, actual: &Out, input: &In) -> (r: String)
    ensures
        r@ == divergence_text(expect.text(), actual.text(), input.text()),
{
    let mut s = mismatch(expect, actual);
    let i = input.describe();
    s.append(", by applying ");
    s.append(i.as_str());
    s
}

/// A check that a computation gives an expected value.
pub struct FixedValue<T, F> {
    pub casefunc: F,
    pub expect: T,
}

/// A check that `casefunc()` equals `expect`, run later by `FixedValue::run`.
pub fn is<T, F: Fn() -> T>(casefunc: F, expect: T) -> (c: FixedValue<T, F>)
    ensures
        c.casefunc == casefunc,
        c.expect == expect,
{
    FixedValue { casefunc, expect }
}

impl<T: PartialEq + Describe, F: Fn() -> T> FixedValue<T, F> {
    /// Calls the computation once; `None` when its result equals the expected value, else a
    /// message with both values.
    pub fn run(self) -> (r: Option<String>)
        requires
            T::obeys_eq_spec(),
            call_requires(self.casefunc, ()),
        ensures
            exists|actual: T| #[trigger] call_ensures(self.casefunc, (), actual)
                && fixed_verdict(self.expect, actual, r),
    {
        let actual = (self.casefunc)();
        if self.expect.eq(&actual) {
            None
        } else {
            Some(mismatch(&self.expect, &actual))
        }
    }
}

} // verus!

verus! {

fn eq_composite<In: Describe, Out: PartialEq + Describe, F: Fn(&In) -> Out, H: Fn(&In) -> Out>(
    casefunc: &F,
    oracle: &H,
    inp: &In,
) -> (r: Option<String>)
    requires
        Out::obeys_eq_spec(),
        call_requires(*casefunc, (inp,)),
        call_requires(*oracle, (inp,)),
    ensures
        compared(*casefunc, *oracle, *inp, r),
{
    let actual = casefunc(inp);
    let expect = oracle(inp);
    let r = if actual.eq(&expect) {
        None
    } else {
        Some(divergence(&expect, &actual, inp))
    };
    assert(oracle_verdict(*inp, expect, actual, r));
    r
}

/// A check that a function agrees with an oracle on every input of a testbench.
pub struct OracleEquivalence<F, H, G> {
    pub casefunc: F,
    pub oracle: H,
    pub testbench: G,
}

/// A check that `casefunc` and `oracle` agree over the domain of `testbench`, run later by
/// `OracleEquivalence::run`.
pub fn eq<F, H, G>(casefunc: F, oracle: H, testbench: G) -> (c: OracleEquivalence<F, H, G>)
    ensures
        c.casefunc == casefunc,
        c.oracle == oracle,
        c.testbench == testbench,
{
    OracleEquivalence { casefunc, oracle, testbench }
}

impl<F, H, G> OracleEquivalence<F, H, G> {
    /// Sweeps the testbench with a probe that compares both functions on each input; the
    /// first input on which they differ gives a message with both outputs and the input.
    pub fn run<In: Describe, Out: PartialEq + Describe>(self) -> (r: Option<String>) where
        F: Fn(&In) -> Out,
        H: Fn(&In) -> Out,
        G: Testbench<In>,
        requires
            Out::obeys_eq_spec(),
            forall|k: int|
                0 <= k < self.testbench.domain().len() ==> {
                    &&& call_requires(self.casefunc, (&#[trigger] self.testbench.domain()[k],))
                    &&& call_requires(self.oracle, (&self.testbench.domain()[k],))
                },
        ensures
            first_failure(
                self.testbench.domain(),
                |x: In, o: Option<String>| compared(self.casefunc, self.oracle, x, o),
                r,
            ),
    {
        let cf = &self.casefunc;
        let ora = &self.oracle;
        let tb = &self.testbench;
        let probe = |inp: &In| -> (o: Option<String>)
            requires
                accepts(cf, inp),
                accepts(ora, inp),
            ensures
                compared_by(cf, ora, inp, o),
        { eq_composite(cf, ora, inp) };
        let r = tb.sweep(&probe);
        proof {
            lemma_first_failure_weaken(
                tb.domain(),
                probed(probe),
                |x: In, o: Option<String>| compared(*cf, *ora, x, o),
                r,
            );
        }
        r
    }
}

} // verus!

verus! {

/// `verifier` may be called on every result that `casefunc` may give on `x`.
pub open spec fn judges<In, Out, F: Fn(&In) -> Out, G: Fn(&Out, &In) -> Option<String>>(
    casefunc: &F,
    verifier: &G,
    x: &In,
) -> bool {
    forall|actual: Out| #[trigger] call_ensures(*casefunc, (x,), actual) ==> call_requires(*verifier, (&actual, x))
}

/// `verified`, over references to the two functions.
pub open spec fn verified_by<In, Out, F: Fn(&In) -> Out, G: Fn(&Out, &In) -> Option<String>>(
    casefunc: &F,
    verifier: &G,
    x: &In,
    r: Option<String>,
) -> bool {
    verified(*casefunc, *verifier, *x, r)
}

fn ver_composite<In, Out, F: Fn(&In) -> Out, G: Fn(&Out, &In) -> Option<String>>(
    casefunc: &F,
    verifier: &G,
    inp: &In,
) -> (r: Option<String>)
    requires
        call_requires(*casefunc, (inp,)),
        judges(casefunc, verifier, inp),
    ensures
        verified(*casefunc, *verifier, *inp, r),
{
    let actual = casefunc(inp);
    verifier(&actual, inp)
}

/// A check that a verifier accepts the result of a function on every input of a testbench.
pub struct VerifierCheck<F, G, H> {
    pub casefunc: F,
    pub verifier: G,
    pub testbench: H,
}

/// A check that `verifier` accepts what `casefunc` gives over the domain of `testbench`, run
/// later by `VerifierCheck::run`.
pub fn verify<F, G, H>(casefunc: F, verifier: G, testbench: H) -> (c: VerifierCheck<F, G, H>)
    ensures
        c.casefunc == casefunc,
        c.verifier == verifier,
        c.testbench == testbench,
{
    VerifierCheck { casefunc, verifier, testbench }
}

impl<F, G, H> VerifierCheck<F, G, H> {
    /// Sweeps the testbench with a probe that hands each result, with its input, to the
    /// verifier; the first message of the verifier is the result.
    pub fn run<In, Out>(self) -> (r: Option<String>) where
        F: Fn(&In) -> Out,
        G: Fn(&Out, &In) -> Option<String>,
        H: Testbench<In>,
        requires
            forall|k: int|
                0 <= k < self.testbench.domain().len() ==> {
                    &&& call_requires(self.casefunc, (&#[trigger] self.testbench.domain()[k],))
                    &&& judges(&self.casefunc, &self.verifier, &self.testbench.domain()[k])
                },
        ensures
            first_failure(
                self.testbench.domain(),
                |x: In, o: Option<String>| verified(self.casefunc, self.verifier, x, o),
                r,
            ),
    {
        let cf = &self.casefunc;
        let ver = &self.verifier;
        let tb = &self.testbench;
        let probe = |inp: &In| -> (o: Option<String>)
            requires
                accepts(cf, inp),
                judges(cf, ver, inp),
            ensures
                verified_by(cf, ver, inp, o),
        { ver_composite(cf, ver, inp) };
        let r = tb.sweep(&probe);
        proof {
            lemma_first_failure_weaken(
                tb.domain(),
                probed(probe),
                |x: In, o: Option<String>| verified(*cf, *ver, x, o),
                r,
            );
        }
        r
    }
}

} // verus!
