use vstd::prelude::*;
use crate::registry::{texts, Registry};

verus! {

/// What a run of the command line comes to.
pub enum Outcome {
    /// Usage was asked for.
    Help,
    /// The registered names, to be shown one per line.
    Listing(Vec<String>),
    /// The named case passed.
    Pass,
    /// The named case failed, with its message.
    Fail(String),
    /// The arguments were wrong, with what was wrong.
    ArgsError(String),
}

/// The flags that ask for usage.
pub open spec fn is_help_flag(s: Seq<char>) -> bool {
    s == "-h"@ || s == "--help"@
}

/// Some argument, the program's name included, asks for usage.
pub open spec fn asks_help(args: Seq<String>) -> bool {
    exists|i: int| 0 <= i < args.len() && is_help_flag(#[trigger] args[i]@)
}

/// The outcome of a case that returned `o`.
pub open spec fn case_outcome(o: Option<String>, r: Outcome) -> bool {
    match o {
        None => r is Pass,
        Some(m) => r is Fail && r->Fail_0 == m,
    }
}

/// The exit status of a process that came to `o`.
pub open spec fn exit_status(o: Outcome) -> int {
    match o {
        Outcome::Fail(_) => 1,
        Outcome::ArgsError(_) => 2,
        _ => 0,
    }
}

fn is_help(arg: &String) -> (r: bool)
    ensures
        r == is_help_flag(arg@),
{
    let short = String::from_str("-h");
    let long = String::from_str("--help");
    *arg == short || *arg == long
}

/// Decides on the arguments (the program's name first) and runs at most one case, which it
/// takes out of `cases`.
pub fn ego<C: FnOnce() -> Option<String>>(args: &Vec<String>, cases: &mut Registry<C>) -> (r: Outcome)
    requires
        old(cases).wf(),
        forall|k: Seq<char>| #[trigger] old(cases)@.contains_key(k) ==> call_requires(old(cases)@[k], ()),
    ensures
        final(cases).wf(),
        asks_help(args@) ==> r is Help && final(cases)@ == old(cases)@,
        !asks_help(args@) && args@.len() != 2 ==> r is ArgsError && r->ArgsError_0@ == "want exactly one arg"@
            && final(cases)@ == old(cases)@,
        !asks_help(args@) && args@.len() == 2 && args@[1]@ == "--show-cases"@ ==> r is Listing
            && texts(r->Listing_0@) == old(cases).listing() && final(cases)@ == old(cases)@,
        !asks_help(args@) && args@.len() == 2 && args@[1]@ != "--show-cases"@ && !old(cases)@.contains_key(args@[1]@)
            ==> r is ArgsError && r->ArgsError_0@ == "unknown arg: "@ + args@[1]@ && final(cases)@ == old(cases)@,
        !asks_help(args@) && args@.len() == 2 && args@[1]@ != "--show-cases"@ && old(cases)@.contains_key(args@[1]@)
            ==> final(cases)@ == old(cases)@.remove(args@[1]@) && exists|o: Option<String>|
                #[trigger] call_ensures(old(cases)@[args@[1]@], (), o) && case_outcome(o, r),
{
    let mut i: usize = 0;
    while i < args.len()
        invariant
            i <= args@.len(),
            *cases == *old(cases),
            cases.wf(),
            forall|k: int| 0 <= k < i ==> !is_help_flag(#[trigger] args@[k]@),
        decreases args@.len() - i,
    {
        if is_help(&args[i]) {
            return Outcome::Help;
        }
        i += 1;
    }
    if args.len() != 2 {
        return Outcome::ArgsError(String::from_str("want exactly one arg"));
    }
    let a = &args[1];
    let show = String::from_str("--show-cases");
    if *a == show {
        return Outcome::Listing(cases.names());
    }
    match cases.take(a.as_str()) {
        None => {
            let mut msg = String::from_str("unknown arg: ");
            msg.append(a.as_str());
            Outcome::ArgsError(msg)
        },
        Some(c) => {
            let o = c();
            match o {
                None => Outcome::Pass,
                Some(m) => Outcome::Fail(m),
            }
        },
    }
}

/// The exit status for `o`: 0 for usage, a listing or a pass, 1 for a failed case, 2 for
/// wrong arguments.
pub fn exit_code(o: &Outcome) -> (r: i32)
    ensures
        r == exit_status(*o),
{
    match o {
        Outcome::Fail(_) => 1,
        Outcome::ArgsError(_) => 2,
        _ => 0,
    }
}

} // verus!

verus! {

/// Wrong arguments, an unknown case name or a wrong count alike, exit with status 2; a
/// failed case exits with 1, and usage, a listing or a pass with 0.
pub proof fn lemma_exit_statuses(unknown: String, count: String, failure: String, listing: Vec<String>)
    ensures
        exit_status(Outcome::ArgsError(unknown)) == 2,
        exit_status(Outcome::ArgsError(count)) == 2,
        exit_status(Outcome::Fail(failure)) == 1,
        exit_status(Outcome::Help) == 0,
        exit_status(Outcome::Listing(listing)) == 0,
        exit_status(Outcome::Pass) == 0,
{
}

} // verus!
