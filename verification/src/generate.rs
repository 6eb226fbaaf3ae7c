use vstd::prelude::*;

use crate::chars::{from_chars, is_ascii_punct, spec_is_ascii_punct, spec_trim, to_chars, trim_chars};
use crate::entry::{res_view, Error, ErrorV};

verus! {

/// What to do with one candidate the external generator produced: accept it
/// as the final secret, or discard it and run the generator again.
#[derive(Debug)]
pub enum GenDecision {
    Accept(String),
    Retry,
}

/// The mathematical value of a [`GenDecision`].
pub enum GenDecisionV {
    Accept(Seq<char>),
    Retry,
}

impl View for GenDecision {
    type V = GenDecisionV;

    open spec fn view(&self) -> GenDecisionV {
        match self {
            GenDecision::Accept(s) => GenDecisionV::Accept(s@),
            GenDecision::Retry => GenDecisionV::Retry,
        }
    }
}

/// What a candidate's trimmed output leads to: empty output is an error, a
/// leading ASCII punctuation character forces a retry, and anything else is
/// accepted as it stands.
pub open spec fn spec_gen_decide(t: Seq<char>) -> Result<GenDecisionV, ErrorV> {
    if t.len() == 0 {
        Err(ErrorV::PwGenNoStdout)
    } else if spec_is_ascii_punct(t[0]) {
        Ok(GenDecisionV::Retry)
    } else {
        Ok(GenDecisionV::Accept(t))
    }
}

/// Judges one standard-output capture of the external generator: trims it,
/// rejects an empty result, discards a candidate whose first character is
/// ASCII punctuation, and accepts every other candidate unchanged.
pub fn gen_decide(stdout: &str) -> (r: Result<GenDecision, Error>)
    ensures
        res_view(r) == spec_gen_decide(spec_trim(stdout@)),
{
    let chars = to_chars(stdout);
    let trimmed = trim_chars(&chars);
    if trimmed.len() == 0 {
        return Err(Error::PwGenNoStdout);
    }
    if is_ascii_punct(trimmed[0]) {
        Ok(GenDecision::Retry)
    } else {
        Ok(GenDecision::Accept(from_chars(&trimmed)))
    }
}

/// What the generator's failure reports as, given its exit code and its
/// captured standard error: death by signal leaves no code; with a code,
/// a missing or blank diagnostic gives the bare-code error, and anything
/// else carries the trimmed diagnostic.
pub open spec fn spec_gen_failure(code: Option<int>, stderr: Option<Seq<char>>) -> ErrorV {
    match code {
        None => ErrorV::PwGenDied,
        Some(c) => match stderr {
            None => ErrorV::PwGenErr(c),
            Some(s) => if spec_trim(s).len() == 0 {
                ErrorV::PwGenErr(c)
            } else {
                ErrorV::PwGenErrMsg(c, spec_trim(s))
            },
        },
    }
}

/// Classifies a failed generator run from its exit code (`None` when the
/// process died of a signal) and its captured standard error (`None` when
/// no capture was available).
pub fn gen_failure(code: Option<i32>, stderr: Option<String>) -> (e: Error)
    ensures
        e@ == spec_gen_failure(
            match code {
                Some(c) => Some(c as int),
                None => None,
            },
            match stderr {
                Some(s) => Some(s@),
                None => None,
            },
        ),
{
    match code {
        None => Error::PwGenDied,
        Some(c) => match stderr {
            None => Error::PwGenErr(c),
            Some(s) => {
                let chars = to_chars(s.as_str());
                let trimmed = trim_chars(&chars);
                if trimmed.len() == 0 {
                    Error::PwGenErr(c)
                } else {
                    Error::PwGenErrMsg(c, from_chars(&trimmed))
                }
            },
        },
    }
}

/// What running the policy over the scripted outputs from position `i` on
/// yields: the first acceptable candidate, `None` when every output forced
/// a retry, or the error of the first empty output.
pub open spec fn spec_run_policy(outs: Seq<Seq<char>>, i: int) -> Result<Option<Seq<char>>, ErrorV>
    decreases outs.len() - i,
{
    if i < 0 || i >= outs.len() {
        Ok(None)
    } else {
        match spec_gen_decide(spec_trim(outs[i])) {
            Err(e) => Err(e),
            Ok(GenDecisionV::Accept(s)) => Ok(Some(s)),
            Ok(GenDecisionV::Retry) => spec_run_policy(outs, i + 1),
        }
    }
}

/// Runs the acceptance policy over a finite script of generator outputs, in
/// order: punctuation-leading candidates are discarded, the first acceptable
/// candidate is returned, and an empty output fails. A script of nothing
/// but punctuation-leading candidates yields `None`: the live loop would
/// still be running the generator.
pub fn run_policy(outputs: &Vec<String>) -> (r: Result<Option<String>, Error>)
    ensures
        match r {
            Ok(Some(s)) => spec_run_policy(outputs.deep_view(), 0) == Ok::<
                Option<Seq<char>>,
                ErrorV,
            >(Some(s@)),
            Ok(None) => spec_run_policy(outputs.deep_view(), 0) == Ok::<
                Option<Seq<char>>,
                ErrorV,
            >(None),
            Err(e) => spec_run_policy(outputs.deep_view(), 0) == Err::<
                Option<Seq<char>>,
                ErrorV,
            >(e@),
        },
{
    let ghost outs = outputs.deep_view();
    let n = outputs.len();
    let mut i: usize = 0;
    while i < n
        invariant
            i <= n,
            n == outs.len(),
            outs == outputs.deep_view(),
            spec_run_policy(outs, 0) == spec_run_policy(outs, i as int),
        decreases n - i,
    {
        proof {
            assert(outputs@[i as int].deep_view() == outs[i as int]);
        }
        match gen_decide(outputs[i].as_str()) {
            Err(e) => {
                return Err(e);
            },
            Ok(GenDecision::Accept(s)) => {
                return Ok(Some(s));
            },
            Ok(GenDecision::Retry) => {},
        }
        i = i + 1;
    }
    Ok(None)
}

} // verus!
