//! The decisions of a run: whether to echo or display, which inputs are
//! read before standard input takes over, and how read results are joined.
use vstd::prelude::*;
use crate::args::RatArgs;
use crate::error::{RatError, RatErrorType, unreadable_text};
use crate::text::{views, copy_chars, append_chars};

verus! {

/// What to do with a parsed command line.
#[derive(Clone, Copy, Debug, PartialEq, Eq, Structural)]
pub enum Adventure {
    /// No inputs were named: echo standard input line by line.
    Repl,
    /// Read and display the named inputs.
    Run,
}

/// Echo when no input is named, display otherwise.
pub fn choose_your_adventure(args: &RatArgs) -> (r: Adventure)
    ensures
        r == (if args.paths.len() == 0 {
            Adventure::Repl
        } else {
            Adventure::Run
        }),
{
    if args.paths.len() == 0 {
        Adventure::Repl
    } else {
        Adventure::Run
    }
}

pub open spec fn is_stdin_marker(p: Seq<char>) -> bool {
    p == seq!['-']
}

/// The inputs to read as files, and whether standard input follows them.
/// Inputs named after the first `-` are never read.
pub struct RunPlan {
    pub files: Vec<Vec<char>>,
    pub then_echo: bool,
}

/// Splits `paths` at the first `-`: the files before it, and whether it occurs.
pub fn plan_run(paths: &Vec<Vec<char>>) -> (r: RunPlan)
    ensures
        r.files.len() <= paths.len(),
        views(r.files@) == views(paths@).take(r.files.len() as int),
        forall|j: int| 0 <= j < r.files.len() ==> !is_stdin_marker(#[trigger] paths@[j]@),
        r.then_echo == (r.files.len() < paths.len()),
        r.then_echo ==> is_stdin_marker(paths@[r.files.len() as int]@),
{
    let mut files: Vec<Vec<char>> = Vec::new();
    let mut i: usize = 0;
    proof {
        assert(views(files@) =~= views(paths@).take(0));
    }
    while i < paths.len()
        invariant
            i <= paths.len(),
            files.len() == i,
            views(files@) == views(paths@).take(i as int),
            forall|j: int| 0 <= j < i ==> !is_stdin_marker(#[trigger] paths@[j]@),
        decreases paths.len() - i,
    {
        let p = &paths[i];
        if p.len() == 1 && p[0] == '-' {
            proof {
                assert(p@ =~= seq!['-']);
            }
            return RunPlan { files, then_echo: true };
        }
        let ghost before = views(files@);
        files.push(copy_chars(p));
        proof {
            assert(views(files@) =~= before.push(p@));
            assert(views(paths@).take(i + 1) =~= views(paths@).take(i as int).push(p@));
        }
        i = i + 1;
    }
    RunPlan { files, then_echo: false }
}

/// The text gathered so far from the inputs, in the order they were read.
pub struct Concatenation {
    pub text: Vec<char>,
}

impl Concatenation {
    pub fn new() -> (r: Concatenation)
        ensures
            r.text@ == Seq::<char>::empty(),
    {
        Concatenation { text: Vec::new() }
    }

    /// Takes in the result of reading `path`: its content is appended;
    /// a failure, given by its reason, leaves the text as it is and comes
    /// back as the error to report.
    pub fn absorb(
        &mut self,
        path: &Vec<char>,
        outcome: Result<Vec<char>, Vec<char>>,
    ) -> (r: Option<RatError>)
        ensures
            match outcome {
                Ok(content) => final(self).text@ == old(self).text@ + content@ && r.is_none(),
                Err(reason) => final(self).text@ == old(self).text@ && r.is_some() && r.unwrap()@
                    == (RatErrorType::NoFileFound, unreadable_text(path@, reason@)),
            },
    {
        match outcome {
            Ok(content) => {
                append_chars(&mut self.text, &content);
                None
            },
            Err(reason) => Some(RatError::unreadable(path, &reason)),
        }
    }
}

} // verus!
