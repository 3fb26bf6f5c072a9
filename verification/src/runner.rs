//! Running the cluster tool: the outcome of a run as plain values, and the
//! trait through which the library hands a command line to whoever runs it.
use vstd::prelude::*;
use crate::text::views;

verus! {

/// What became of one run of an external program.
#[derive(Clone, Debug)]
pub enum CommandOutcome {
    /// The program could not be started; the system's message for why.
    NotStarted { message: String },
    /// The program ran to its end.
    Finished { success: bool, stdout: Vec<u8>, stderr: Vec<u8> },
}

impl CommandOutcome {
    /// Whether the program ran and reported success.
    pub open spec fn spec_succeeded(&self) -> bool {
        self matches CommandOutcome::Finished { success, .. } && *success
    }

    /// Whether the program ran and reported success.
    pub fn succeeded(&self) -> (b: bool)
        ensures
            b == self.spec_succeeded(),
    {
        match self {
            CommandOutcome::Finished { success, .. } => *success,
            CommandOutcome::NotStarted { .. } => false,
        }
    }
}

/// One run of a program: the program, its arguments, and what came of it.
pub type Run = (Seq<char>, Seq<Seq<char>>, CommandOutcome);

/// Runs a program with arguments and reports the outcome. The tool itself runs
/// real processes; tests hand in fixed outcomes.
pub trait CommandRunner {
    /// That `outcome` can come of running `program` with `args`. A runner may
    /// define this for itself; one that does not admits every outcome for every
    /// command. The library proves its results for any runner, so what it
    /// states through this relation is only that the outcome it reads is the
    /// outcome of the command that it asked for.
    closed spec fn ran(&self, program: Seq<char>, args: Seq<Seq<char>>, outcome: CommandOutcome) -> bool {
        true
    }

    /// Whether the runner keeps a log of its runs in `runs`. A runner that does
    /// not say so keeps none.
    closed spec fn keeps_log(&self) -> bool {
        false
    }

    /// The runs so far, oldest first, of a runner that keeps a log.
    closed spec fn runs(&self) -> Seq<Run> {
        Seq::empty()
    }

    /// Runs `program` with `args`. A runner that keeps a log adds exactly this
    /// run to it.
    fn run(&mut self, program: &str, args: &[String]) -> (outcome: CommandOutcome)
        ensures
            old(self).ran(program@, views(args@), outcome),
            final(self).keeps_log() == old(self).keeps_log(),
            old(self).keeps_log() ==> final(self).runs() == old(self).runs().push(
                (program@, views(args@), outcome),
            ),
    ;
}

/// That going from `before` to `after` the runner ran `program` with `args`
/// exactly once, with `outcome`: the outcome is one that the command can have,
/// and a runner that keeps a log has this one run added to it and no other.
pub open spec fn ran_once<R: CommandRunner>(
    before: R,
    after: R,
    program: Seq<char>,
    args: Seq<Seq<char>>,
    outcome: CommandOutcome,
) -> bool {
    &&& before.ran(program, args, outcome)
    &&& after.keeps_log() == before.keeps_log()
    &&& before.keeps_log() ==> after.runs() == before.runs().push((program, args, outcome))
}

} // verus!
