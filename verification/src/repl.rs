//! The interactive session's state and decisions: the line counter and the
//! classification of one input line. Reading, printing and timing live with
//! the host program; this is the part it consults.

use vstd::prelude::*;

verus! {

/// What one line of interactive input asks for.
#[derive(Clone, Copy, PartialEq, Eq, Structural, Debug)]
pub enum ReplStep {
    /// leave the session
    Quit,
    /// report how long the last evaluation took
    Time,
    /// show the directives
    Help,
    /// read, evaluate and print the line
    Evaluate,
}

/// The interactive session's own state: how many lines were read.
pub struct Repl {
    pub line: usize,
}

/// How one trimmed input line is classified.
pub open spec fn spec_step_for(s: Seq<char>) -> ReplStep {
    if s == "--quit"@ {
        ReplStep::Quit
    } else if s == "--time"@ {
        ReplStep::Time
    } else if s == "--help"@ {
        ReplStep::Help
    } else {
        ReplStep::Evaluate
    }
}

impl Repl {
    /// A fresh session on line zero.
    pub fn new() -> (r: Self)
        ensures
            r.line == 0,
    {
        Repl { line: 0 }
    }

    /// Counts one line read, stopping at the machine limit.
    pub fn next_line(&mut self)
        ensures
            final(self).line == if old(self).line < usize::MAX {
                old(self).line + 1
            } else {
                old(self).line as int
            },
    {
        if self.line < usize::MAX {
            self.line = self.line + 1;
        }
    }

    /// Classifies one trimmed input line: a directive or source to evaluate.
    pub fn step_for(input: &String) -> (r: ReplStep)
        ensures
            r == spec_step_for(input@),
    {
        proof {
            reveal_strlit("--quit");
            reveal_strlit("--time");
            reveal_strlit("--help");
        }
        if input.eq(&String::from_str("--quit")) {
            ReplStep::Quit
        } else if input.eq(&String::from_str("--time")) {
            ReplStep::Time
        } else if input.eq(&String::from_str("--help")) {
            ReplStep::Help
        } else {
            ReplStep::Evaluate
        }
    }
}

} // verus!
