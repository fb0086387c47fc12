use vstd::prelude::*;

use crate::parser::{chars_of, grammer_chars, opt_model, spec_error_position, spec_grammer, ParseError};
use crate::syntax::ast::SExp;

verus! {

/// What the interactive loop does with a line of input.
pub enum ReplAction {
    /// The line starts with `quit`: the loop ends.
    Quit,
    /// The line reads as an expression, or as nothing (a comment): it is
    /// evaluated.
    Eval(Option<SExp>),
    /// The line does not read: the error is reported.
    Report(ParseError),
}

/// Whether a line asks the loop to end.
pub open spec fn is_quit(line: Seq<char>) -> bool {
    line.len() >= 4 && line.subrange(0, 4) == seq!['q', 'u', 'i', 't']
}

/// How the action chosen for `line` relates to reading `line`.
pub open spec fn step_agrees(line: Seq<char>, r: ReplAction) -> bool {
    match r {
        ReplAction::Quit => is_quit(line),
        ReplAction::Eval(e) => {
            &&& !is_quit(line)
            &&& spec_grammer(line) matches Some((m, _))
            &&& m == opt_model(e)
        },
        ReplAction::Report(e) => {
            &&& !is_quit(line)
            &&& spec_grammer(line) is None
            &&& e.position == spec_error_position(line)
        },
    }
}

/// One turn of the interactive loop: `quit` ends it, and any other line is
/// read as an expression.
pub fn repl_step(line: &str) -> (r: ReplAction)
    ensures
        step_agrees(line@, r),
{
    let chars = chars_of(line);
    if chars.len() >= 4 && chars[0] == 'q' && chars[1] == 'u' && chars[2] == 'i' && chars[3] == 't' {
        assert(line@.subrange(0, 4) =~= seq!['q', 'u', 'i', 't']);
        return ReplAction::Quit;
    }
    proof {
        if is_quit(line@) {
            assert(line@.subrange(0, 4)[0] == line@[0]);
            assert(line@.subrange(0, 4)[1] == line@[1]);
            assert(line@.subrange(0, 4)[2] == line@[2]);
            assert(line@.subrange(0, 4)[3] == line@[3]);
        }
    }
    match grammer_chars(chars.as_slice()) {
        Ok((e, _)) => ReplAction::Eval(e),
        Err(p) => ReplAction::Report(p),
    }
}

} // verus!
