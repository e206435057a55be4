//! One invocation of an outside program: what is asked for, how it ended,
//! and the trace that is printed around it.

use crate::std_specs::{debug_list, debug_of};
use crate::text::texts;
use vstd::prelude::*;

verus! {

/// A program to start, and the arguments to start it with.
#[derive(Clone, Debug, PartialEq, Eq)]
pub struct Invocation {
    pub program: String,
    pub args: Vec<String>,
}

/// An invocation as contracts speak of it.
pub struct InvocationView {
    pub program: Seq<char>,
    pub args: Seq<Seq<char>>,
}

impl View for Invocation {
    type V = InvocationView;

    open spec fn view(&self) -> InvocationView {
        InvocationView { program: self.program@, args: texts(self.args@) }
    }
}

/// How a process that was started ended: whether with success, and its exit
/// status as the platform words it.
#[derive(Clone, Debug, PartialEq, Eq)]
pub struct Exit {
    pub success: bool,
    pub status: String,
}

/// An exit as contracts speak of it.
pub struct ExitView {
    pub success: bool,
    pub status: Seq<char>,
}

impl View for Exit {
    type V = ExitView;

    open spec fn view(&self) -> ExitView {
        ExitView { success: self.success, status: self.status@ }
    }
}

/// The record of a command that failed: which command, and with what error.
#[derive(Clone, Debug, PartialEq, Eq)]
pub struct CommandResult {
    pub command: String,
    pub error: String,
}

/// The line printed before a program is started, `shown` being its arguments
/// as they are displayed.
pub open spec fn running_text(program: Seq<char>, shown: Seq<char>) -> Seq<char> {
    "Running command: "@ + program + " "@ + shown
}

/// The line printed when a process ended without success.
pub open spec fn failed_text(shown: Seq<char>, status: Seq<char>) -> Seq<char> {
    "Command "@ + shown + " failed with exit status '"@ + status + "'"@
}

/// The line printed when a process has ended, however it did.
pub open spec fn finished_text(shown: Seq<char>, status: Seq<char>) -> Seq<char> {
    "Command "@ + shown + " finished with status '"@ + status + "'"@
}

/// The lines printed after a process has ended: that it failed, where it
/// did, and then that it finished.
pub open spec fn report_texts(shown: Seq<char>, exit: ExitView) -> Seq<Seq<char>> {
    if exit.success {
        seq![finished_text(shown, exit.status)]
    } else {
        seq![failed_text(shown, exit.status), finished_text(shown, exit.status)]
    }
}

/// The line printed before `invocation` is carried out.
pub open spec fn announcement(invocation: InvocationView) -> Seq<char> {
    running_text(invocation.program, debug_of(invocation.args))
}

/// The lines printed after `invocation` has ended with `exit`.
pub open spec fn conclusion(invocation: InvocationView, exit: ExitView) -> Seq<Seq<char>> {
    report_texts(debug_of(invocation.args), exit)
}

/// Every argument followed by a space, one after the other.
pub open spec fn spaced(args: Seq<Seq<char>>) -> Seq<char> {
    args.flat_map(|arg: Seq<char>| arg + seq![' '])
}

/// How a failed invocation is described: by its arguments, each followed by
/// a space, or by the program's name where it has no arguments.
pub open spec fn failure_text(invocation: InvocationView) -> Seq<char> {
    if invocation.args.len() == 0 {
        invocation.program
    } else {
        spaced(invocation.args)
    }
}

/// Composes the line printed before a program is started.
pub fn running_line(program: &str, shown: &str) -> (line: String)
    ensures
        line@ == running_text(program@, shown@),
{
    let mut line = "Running command: ".to_owned();
    line.append(program);
    line.append(" ");
    line.append(shown);
    line
}

/// Composes the line printed when a process ended without success.
pub fn failed_line(shown: &str, status: &str) -> (line: String)
    ensures
        line@ == failed_text(shown@, status@),
{
    let mut line = "Command ".to_owned();
    line.append(shown);
    line.append(" failed with exit status '");
    line.append(status);
    line.append("'");
    line
}

/// Composes the line printed when a process has ended.
pub fn finished_line(shown: &str, status: &str) -> (line: String)
    ensures
        line@ == finished_text(shown@, status@),
{
    let mut line = "Command ".to_owned();
    line.append(shown);
    line.append(" finished with status '");
    line.append(status);
    line.append("'");
    line
}

/// Composes the lines printed after a process has ended.
pub fn report(shown: &str, exit: &Exit) -> (lines: Vec<String>)
    ensures
        texts(lines@) == report_texts(shown@, exit@),
{
    let mut lines: Vec<String> = Vec::new();
    if !exit.success {
        lines.push(failed_line(shown, exit.status.as_str()));
    }
    lines.push(finished_line(shown, exit.status.as_str()));
    lines
}

/// The line to print before `invocation` is carried out.
pub fn announce(invocation: &Invocation) -> (line: String)
    ensures
        line@ == announcement(invocation@),
{
    let shown = debug_list(&invocation.args);
    running_line(invocation.program.as_str(), shown.as_str())
}

/// What follows the end of `invocation`: the lines to print, and the records
/// of failure. No failure is recorded: the second part is empty whatever the
/// exit was.
pub fn conclude(invocation: &Invocation, exit: &Exit) -> (outcome: (Vec<String>, Vec<CommandResult>))
    ensures
        texts(outcome.0@) == conclusion(invocation@, exit@),
        outcome.1@ == Seq::<CommandResult>::empty(),
{
    let shown = debug_list(&invocation.args);
    (report(shown.as_str(), exit), Vec::new())
}

/// Describes a failed invocation.
pub fn failure_description(invocation: &Invocation) -> (description: String)
    ensures
        description@ == failure_text(invocation@),
{
    let mut description = String::new();
    let n = invocation.args.len();
    if n == 0 {
        description.append(invocation.program.as_str());
        return description;
    }
    let mut i: usize = 0;
    while i < n
        invariant
            n == invocation.args.len(),
            i <= n,
            description@ == spaced(texts(invocation.args@).take(i as int)),
        decreases n - i,
    {
        description.append(invocation.args[i].as_str());
        description.push(' ');
        proof {
            let all = texts(invocation.args@);
            all.lemma_flat_map_take_append(|arg: Seq<char>| arg + seq![' '], i as int);
        }
        i += 1;
    }
    assert(texts(invocation.args@).take(n as int) == texts(invocation.args@));
    description
}

} // verus!
