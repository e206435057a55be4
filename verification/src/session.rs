//! A run from its first message to its end, as a machine that is told what
//! happened outside and answers with what to print and what to do next.
//!
//! The caller owns every process. It asks the session for its pending
//! request, carries the request out, and reports what came of it as an
//! event; the session then moves on. Nothing here starts a process.

use crate::command::{announce, announcement, conclude, conclusion, Exit, ExitView, Invocation,
    InvocationView};
use crate::listing::{plugin_views, plugins_of, read_listing, Plugin, PluginView};
use crate::plan::{
    banner, banner_text, following, lemma_plan_unfolds, listing_invocation, listing_request,
    next_step, plan, step_invocation, step_request, steps_for, Step,
};
use crate::text::texts;
use vstd::prelude::*;
use vstd::utf8::*;

verus! {

/// What a run is for.
#[derive(Clone, Copy, Debug, PartialEq, Eq, Structural)]
pub enum Mode {
    /// List the plugins and install each of them.
    RunInstall,
    /// Say so and do nothing.
    NoOp,
}

impl Mode {
    /// The mode that the command line's one flag selects. The flag switches
    /// installation off: a run installs unless it is set.
    pub open spec fn of_flag(install: bool) -> Mode {
        if install {
            Mode::NoOp
        } else {
            Mode::RunInstall
        }
    }

    /// The mode that the command line's one flag selects.
    pub fn from_flag(install: bool) -> (mode: Mode)
        ensures
            mode == Mode::of_flag(install),
    {
        if install {
            Mode::NoOp
        } else {
            Mode::RunInstall
        }
    }
}

/// Why a run was cut short.
#[derive(Clone, Copy, Debug, PartialEq, Eq, Structural)]
pub enum Fatal {
    /// A process could not be started.
    NotSpawned,
    /// The listing was not well-formed UTF-8.
    Undecodable,
}

/// What the caller reports back after it has carried out a request.
#[derive(Clone, Debug, PartialEq, Eq)]
pub enum Event {
    /// The process ran, and this is what it wrote to its standard output.
    Captured(Vec<u8>),
    /// The process ran, and this is how it ended.
    Exited(Exit),
    /// The process could not be started.
    NotSpawned,
}

/// An event as contracts speak of it.
pub enum EventView {
    Captured(Seq<u8>),
    Exited(ExitView),
    NotSpawned,
}

impl View for Event {
    type V = EventView;

    open spec fn view(&self) -> EventView {
        match self {
            Event::Captured(bytes) => EventView::Captured(bytes@),
            Event::Exited(exit) => EventView::Exited(exit@),
            Event::NotSpawned => EventView::NotSpawned,
        }
    }
}

/// What the session wants done next.
#[derive(Debug, PartialEq, Eq)]
pub enum Request {
    /// Start the program, wait for it, and report its standard output.
    Capture(Invocation),
    /// Start the program with the caller's own input and output, wait for
    /// it, and report how it ended.
    Run(Invocation),
    /// Stop: the run is over, well or not.
    Finish(Result<(), Fatal>),
}

/// A request as contracts speak of it.
pub enum RequestView {
    Capture(InvocationView),
    Run(InvocationView),
    Finish(Result<(), Fatal>),
}

impl View for Request {
    type V = RequestView;

    open spec fn view(&self) -> RequestView {
        match self {
            Request::Capture(invocation) => RequestView::Capture(invocation@),
            Request::Run(invocation) => RequestView::Run(invocation@),
            Request::Finish(end) => RequestView::Finish(*end),
        }
    }
}

/// The state of a run.
pub enum SessionView {
    /// The listing has been asked for.
    Listing,
    /// A step of `current` has been asked for; `upcoming` are the plugins
    /// whose turn comes after it, in order.
    Installing { current: PluginView, step: Step, upcoming: Seq<PluginView> },
    /// The run is over.
    Finished(Result<(), Fatal>),
}

/// The message that opens a run.
pub open spec fn opening_text(mode: Mode) -> Seq<char> {
    match mode {
        Mode::RunInstall => "Installing..."@,
        Mode::NoOp => "Not installing..."@,
    }
}

/// The state in which a run starts.
pub open spec fn opening(mode: Mode) -> SessionView {
    match mode {
        Mode::RunInstall => SessionView::Listing,
        Mode::NoOp => SessionView::Finished(Ok(())),
    }
}

/// The state in which the installation of `plugins` starts: at the first
/// step of the first of them, or at the end where there is none.
pub open spec fn entering(plugins: Seq<PluginView>) -> SessionView {
    if plugins.len() == 0 {
        SessionView::Finished(Ok(()))
    } else {
        SessionView::Installing { current: plugins[0], step: Step::Add, upcoming: plugins.skip(1) }
    }
}

/// What is printed when the installation of `plugins` starts: the first
/// plugin's banner and the announcement of its first step.
pub open spec fn entry_texts(plugins: Seq<PluginView>) -> Seq<Seq<char>> {
    if plugins.len() == 0 {
        Seq::empty()
    } else {
        seq![banner_text(plugins[0]), announcement(step_request(plugins[0].name, Step::Add))]
    }
}

impl SessionView {
    /// What the caller is to do in this state.
    pub open spec fn pending(self) -> RequestView {
        match self {
            SessionView::Listing => RequestView::Capture(listing_request()),
            SessionView::Installing { current, step, .. } => RequestView::Run(
                step_request(current.name, step),
            ),
            SessionView::Finished(end) => RequestView::Finish(end),
        }
    }

    /// The state that follows this one on `event`.
    ///
    /// A process that cannot be started ends the run. How a step ended does
    /// not matter: the next step follows, or the next plugin, or the end. An
    /// event that does not answer the pending request changes nothing.
    pub open spec fn next(self, event: EventView) -> SessionView {
        match (self, event) {
            (SessionView::Listing, EventView::Captured(bytes)) => {
                if valid_utf8(bytes) {
                    entering(plugins_of(decode_utf8(bytes)))
                } else {
                    SessionView::Finished(Err(Fatal::Undecodable))
                }
            },
            (SessionView::Listing, EventView::NotSpawned) => SessionView::Finished(
                Err(Fatal::NotSpawned),
            ),
            (SessionView::Installing { current, step, upcoming }, EventView::Exited(_)) => {
                match following(step) {
                    Some(then) => SessionView::Installing { current, step: then, upcoming },
                    None => entering(upcoming),
                }
            },
            (SessionView::Installing { .. }, EventView::NotSpawned) => SessionView::Finished(
                Err(Fatal::NotSpawned),
            ),
            _ => self,
        }
    }

    /// What is printed as this state is left on `event`: the trace of the
    /// step that ended, and the banner and announcement of what starts.
    pub open spec fn output(self, event: EventView) -> Seq<Seq<char>> {
        match (self, event) {
            (SessionView::Listing, EventView::Captured(bytes)) => {
                if valid_utf8(bytes) {
                    entry_texts(plugins_of(decode_utf8(bytes)))
                } else {
                    Seq::empty()
                }
            },
            (SessionView::Installing { current, step, upcoming }, EventView::Exited(exit)) => {
                conclusion(step_request(current.name, step), exit) + (match following(step) {
                    Some(then) => seq![announcement(step_request(current.name, then))],
                    None => entry_texts(upcoming),
                })
            },
            _ => Seq::empty(),
        }
    }

    /// The state reached from this one by `events`, one after the other.
    pub open spec fn after(self, events: Seq<EventView>) -> SessionView
        decreases events.len(),
    {
        if events.len() == 0 {
            self
        } else {
            self.after(events.drop_last()).next(events.last())
        }
    }

    /// The requests to run a program that are still to be made from this
    /// state on if every process can be started, the pending one first.
    pub open spec fn remaining(self) -> Seq<InvocationView> {
        match self {
            SessionView::Installing { current, step, upcoming } => {
                let own = match step {
                    Step::Add => steps_for(current.name),
                    Step::Install => steps_for(current.name).skip(1),
                    Step::Global => steps_for(current.name).skip(2),
                };
                own + plan(upcoming)
            },
            _ => Seq::empty(),
        }
    }
}

enum Stage {
    Listing,
    Installing { index: usize, step: Step },
    Finished(Result<(), Fatal>),
}

/// A run in progress.
pub struct Session {
    plugins: Vec<Plugin>,
    stage: Stage,
}

impl View for Session {
    type V = SessionView;

    closed spec fn view(&self) -> SessionView {
        match self.stage {
            Stage::Listing => SessionView::Listing,
            Stage::Installing { index, step } => SessionView::Installing {
                current: self.plugins@[index as int]@,
                step,
                upcoming: plugin_views(self.plugins@.skip(index + 1)),
            },
            Stage::Finished(end) => SessionView::Finished(end),
        }
    }
}

impl Session {
    #[verifier::type_invariant]
    spec fn in_range(self) -> bool {
        self.stage matches Stage::Installing { index, .. } ==> index < self.plugins@.len()
    }

    /// Starts a run: the session, and the message to print first. A run that
    /// is to do nothing is over as it starts.
    pub fn begin(mode: Mode) -> (start: (Session, Vec<String>))
        ensures
            start.0@ == opening(mode),
            texts(start.1@) == seq![opening_text(mode)],
    {
        let (stage, message) = match mode {
            Mode::RunInstall => (Stage::Listing, "Installing...".to_owned()),
            Mode::NoOp => (Stage::Finished(Ok(())), "Not installing...".to_owned()),
        };
        let lines = vec![message];
        (Session { plugins: Vec::new(), stage }, lines)
    }

    /// What the caller is to do now.
    pub fn pending(&self) -> (request: Request)
        ensures
            request@ == self@.pending(),
    {
        proof {
            use_type_invariant(self);
        }
        match self.stage {
            Stage::Listing => Request::Capture(listing_invocation()),
            Stage::Installing { index, step } => Request::Run(
                step_invocation(self.plugins[index].name.as_str(), step),
            ),
            Stage::Finished(end) => Request::Finish(end),
        }
    }

    /// Starts the installation of the plugins from `index` on.
    fn enter(plugins: Vec<Plugin>, index: usize) -> (entry: (Session, Vec<String>))
        requires
            index <= plugins@.len(),
        ensures
            entry.0@ == entering(plugin_views(plugins@.skip(index as int))),
            texts(entry.1@) == entry_texts(plugin_views(plugins@.skip(index as int))),
    {
        let ghost ahead = plugin_views(plugins@.skip(index as int));
        if index >= plugins.len() {
            let lines: Vec<String> = Vec::new();
            (Session { plugins, stage: Stage::Finished(Ok(())) }, lines)
        } else {
            let first = step_invocation(plugins[index].name.as_str(), Step::Add);
            let lines = vec![banner(&plugins[index]), announce(&first)];
            assert(ahead.skip(1) =~= plugin_views(plugins@.skip(index + 1)));
            (Session { plugins, stage: Stage::Installing { index, step: Step::Add } }, lines)
        }
    }

    /// Takes in what came of the pending request: the session as it goes on,
    /// and the lines to print before its pending request is carried out.
    pub fn advance(self, event: Event) -> (step: (Session, Vec<String>))
        ensures
            step.0@ == self@.next(event@),
            texts(step.1@) == self@.output(event@),
    {
        proof {
            use_type_invariant(&self);
        }
        let nothing: Vec<String> = Vec::new();
        match (self.stage, event) {
            (Stage::Listing, Event::Captured(bytes)) => {
                match read_listing(bytes) {
                    Ok(plugins) => {
                        assert(plugins@.skip(0) == plugins@);
                        Session::enter(plugins, 0)
                    },
                    Err(_) => (
                        Session {
                            plugins: self.plugins,
                            stage: Stage::Finished(Err(Fatal::Undecodable)),
                        },
                        nothing,
                    ),
                }
            },
            (Stage::Listing, Event::NotSpawned) => (
                Session { plugins: self.plugins, stage: Stage::Finished(Err(Fatal::NotSpawned)) },
                nothing,
            ),
            (Stage::Installing { index, step }, Event::Exited(exit)) => {
                let ended = step_invocation(self.plugins[index].name.as_str(), step);
                let (mut lines, _) = conclude(&ended, &exit);
                match next_step(step) {
                    Some(then) => {
                        let started = step_invocation(self.plugins[index].name.as_str(), then);
                        lines.push(announce(&started));
                        (
                            Session {
                                plugins: self.plugins,
                                stage: Stage::Installing { index, step: then },
                            },
                            lines,
                        )
                    },
                    None => {
                        assert(index < self.plugins.len());
                        let (session, mut entry) = Session::enter(self.plugins, index + 1);
                        lines.append(&mut entry);
                        (session, lines)
                    },
                }
            },
            (Stage::Installing { .. }, Event::NotSpawned) => (
                Session { plugins: self.plugins, stage: Stage::Finished(Err(Fatal::NotSpawned)) },
                nothing,
            ),
            (stage, _) => (Session { plugins: self.plugins, stage }, nothing),
        }
    }
}

/// A run that is over stays over: whatever is reported to it, it prints
/// nothing, its state does not change, and all it asks for is to stop.
pub proof fn lemma_finished_is_final(end: Result<(), Fatal>, events: Seq<EventView>)
    ensures
        SessionView::Finished(end).after(events) == SessionView::Finished(end),
        SessionView::Finished(end).after(events).pending() == RequestView::Finish(end),
        forall|event: EventView|
            #[trigger] SessionView::Finished(end).output(event) == Seq::<Seq<char>>::empty(),
    decreases events.len(),
{
    if events.len() > 0 {
        lemma_finished_is_final(end, events.drop_last());
    }
}

/// With the flag set nothing is listed and nothing installed: the run is
/// over as it starts, so that no process is ever asked for and, after the
/// opening message, nothing more is printed.
pub proof fn lemma_flag_suppresses_run(events: Seq<EventView>)
    ensures
        opening(Mode::of_flag(true)) == SessionView::Finished(Ok(())),
        opening(Mode::of_flag(true)).after(events).pending() == RequestView::Finish(Ok(())),
        forall|event: EventView|
            #[trigger] opening(Mode::of_flag(true)).after(events).output(event) == Seq::<
                Seq<char>,
            >::empty(),
{
    lemma_finished_is_final(Ok(()), events);
}

/// A listing that names no plugin ends the run well, with no process asked
/// for and nothing printed.
pub proof fn lemma_nothing_listed_nothing_run(bytes: Seq<u8>)
    requires
        valid_utf8(bytes),
        plugins_of(decode_utf8(bytes)).len() == 0,
    ensures
        SessionView::Listing.next(EventView::Captured(bytes)) == SessionView::Finished(Ok(())),
        SessionView::Listing.output(EventView::Captured(bytes)) == Seq::<Seq<char>>::empty(),
{
}

/// A process that cannot be started ends the run at once, whatever it was
/// doing: nothing is printed, the run is over with that failure, and nothing
/// reported later revives it.
pub proof fn lemma_not_spawned_ends_run(state: SessionView, later: Seq<EventView>)
    requires
        !(state is Finished),
    ensures
        state.next(EventView::NotSpawned) == SessionView::Finished(Err(Fatal::NotSpawned)),
        state.output(EventView::NotSpawned) == Seq::<Seq<char>>::empty(),
        state.next(EventView::NotSpawned).after(later).pending() == RequestView::Finish(
            Err(Fatal::NotSpawned),
        ),
{
    lemma_finished_is_final(Err(Fatal::NotSpawned), later);
}

/// How a step ended has no bearing on what is done next.
pub proof fn lemma_status_is_ignored(state: SessionView, one: ExitView, other: ExitView)
    ensures
        state.next(EventView::Exited(one)) == state.next(EventView::Exited(other)),
{
}

/// From a step on, as long as every process reports an exit, with success or
/// without, the requests come as planned: after so many exits the pending
/// request is the one so far down the list of those remaining, and after
/// the last of them the run is over and well.
pub proof fn lemma_exits_follow_plan(state: SessionView, events: Seq<EventView>)
    requires
        state is Installing,
        forall|i: int| 0 <= i < events.len() ==> (#[trigger] events[i]) is Exited,
    ensures
        events.len() < state.remaining().len() ==> state.after(events).remaining()
            == state.remaining().skip(events.len() as int),
        events.len() < state.remaining().len() ==> state.after(events).pending()
            == RequestView::Run(state.remaining()[events.len() as int]),
        events.len() >= state.remaining().len() ==> state.after(events) == SessionView::Finished(
            Ok(()),
        ),
    decreases events.len(),
{
    let all = state.remaining();
    if events.len() == 0 {
        lemma_remaining_first(state);
    } else {
        let before = events.drop_last();
        let reached = state.after(before);
        lemma_exits_follow_plan(state, before);
        if before.len() < all.len() {
            lemma_remaining_first(reached);
            let then = reached.next(EventView::Exited(events.last()->Exited_0));
            if events.len() < all.len() {
                lemma_remaining_first(then);
            }
        } else {
            lemma_finished_is_final(Ok(()), seq![events.last()]);
        }
    }
}

/// A run installs the plugins of its listing in their order, three steps
/// each, and a step that fails holds nothing up: if every process reports
/// an exit, the pending request after so many of them is the one at that
/// place in the plan, and after the last the run is over and well.
pub proof fn lemma_run_follows_plan(plugins: Seq<PluginView>, events: Seq<EventView>)
    requires
        forall|i: int| 0 <= i < events.len() ==> (#[trigger] events[i]) is Exited,
    ensures
        plan(plugins).len() == 3 * plugins.len(),
        events.len() < plan(plugins).len() ==> entering(plugins).after(events).pending()
            == RequestView::Run(plan(plugins)[events.len() as int]),
        events.len() >= plan(plugins).len() ==> entering(plugins).after(events).pending()
            == RequestView::Finish(Ok(())),
{
    lemma_plan_unfolds(plugins);
    if plugins.len() == 0 {
        lemma_finished_is_final(Ok(()), events);
    } else {
        lemma_exits_follow_plan(entering(plugins), events);
    }
}

/// Events taken in one after the other lead where their two halves lead in
/// turn.
pub proof fn lemma_after_concat(state: SessionView, first: Seq<EventView>, second: Seq<EventView>)
    ensures
        state.after(first + second) == state.after(first).after(second),
    decreases second.len(),
{
    if second.len() > 0 {
        assert((first + second).drop_last() == first + second.drop_last());
        lemma_after_concat(state, first, second.drop_last());
    }
}

/// A whole run: once the listing has come in, the plugins it names are
/// installed in its order, three steps each, as long as every process
/// reports an exit; after the last of them the run is over and well.
pub proof fn lemma_listed_plugins_are_installed(bytes: Seq<u8>, exits: Seq<EventView>)
    requires
        valid_utf8(bytes),
        forall|i: int| 0 <= i < exits.len() ==> (#[trigger] exits[i]) is Exited,
    ensures
        ({
            let requests = plan(plugins_of(decode_utf8(bytes)));
            let reached = opening(Mode::RunInstall).after(seq![EventView::Captured(bytes)] + exits);
            &&& exits.len() < requests.len() ==> reached.pending() == RequestView::Run(
                requests[exits.len() as int],
            )
            &&& exits.len() >= requests.len() ==> reached.pending() == RequestView::Finish(Ok(()))
        }),
{
    let listed = seq![EventView::Captured(bytes)];
    let start = opening(Mode::RunInstall);
    assert(start.after(listed.drop_last()) == start);
    lemma_after_concat(start, listed, exits);
    lemma_run_follows_plan(plugins_of(decode_utf8(bytes)), exits);
}

/// While a plugin is being installed, the pending request heads the list of
/// those remaining, and an exit moves the run on by one of them.
proof fn lemma_remaining_first(state: SessionView)
    requires
        state is Installing,
    ensures
        state.remaining().len() > 0,
        state.pending() == RequestView::Run(state.remaining()[0]),
        forall|exit: ExitView|
            ({
                let then = #[trigger] state.next(EventView::Exited(exit));
                &&& then.remaining() == state.remaining().skip(1)
                &&& then is Installing || then == SessionView::Finished(Ok(()))
                &&& then is Installing <==> state.remaining().len() > 1
            }),
{
    lemma_plan_unfolds(state->upcoming);
}

} // verus!
