//! What the version manager is asked to do: the listing of its plugins, and
//! the three steps that install one.

use crate::command::{Invocation, InvocationView};
use crate::listing::{Plugin, PluginView};
use crate::text::texts;
use vstd::prelude::*;

verus! {

/// One of the three things done for a plugin, in the order in which they are
/// done.
#[derive(Clone, Copy, Debug, PartialEq, Eq, Structural)]
pub enum Step {
    /// The plugin is added to the tool.
    Add,
    /// The latest version of what it manages is installed.
    Install,
    /// That version is made the global default.
    Global,
}

/// The request for the listing of all plugins: `asdf plugin-list-all`.
pub open spec fn listing_request() -> InvocationView {
    InvocationView { program: "asdf"@, args: seq!["plugin-list-all"@] }
}

/// The request that carries out `step` for the plugin called `name`:
/// `asdf plugin-add <name>`, `asdf install <name> latest` or
/// `asdf global <name> latest`.
pub open spec fn step_request(name: Seq<char>, step: Step) -> InvocationView {
    match step {
        Step::Add => InvocationView { program: "asdf"@, args: seq!["plugin-add"@, name] },
        Step::Install => InvocationView {
            program: "asdf"@,
            args: seq!["install"@, name, "latest"@],
        },
        Step::Global => InvocationView { program: "asdf"@, args: seq!["global"@, name, "latest"@] },
    }
}

/// The three requests made for one plugin, in order.
pub open spec fn steps_for(name: Seq<char>) -> Seq<InvocationView> {
    seq![
        step_request(name, Step::Add),
        step_request(name, Step::Install),
        step_request(name, Step::Global),
    ]
}

/// Every request of a run that installs `plugins`: the three steps of the
/// first plugin, then those of the second, and so on.
pub open spec fn plan(plugins: Seq<PluginView>) -> Seq<InvocationView> {
    plugins.flat_map(|p: PluginView| steps_for(p.name))
}

/// The lines that introduce a plugin before its steps are taken.
pub open spec fn banner_text(plugin: PluginView) -> Seq<char> {
    "Plugin '"@ + plugin.name + "'\n\tURL: "@ + plugin.url
}

/// A plan holds three requests for each plugin, in the order of the plugins:
/// to add it, to install its latest version, and to make that version the
/// global default.
pub proof fn lemma_plan_at(plugins: Seq<PluginView>, i: int)
    requires
        0 <= i < plugins.len(),
    ensures
        plan(plugins).len() == 3 * plugins.len(),
        plan(plugins)[3 * i] == step_request(plugins[i].name, Step::Add),
        plan(plugins)[3 * i + 1] == step_request(plugins[i].name, Step::Install),
        plan(plugins)[3 * i + 2] == step_request(plugins[i].name, Step::Global),
    decreases plugins.len(),
{
    lemma_plan_unfolds(plugins);
    if i > 0 {
        lemma_plan_at(plugins.skip(1), i - 1);
    }
}

/// The plan for no plugin is empty; any other begins with the three steps of
/// the first plugin and goes on with the plan for the rest.
pub proof fn lemma_plan_unfolds(plugins: Seq<PluginView>)
    ensures
        plan(plugins).len() == 3 * plugins.len(),
        plugins.len() == 0 ==> plan(plugins) == Seq::<InvocationView>::empty(),
        plugins.len() > 0 ==> plan(plugins) == steps_for(plugins[0].name) + plan(plugins.skip(1)),
    decreases plugins.len(),
{
    let each = |p: PluginView| steps_for(p.name);
    if plugins.len() > 0 {
        assert(plugins.map_values(each).drop_first() == plugins.skip(1).map_values(each));
        lemma_plan_unfolds(plugins.skip(1));
    }
}

/// The request for the listing of all plugins.
pub fn listing_invocation() -> (invocation: Invocation)
    ensures
        invocation@ == listing_request(),
{
    let invocation = Invocation {
        program: "asdf".to_owned(),
        args: vec!["plugin-list-all".to_owned()],
    };
    assert(invocation@.args =~= listing_request().args);
    invocation
}

/// The request that carries out `step` for the plugin called `name`.
pub fn step_invocation(name: &str, step: Step) -> (invocation: Invocation)
    ensures
        invocation@ == step_request(name@, step),
{
    let args = match step {
        Step::Add => vec!["plugin-add".to_owned(), name.to_owned()],
        Step::Install => vec!["install".to_owned(), name.to_owned(), "latest".to_owned()],
        Step::Global => vec!["global".to_owned(), name.to_owned(), "latest".to_owned()],
    };
    let invocation = Invocation { program: "asdf".to_owned(), args };
    assert(invocation@.args =~= step_request(name@, step).args);
    invocation
}

/// The lines that introduce `plugin`.
pub fn banner(plugin: &Plugin) -> (line: String)
    ensures
        line@ == banner_text(plugin@),
{
    let mut line = "Plugin '".to_owned();
    line.append(plugin.name.as_str());
    line.append("'\n\tURL: ");
    line.append(plugin.url.as_str());
    line
}

/// The step that follows `step` for the same plugin, if there is one.
pub open spec fn following(step: Step) -> Option<Step> {
    match step {
        Step::Add => Some(Step::Install),
        Step::Install => Some(Step::Global),
        Step::Global => None,
    }
}

/// The step that follows `step` for the same plugin, if there is one.
pub fn next_step(step: Step) -> (next: Option<Step>)
    ensures
        next == following(step),
{
    match step {
        Step::Add => Some(Step::Install),
        Step::Install => Some(Step::Global),
        Step::Global => None,
    }
}

} // verus!
