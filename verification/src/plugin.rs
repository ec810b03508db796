//! A plugin and the actions it offers.

use vstd::prelude::*;

use crate::error::{ErrorView, SdkError};
use crate::text;
use crate::validation;

verus! {

// The host may multiplex jobs without a negotiated count. Keep the process
// bounded by default while allowing workloads to choose a tighter limit.
pub const DEFAULT_MAXIMUM_CONCURRENT_JOBS: usize = 256;

/// An action by its unique name, with what runs it.
pub struct RegisteredAction<H> {
    pub name: String,
    pub description: String,
    pub handler: H,
}

/// A configured plugin ready to open its oll-owned runtime stream.
pub struct Plugin<H> {
    pub plugin_id: String,
    pub version: String,
    pub actions: Vec<RegisteredAction<H>>,
    pub maximum_concurrent_jobs: usize,
}

/// Validates and assembles a [`Plugin`] one action at a time.
pub struct PluginBuilder<H>(pub Plugin<H>);

/// Whether every action has a name of its own.
pub open spec fn actions_distinct<H>(actions: Seq<RegisteredAction<H>>) -> bool {
    &&& forall|index: int|
        0 <= index < actions.len() ==> (#[trigger] actions[index]).name@.len() > 0
    &&& forall|left: int, right: int|
        0 <= left < right < actions.len() ==> (#[trigger] actions[left]).name@ != (
        #[trigger] actions[right]).name@
}

/// Whether an action of this name is registered.
pub open spec fn registered<H>(actions: Seq<RegisteredAction<H>>, name: Seq<char>) -> bool {
    exists|index: int| 0 <= index < actions.len() && (#[trigger] actions[index]).name@ == name
}

impl<H> Plugin<H> {
    /// What holds of every plugin under construction.
    pub open spec fn well_formed(self) -> bool {
        actions_distinct(self.actions@) && self.maximum_concurrent_jobs > 0
    }

    /// What holds of every plugin that is ready to run.
    pub open spec fn ready(self) -> bool {
        self.well_formed() && validation::is_plugin_id(self.plugin_id@) && self.version@.len() > 0
    }

    /// Starts a builder for the immutable publisher ID and informational version.
    pub fn builder(plugin_id: String, version: String) -> (result: PluginBuilder<H>)
        ensures
            result.0.plugin_id == plugin_id,
            result.0.version == version,
            result.0.actions@.len() == 0,
            result.0.maximum_concurrent_jobs == DEFAULT_MAXIMUM_CONCURRENT_JOBS,
            result.0.well_formed(),
    {
        PluginBuilder(
            Plugin {
                plugin_id,
                version,
                actions: Vec::new(),
                maximum_concurrent_jobs: DEFAULT_MAXIMUM_CONCURRENT_JOBS,
            },
        )
    }
}

/// The place of the action of this name.
pub fn find_action<H>(actions: &Vec<RegisteredAction<H>>, name: &str) -> (result: Option<usize>)
    ensures
        match result {
            Some(index) => index < actions@.len() && actions@[index as int].name@ == name@
                && forall|k: int| 0 <= k < index ==> (#[trigger] actions@[k]).name@ != name@,
            None => !registered(actions@, name@),
        },
{
    for index in 0..actions.len()
        invariant
            forall|k: int| 0 <= k < index ==> (#[trigger] actions@[k]).name@ != name@,
    {
        if text::same(actions[index].name.as_str(), name) {
            return Some(index);
        }
    }
    None
}

impl<H> PluginBuilder<H> {
    /// Sets the maximum number of action futures owned by this process.
    pub fn maximum_concurrent_jobs(self, maximum: usize) -> (result: Result<Self, SdkError>)
        requires
            self.0.well_formed(),
        ensures
            match result {
                Ok(builder) => {
                    &&& maximum > 0
                    &&& builder.0 == Plugin { maximum_concurrent_jobs: maximum, ..self.0 }
                    &&& builder.0.well_formed()
                },
                Err(error) => maximum == 0 && error@ == ErrorView::InvalidArgument(
                    "maximum concurrent jobs must be nonzero"@,
                ),
            },
    {
        if maximum == 0 {
            return Err(SdkError::invalid_argument("maximum concurrent jobs must be nonzero"));
        }
        let mut plugin: Plugin<H> = self.0;
        plugin.maximum_concurrent_jobs = maximum;
        Ok(PluginBuilder(plugin))
    }

    /// Registers one uniquely named action.
    pub fn action(self, name: String, description: String, handler: H) -> (result: Result<
        Self,
        SdkError,
    >)
        requires
            self.0.well_formed(),
        ensures
            match result {
                Ok(builder) => {
                    &&& name@.len() > 0 && !registered(self.0.actions@, name@)
                    &&& builder.0.plugin_id == self.0.plugin_id
                    &&& builder.0.version == self.0.version
                    &&& builder.0.maximum_concurrent_jobs == self.0.maximum_concurrent_jobs
                    &&& builder.0.actions@ == self.0.actions@.push(
                        RegisteredAction { name, description, handler },
                    )
                    &&& builder.0.well_formed()
                },
                Err(error) => (name@.len() == 0 || registered(self.0.actions@, name@)) && error@
                    == ErrorView::InvalidArgument("action names must be nonempty and unique"@),
            },
    {
        let mut plugin: Plugin<H> = self.0;
        if name.as_str().is_empty() || find_action(&plugin.actions, name.as_str()).is_some() {
            return Err(SdkError::invalid_argument("action names must be nonempty and unique"));
        }
        plugin.actions.push(RegisteredAction { name, description, handler });
        Ok(PluginBuilder(plugin))
    }

    /// Validates the plugin declaration and returns a runnable plugin.
    pub fn build(self) -> (result: Result<Plugin<H>, SdkError>)
        requires
            self.0.well_formed(),
        ensures
            match result {
                Ok(plugin) => plugin == self.0 && plugin.ready(),
                Err(error) => if !validation::is_plugin_id(self.0.plugin_id@) {
                    error@ == ErrorView::InvalidArgument(
                        "plugin ID must be a lower-case dotted DNS name"@,
                    )
                } else {
                    self.0.version@.len() == 0 && error@ == ErrorView::InvalidArgument(
                        "plugin version must not be empty"@,
                    )
                },
            },
    {
        match validation::plugin_id(self.0.plugin_id.as_str()) {
            Ok(()) => {},
            Err(error) => {
                return Err(error);
            },
        }
        if self.0.version.as_str().is_empty() {
            return Err(SdkError::invalid_argument("plugin version must not be empty"));
        }
        Ok(self.0)
    }
}

/// An action is found under its own name and no other, so that in a plugin whose
/// actions have distinct names there is one at most.
pub proof fn law_actions_are_found_by_name<H>(
    actions: Vec<RegisteredAction<H>>,
    name: &str,
    found: Option<usize>,
)
    requires
        call_ensures(find_action::<H>, (&actions, name), found),
    ensures
        found matches Some(index) ==> index < actions@.len() && actions@[index as int].name@
            == name@,
        found is None ==> forall|index: int|
            0 <= index < actions@.len() ==> (#[trigger] actions@[index]).name@ != name@,
        actions_distinct(actions@) && found is Some ==> forall|other: int|
            0 <= other < actions@.len() && (#[trigger] actions@[other]).name@ == name@ ==> other
                == found->0,
{
    if found is None {
        assert forall|index: int| 0 <= index < actions@.len() implies (
        #[trigger] actions@[index]).name@ != name@ by {
            assert(!registered(actions@, name@));
        }
    }
}

/// A plugin takes an action exactly if its name is not empty and not taken, keeps the
/// actions before it, and can be built exactly if its ID and its version are in
/// order. A limit of zero jobs is refused.
pub proof fn law_plugins_are_assembled_as_declared<H>(
    builder: PluginBuilder<H>,
    name: String,
    description: String,
    handler: H,
    extended: Result<PluginBuilder<H>, SdkError>,
    maximum: usize,
    limited: Result<PluginBuilder<H>, SdkError>,
    built: Result<Plugin<H>, SdkError>,
)
    requires
        builder.0.well_formed(),
        call_ensures(PluginBuilder::<H>::action, (builder, name, description, handler), extended),
        call_ensures(PluginBuilder::<H>::maximum_concurrent_jobs, (builder, maximum), limited),
        call_ensures(PluginBuilder::<H>::build, (builder,), built),
    ensures
        extended is Ok <==> name@ != Seq::<char>::empty() && forall|index: int|
            0 <= index < builder.0.actions@.len() ==> (
            #[trigger] builder.0.actions@[index]).name@ != name@,
        extended matches Ok(extended) ==> {
            let last = extended.0.actions@.last();
            &&& extended.0.actions@.drop_last() == builder.0.actions@
            &&& last.name == name && last.description == description && last.handler == handler
            &&& extended.0.plugin_id == builder.0.plugin_id
            &&& extended.0.version == builder.0.version
            &&& extended.0.maximum_concurrent_jobs == builder.0.maximum_concurrent_jobs
        },
        limited is Ok <==> maximum != 0,
        limited matches Ok(limited) ==> limited.0.maximum_concurrent_jobs == maximum
            && limited.0.actions == builder.0.actions && limited.0.plugin_id
            == builder.0.plugin_id && limited.0.version == builder.0.version,
        built is Ok <==> validation::is_plugin_id(builder.0.plugin_id@)
            && builder.0.version@.len() > 0,
        built matches Ok(plugin) ==> plugin == builder.0,
{
    assert(name@.len() == 0 <==> name@ =~= Seq::<char>::empty());
    if registered(builder.0.actions@, name@) {
        let index = choose|index: int|
            0 <= index < builder.0.actions@.len() && (
            #[trigger] builder.0.actions@[index]).name@ == name@;
        assert(builder.0.actions@[index].name@ == name@);
    } else {
        assert forall|index: int| 0 <= index < builder.0.actions@.len() implies (
        #[trigger] builder.0.actions@[index]).name@ != name@ by {}
    }
    match extended {
        Ok(extended) => {
            assert(extended.0.actions@.drop_last() =~= builder.0.actions@);
        },
        Err(_) => {},
    }
}

/// A plugin that is built afresh runs at most two hundred and fifty-six jobs at once
/// and offers nothing.
pub proof fn law_builders_begin_empty<H>(
    plugin_id: String,
    version: String,
    builder: PluginBuilder<H>,
)
    requires
        call_ensures(Plugin::<H>::builder, (plugin_id, version), builder),
    ensures
        builder.0.plugin_id == plugin_id,
        builder.0.version == version,
        builder.0.actions@.len() == 0,
        builder.0.maximum_concurrent_jobs == 256,
{
}

} // verus!
