//! Security plugins: user-written analysers of network events, kept in a
//! registry that runs each of them on every event.
use vstd::prelude::*;
use crate::alerts::Alert;
use crate::models::NetworkEvent;
use crate::text::string_of;

verus! {

/// The error type that plugin hooks report (`anyhow::Error`).
#[verifier::external_type_specification]
#[verifier::external_body]
pub struct PluginError(anyhow::Error);

/// A security plugin, written by users.
pub trait SecurityPlugin: Send + Sync {
    /// Whether `alert` is a result the plugin may give for `event`. A plugin
    /// that states nothing of its results permits any.
    open spec fn permits(&self, event: NetworkEvent, alert: Option<Alert>) -> bool {
        true
    }

    /// Whether `name` is a name the plugin may give. A plugin that states
    /// nothing of its name may give any.
    open spec fn gives_name(&self, name: Seq<char>) -> bool {
        true
    }

    /// The plugin's name.
    fn name(&self) -> (r: &str)
        ensures
            self.gives_name(r@),
    ;

    /// The plugin's version; `0.1.0` unless the plugin says otherwise.
    fn version(&self) -> (r: &str)
        default_ensures
            r@ == "0.1.0"@,
    {
        "0.1.0"
    }

    /// What the plugin does; empty unless the plugin says otherwise.
    fn description(&self) -> (r: &str)
        default_ensures
            r@ == ""@,
    {
        ""
    }

    fn analyze(&self, event: &NetworkEvent) -> (r: Option<Alert>)
        ensures
            self.permits(*event, r),
    ;

    /// Called when the plugin is registered; succeeds unless the plugin
    /// says otherwise.
    fn on_startup(&self) -> (r: Result<(), anyhow::Error>)
        default_ensures
            r is Ok,
    {
        Ok(())
    }

    /// Called when the plugin is unregistered; succeeds unless the plugin
    /// says otherwise.
    fn on_shutdown(&self) -> (r: Result<(), anyhow::Error>)
        default_ensures
            r is Ok,
    {
        Ok(())
    }
}

/// What a plugin says of itself.
#[derive(Debug)]
pub struct PluginMetadata {
    pub name: String,
    pub version: String,
    pub description: String,
}

/// A plugin held by a registry.
pub struct Registered {
    pub plugin: Box<dyn SecurityPlugin>,
}

/// Whether `names` are names that the first `names.len()` of `plugins` may
/// give, in order.
pub open spec fn names_given(plugins: Seq<Registered>, names: Seq<Seq<char>>) -> bool {
    &&& names.len() <= plugins.len()
    &&& forall|j: int| 0 <= j < names.len() ==> plugins[j].plugin.gives_name(#[trigger] names[j])
}

/// Whether `after` is what unregistering `name` leaves of `before`: the
/// plugins are asked their names in order, and the first that gives `name`
/// is removed; when none gives it, nothing changes.
pub open spec fn unregistered(before: Seq<Registered>, after: Seq<Registered>, name: Seq<char>) -> bool {
    exists|names: Seq<Seq<char>>|
        #![trigger names_given(before, names)]
        names_given(before, names) && ((names.len() > 0 && names.last() == name && (forall|j: int|
            0 <= j < names.len() - 1 ==> #[trigger] names[j] != name) && after == before.remove(
            names.len() - 1,
        )) || (names.len() == before.len() && (forall|j: int|
            0 <= j < names.len() ==> #[trigger] names[j] != name) && after == before))
}

/// The alerts among `outs`, in order.
pub open spec fn raised(outs: Seq<Option<Alert>>) -> Seq<Alert>
    decreases outs.len(),
{
    if outs.len() == 0 {
        Seq::empty()
    } else {
        match outs.last() {
            Some(a) => raised(outs.drop_last()).push(a),
            None => raised(outs.drop_last()),
        }
    }
}

/// The registered plugins, in registration order.
pub struct PluginRegistry {
    plugins: Vec<Registered>,
}

impl PluginRegistry {
    /// The registered plugins, in registration order.
    pub closed spec fn plugin_list(&self) -> Seq<Registered> {
        self.plugins@
    }

    /// An empty registry.
    pub fn new() -> (r: Self)
        ensures
            r.plugin_list() == Seq::<Registered>::empty(),
    {
        PluginRegistry { plugins: Vec::new() }
    }

    /// Starts a plugin (a failure to start is not held against it) and
    /// registers it last.
    pub fn register(&mut self, plugin: Box<dyn SecurityPlugin>)
        ensures
            final(self).plugin_list() == old(self).plugin_list().push(Registered { plugin }),
    {
        let _ = plugin.on_startup();
        self.plugins.push(Registered { plugin });
    }

    /// Asks the plugins their names in registration order, removes the first
    /// whose name is `name` and shuts it down (a failure to shut down is not
    /// held against it); nothing changes when none has that name.
    pub fn unregister(&mut self, name: &str)
        ensures
            unregistered(old(self).plugin_list(), final(self).plugin_list(), name@),
    {
        let ghost s = self.plugins@;
        let ghost mut names: Seq<Seq<char>> = Seq::empty();
        let wanted = crate::text::chars_of(name);
        let mut i: usize = 0;
        while i < self.plugins.len()
            invariant
                i <= self.plugins.len(),
                self.plugins@ == s,
                s == old(self).plugins@,
                wanted@ == name@,
                names.len() == i,
                names_given(s, names),
                forall|j: int| 0 <= j < i ==> #[trigger] names[j] != name@,
            decreases self.plugins.len() - i,
        {
            let given = self.plugins[i].plugin.name();
            let ghost prev = names;
            proof {
                names = names.push(given@);
                assert forall|j: int| 0 <= j < names.len() implies s[j].plugin.gives_name(#[trigger] names[j]) by {
                    if j < i {
                        assert(names[j] == prev[j]);
                    }
                }
            }
            let found = crate::text::chars_equal(&crate::text::chars_of(given), &wanted);
            if found {
                proof {
                    assert forall|j: int| 0 <= j < names.len() - 1 implies #[trigger] names[j] != name@ by {
                        assert(names[j] == prev[j]);
                    }
                    assert(names.last() == name@);
                }
                let removed = self.plugins.remove(i);
                let _ = removed.plugin.on_shutdown();
                assert(names_given(s, names));
                return;
            }
            proof {
                assert forall|j: int| 0 <= j < i + 1 implies #[trigger] names[j] != name@ by {
                    if j < i {
                        assert(names[j] == prev[j]);
                    }
                }
            }
            i = i + 1;
        }
        assert(names_given(s, names));
    }

    /// Runs every plugin on the event, in registration order, and returns
    /// the alerts they raise (see [`raised_alerts`]).
    pub fn analyze(&self, event: &NetworkEvent) -> (alerts: Vec<Alert>)
        ensures
            exists|outs: Seq<Option<Alert>>|
                #![trigger raised(outs)]
                {
                    &&& outs.len() == self.plugin_list().len()
                    &&& forall|i: int|
                        0 <= i < outs.len() ==> #[trigger] self.plugin_list()[i].plugin.permits(
                            *event,
                            outs[i],
                        )
                    &&& alerts@ == raised(outs)
                },
    {
        let mut outs: Vec<Option<Alert>> = Vec::new();
        let mut i: usize = 0;
        while i < self.plugins.len()
            invariant
                i <= self.plugins.len(),
                outs.len() == i,
                forall|k: int| 0 <= k < i ==> #[trigger] self.plugins@[k].plugin.permits(*event, outs@[k]),
            decreases self.plugins.len() - i,
        {
            let r = self.plugins[i].plugin.analyze(event);
            outs.push(r);
            i = i + 1;
        }
        let ghost answers = outs@;
        let alerts = raised_alerts(outs);
        assert(raised(answers) == alerts@);
        alerts
    }

    /// The name and version of every plugin, as each gives them, in
    /// registration order (the version of a plugin is whatever it answers).
    pub fn list_plugins(&self) -> (r: Vec<(String, String)>)
        ensures
            r@.len() == self.plugin_list().len(),
            forall|i: int|
                0 <= i < r@.len() ==> self.plugin_list()[i].plugin.gives_name((#[trigger] r@[i]).0@),
    {
        let mut out: Vec<(String, String)> = Vec::new();
        let mut i: usize = 0;
        while i < self.plugins.len()
            invariant
                i <= self.plugins.len(),
                out@.len() == i,
                forall|k: int|
                    0 <= k < i ==> self.plugins@[k].plugin.gives_name((#[trigger] out@[k]).0@),
            decreases self.plugins.len() - i,
        {
            let p = &self.plugins[i].plugin;
            out.push((string_of(p.name()), string_of(p.version())));
            i = i + 1;
        }
        out
    }
}

/// The alerts that plugins raised, given each plugin's answer in
/// registration order: the answers that are alerts, in that order.
pub fn raised_alerts(outs: Vec<Option<Alert>>) -> (alerts: Vec<Alert>)
    ensures
        alerts@ == raised(outs@),
{
    let ghost all = outs@;
    assert(all.len() == outs.len());
    let mut alerts: Vec<Alert> = Vec::new();
    let mut rest = outs;
    let mut taken: usize = 0;
    while rest.len() > 0
        invariant
            taken + rest.len() == all.len(),
            all.len() <= usize::MAX,
            rest@ == all.subrange(taken as int, all.len() as int),
            alerts@ == raised(all.take(taken as int)),
        decreases rest.len(),
    {
        let next = rest.remove(0);
        assert(next == all[taken as int]);
        assert(all.take(taken + 1).drop_last() =~= all.take(taken as int));
        assert(all.take(taken + 1).last() == all[taken as int]);
        match next {
            Some(a) => alerts.push(a),
            None => {},
        }
        taken = taken + 1;
        assert(rest@ =~= all.subrange(taken as int, all.len() as int));
    }
    assert(all.take(taken as int) =~= all);
    alerts
}

/// A law of the registry: a plugin that gives one name only, registered
/// after plugins none of which gives that name, is what unregistering that
/// name removes, and the registry is then as it was before.
pub proof fn lemma_register_then_unregister(
    plugins: Seq<Registered>,
    added: Registered,
    name: Seq<char>,
    after: Seq<Registered>,
)
    requires
        forall|n: Seq<char>| #[trigger] added.plugin.gives_name(n) ==> n == name,
        forall|j: int, n: Seq<char>|
            0 <= j < plugins.len() && #[trigger] plugins[j].plugin.gives_name(n) ==> n != name,
        unregistered(plugins.push(added), after, name),
    ensures
        after == plugins,
{
    let s = plugins.push(added);
    let names = choose|names: Seq<Seq<char>>|
        #![trigger names_given(s, names)]
        names_given(s, names) && ((names.len() > 0 && names.last() == name && (forall|j: int|
            0 <= j < names.len() - 1 ==> #[trigger] names[j] != name) && after == s.remove(
            names.len() - 1,
        )) || (names.len() == s.len() && (forall|j: int|
            0 <= j < names.len() ==> #[trigger] names[j] != name) && after == s));
    let k = plugins.len() as int;
    if names.len() > 0 && names.last() == name && after == s.remove(names.len() - 1) {
        let i = names.len() - 1;
        assert(s[i].plugin.gives_name(names[i]));
        if i < k {
            assert(s[i] == plugins[i]);
        }
        assert(i == k);
        assert(s.remove(k) =~= plugins);
    } else {
        assert(s[k] == added);
        assert(s[k].plugin.gives_name(names[k]));
        assert(names[k] != name);
    }
}

} // verus!
