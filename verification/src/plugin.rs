//! The plugin manager: which plugins are registered, in which state each is,
//! and which of a plugin's operations a request calls for. The plugins
//! themselves, and the calls into them, belong to the embedding broker.

use vstd::prelude::*;
use dashmap::DashMap;
use crate::json::{json_document, Json};
use crate::text::{from_chars, to_chars};

verus! {

/// Why a request to the plugin manager fails.
#[derive(Debug, Clone, Copy, PartialEq, Eq, Hash, Structural)]
pub enum PluginError {
    /// No plugin of this name is registered.
    NotFound,
    /// The plugin is immutable: it cannot be started, stopped or reconfigured.
    Immutable,
    /// The plugin has not been initialised.
    NotInitialized,
    /// The plugin is not running.
    NotStarted,
    /// An operation of the plugin failed.
    Failed,
    /// The attributes of the plugin are not JSON.
    Attrs,
}

/// The state of a plugin's life cycle.
#[derive(Debug, Clone, Copy, PartialEq, Eq, Hash, Structural)]
pub enum PluginState {
    Registered,
    Inited,
    Active,
}

/// An operation of a plugin.
#[derive(Debug, Clone, Copy, PartialEq, Eq, Hash, Structural)]
pub enum Call {
    /// Run the deferred constructor.
    Construct,
    Init,
    Start,
    Stop,
    LoadConfig,
}

/// What the manager knows of one plugin.
#[derive(Debug, Clone, Copy, PartialEq, Eq, Hash, Structural)]
pub struct Entry {
    pub inited: bool,
    pub active: bool,
    /// An immutable plugin rejects start, stop and load-config.
    pub immutable: bool,
    /// Whether the plugin has been constructed. Until then only its
    /// constructor is held.
    pub constructed: bool,
}

impl Entry {
    pub fn inited(&self) -> (r: bool)
        ensures
            r == self.inited,
    {
        self.inited
    }

    pub fn active(&self) -> (r: bool)
        ensures
            r == self.active,
    {
        self.active
    }

    pub fn immutable(&self) -> (r: bool)
        ensures
            r == self.immutable,
    {
        self.immutable
    }

    /// The state of the life cycle.
    pub open spec fn state_of(&self) -> PluginState {
        if self.active {
            PluginState::Active
        } else if self.inited {
            PluginState::Inited
        } else {
            PluginState::Registered
        }
    }

    /// The state of the life cycle.
    pub fn state(&self) -> (r: PluginState)
        ensures
            r == self.state_of(),
    {
        if self.active {
            PluginState::Active
        } else if self.inited {
            PluginState::Inited
        } else {
            PluginState::Registered
        }
    }

    /// The operation that a start calls for next: the constructor where the
    /// plugin is not yet constructed, then `init` where it is not initialised,
    /// then `start` where it is not running; none where it is running.
    pub open spec fn start_call(&self) -> Option<Call> {
        if !self.inited {
            if !self.constructed {
                Some(Call::Construct)
            } else {
                Some(Call::Init)
            }
        } else if !self.active {
            if !self.constructed {
                Some(Call::Construct)
            } else {
                Some(Call::Start)
            }
        } else {
            None
        }
    }

    /// The entry after an operation of a start has ended. A constructor that
    /// succeeds leaves the plugin constructed; `init` that succeeds leaves it
    /// initialised; `start` that succeeds leaves it running. An operation
    /// that fails on the way from registered to running takes the plugin back
    /// to registered; a `start` that fails on an initialised plugin leaves it
    /// initialised.
    pub open spec fn after_start_call(&self, call: Call, ok: bool, from: PluginState) -> Entry {
        if ok {
            match call {
                Call::Construct => Entry { constructed: true, ..*self },
                Call::Init => Entry { inited: true, ..*self },
                Call::Start => Entry { active: true, ..*self },
                _ => *self,
            }
        } else if from is Registered {
            Entry { inited: false, active: false, ..*self }
        } else {
            *self
        }
    }

    /// The entry after `stop` has ended: no longer running where the plugin
    /// confirmed that it stopped.
    pub open spec fn after_stop(&self, stopped: bool) -> Entry {
        Entry { active: self.active && !stopped, ..*self }
    }

    /// The operation that loading the configuration calls for next: the
    /// constructor where the plugin is not yet constructed, else `load_config`.
    pub open spec fn config_call(&self) -> Call {
        if self.constructed {
            Call::LoadConfig
        } else {
            Call::Construct
        }
    }

    /// The entry after an operation of loading the configuration has ended.
    /// A constructor that succeeds leaves the plugin constructed. Nothing
    /// else changes, whether the operation succeeds or fails: the plugin
    /// stays in the state in which it was.
    pub open spec fn after_config_call(&self, call: Call, ok: bool) -> Entry {
        if ok && call is Construct {
            Entry { constructed: true, ..*self }
        } else {
            *self
        }
    }
}

/// The concurrent map behind the manager: the entries by plugin name.
pub type Registry = DashMap<String, Entry>;

/// What the map holds: the entry of each registered name.
pub uninterp spec fn registry_entries(map: Registry) -> Map<Seq<char>, Entry>;

/// `DashMap::new`: a map that holds nothing.
#[verifier::external_body]
fn registry_new() -> (fresh: Registry)
    ensures
        registry_entries(fresh).dom() == Set::<Seq<char>>::empty(),
{
    DashMap::new()
}

/// `DashMap::insert`: the entry is stored under the name, in place of what
/// was there; returns what was there.
#[verifier::external_body]
fn registry_insert(map: &mut Registry, name: String, entry: Entry) -> (before: Option<Entry>)
    ensures
        registry_entries(*final(map)) == registry_entries(*old(map)).insert(name@, entry),
        before == if registry_entries(*old(map)).contains_key(name@) {
            Some(registry_entries(*old(map))[name@])
        } else {
            None
        },
{
    map.insert(name, entry)
}

/// `DashMap::get`: the entry stored under the name, if there is one.
#[verifier::external_body]
fn registry_get(map: &Registry, name: &str) -> (r: Option<Entry>)
    ensures
        r == if registry_entries(*map).contains_key(name@) {
            Some(registry_entries(*map)[name@])
        } else {
            None
        },
{
    map.get(name).map(|entry| *entry.value())
}

/// `DashMap::remove`: the entry stored under the name leaves the map; returns it.
#[verifier::external_body]
fn registry_remove(map: &mut Registry, name: &str) -> (r: Option<Entry>)
    ensures
        registry_entries(*final(map)) == registry_entries(*old(map)).remove(name@),
        r == if registry_entries(*old(map)).contains_key(name@) {
            Some(registry_entries(*old(map))[name@])
        } else {
            None
        },
{
    map.remove(name).map(|pair| pair.1)
}

/// `DashMap::iter`: every registered name once, in no particular order.
#[verifier::external_body]
fn registry_names(map: &Registry) -> (names: Vec<String>)
    ensures
        forall|i: int, j: int| 0 <= i < j < names@.len() ==> names@[i]@ != names@[j]@,
        forall|name: Seq<char>|
            registry_entries(*map).contains_key(name) <==> exists|i: int|
                0 <= i < names@.len() && (#[trigger] names@[i])@ == name,
{
    map.iter().map(|entry| entry.key().clone()).collect()
}

/// Where the configuration of the plugins comes from.
#[derive(Debug, Clone, PartialEq, Eq)]
pub enum PluginManagerConfig {
    /// A directory that holds one file `<plugin name>.toml` per plugin.
    Path(String),
    /// The TOML text of each plugin, by plugin name.
    Inline(Vec<(String, String)>),
}

impl PluginManagerConfig {
    /// Among the inline configurations no plugin is named twice.
    pub open spec fn wf(&self) -> bool {
        match *self {
            PluginManagerConfig::Path(_) => true,
            PluginManagerConfig::Inline(pairs) => forall|i: int, j: int|
                0 <= i < j < pairs@.len() ==> pairs@[i].0@ != pairs@[j].0@,
        }
    }
}

/// The plugin manager.
pub struct Manager {
    pub plugins: Registry,
    pub config: PluginManagerConfig,
}

impl Manager {
    /// The entries of the registered plugins, by name.
    pub open spec fn entries(&self) -> Map<Seq<char>, Entry> {
        registry_entries(self.plugins)
    }

    /// The entry of a plugin, or the error for a name that is not registered.
    pub open spec fn known(&self, name: Seq<char>) -> Result<Entry, PluginError> {
        if self.entries().contains_key(name) {
            Ok(self.entries()[name])
        } else {
            Err(PluginError::NotFound)
        }
    }

    /// The entry of a plugin that may be changed, or the error for a name that
    /// is not registered or for an immutable plugin.
    pub open spec fn mutable(&self, name: Seq<char>) -> Result<Entry, PluginError> {
        match self.known(name) {
            Ok(entry) => if entry.immutable {
                Err(PluginError::Immutable)
            } else {
                Ok(entry)
            },
            Err(e) => Err(e),
        }
    }

    /// A manager without plugins.
    pub fn new(config: PluginManagerConfig) -> (r: Manager)
        ensures
            r.config == config,
            r.entries() =~= Map::<Seq<char>, Entry>::empty(),
    {
        Manager { plugins: registry_new(), config }
    }

    /// Takes the plugin of this name out of the registry, as the first step
    /// of registering another under the name. Returns its entry: where that
    /// says the plugin is running, the plugin is to be stopped.
    pub fn unregister(&mut self, name: &str) -> (r: Option<Entry>)
        ensures
            final(self).config == old(self).config,
            final(self).entries() == old(self).entries().remove(name@),
            r == (match old(self).known(name@) {
                Ok(entry) => Some(entry),
                Err(_) => None,
            }),
    {
        registry_remove(&mut self.plugins, name)
    }

    /// Registers a plugin. One that starts by default has been constructed,
    /// initialised and started before it is registered, and is registered as
    /// running; any other is registered with its constructor only.
    pub fn register(&mut self, name: String, default_startup: bool, immutable: bool)
        ensures
            final(self).config == old(self).config,
            final(self).entries() == old(self).entries().insert(
                name@,
                (Entry {
                    inited: default_startup,
                    active: default_startup,
                    immutable,
                    constructed: default_startup,
                }),
            ),
    {
        let entry = Entry {
            inited: default_startup,
            active: default_startup,
            immutable,
            constructed: default_startup,
        };
        registry_insert(&mut self.plugins, name, entry);
    }

    /// The entry of a plugin.
    pub fn get(&self, name: &str) -> (r: Option<Entry>)
        ensures
            r == (match self.known(name@) {
                Ok(entry) => Some(entry),
                Err(_) => None,
            }),
    {
        registry_get(&self.plugins, name)
    }

    /// The entry of a plugin that is to be changed. An immutable plugin is an error.
    pub fn get_mut(&self, name: &str) -> (r: Result<Option<Entry>, PluginError>)
        ensures
            r == (match self.known(name@) {
                Ok(entry) => if entry.immutable {
                    Err(PluginError::Immutable)
                } else {
                    Ok(Some(entry))
                },
                Err(_) => Ok(None),
            }),
    {
        match registry_get(&self.plugins, name) {
            Some(entry) => {
                if entry.immutable {
                    Err(PluginError::Immutable)
                } else {
                    Ok(Some(entry))
                }
            },
            None => Ok(None),
        }
    }

    /// Whether the plugin is running. A name that is not registered is not.
    pub fn is_active(&self, name: &str) -> (r: bool)
        ensures
            r == (self.known(name@) matches Ok(entry) && entry.active),
    {
        match registry_get(&self.plugins, name) {
            Some(entry) => entry.active(),
            None => false,
        }
    }

    /// The names of the registered plugins, each once, in no particular order.
    pub fn iter(&self) -> (names: Vec<String>)
        ensures
            forall|i: int, j: int| 0 <= i < j < names@.len() ==> names@[i]@ != names@[j]@,
            forall|name: Seq<char>|
                self.entries().contains_key(name) <==> exists|i: int|
                    0 <= i < names@.len() && (#[trigger] names@[i])@ == name,
    {
        registry_names(&self.plugins)
    }

    /// The operation that starting the plugin calls for next, or nothing
    /// where the plugin is running. How the operation ended goes to `started`.
    pub fn start(&self, name: &str) -> (r: Result<Option<Call>, PluginError>)
        ensures
            r == (match self.mutable(name@) {
                Ok(entry) => Ok(entry.start_call()),
                Err(e) => Err(e),
            }),
    {
        match self.get_mut(name) {
            Ok(Some(entry)) => {
                if !entry.inited {
                    if !entry.constructed {
                        Ok(Some(Call::Construct))
                    } else {
                        Ok(Some(Call::Init))
                    }
                } else if !entry.active {
                    if !entry.constructed {
                        Ok(Some(Call::Construct))
                    } else {
                        Ok(Some(Call::Start))
                    }
                } else {
                    Ok(None)
                }
            },
            Ok(None) => Err(PluginError::NotFound),
            Err(e) => Err(e),
        }
    }

    /// Records how an operation of a start ended. `from` is the state in which
    /// the start found the plugin. A failure is handed back as the error.
    pub fn started(&mut self, name: String, call: Call, ok: bool, from: PluginState) -> (r: Result<
        (),
        PluginError,
    >)
        ensures
            final(self).config == old(self).config,
            match old(self).mutable(name@) {
                Ok(entry) => {
                    &&& final(self).entries() == old(self).entries().insert(
                        name@,
                        entry.after_start_call(call, ok, from),
                    )
                    &&& r == if ok {
                        Ok::<(), PluginError>(())
                    } else {
                        Err(PluginError::Failed)
                    }
                },
                Err(e) => final(self).entries() == old(self).entries() && r == Err::<(), PluginError>(
                    e,
                ),
            },
    {
        match self.get_mut(name.as_str()) {
            Ok(Some(entry)) => {
                let next = if ok {
                    match call {
                        Call::Construct => Entry { constructed: true, ..entry },
                        Call::Init => Entry { inited: true, ..entry },
                        Call::Start => Entry { active: true, ..entry },
                        _ => entry,
                    }
                } else {
                    match from {
                        PluginState::Registered => Entry { inited: false, active: false, ..entry },
                        _ => entry,
                    }
                };
                registry_insert(&mut self.plugins, name, next);
                if ok {
                    Ok(())
                } else {
                    Err(PluginError::Failed)
                }
            },
            Ok(None) => Err(PluginError::NotFound),
            Err(e) => Err(e),
        }
    }

    /// Whether the plugin can be stopped: it must be registered, not
    /// immutable, and running. How `stop` ended goes to `stopped`.
    pub fn stop(&self, name: &str) -> (r: Result<(), PluginError>)
        ensures
            r == (match self.mutable(name@) {
                Ok(entry) => if entry.active {
                    Ok::<(), PluginError>(())
                } else {
                    Err(PluginError::NotStarted)
                },
                Err(e) => Err(e),
            }),
    {
        match self.get_mut(name) {
            Ok(Some(entry)) => {
                if entry.active {
                    Ok(())
                } else {
                    Err(PluginError::NotStarted)
                }
            },
            Ok(None) => Err(PluginError::NotFound),
            Err(e) => Err(e),
        }
    }

    /// Records how `stop` ended: the plugin is no longer running where it
    /// confirmed that it stopped. Returns that answer.
    pub fn stopped(&mut self, name: String, stopped: bool) -> (r: Result<bool, PluginError>)
        ensures
            final(self).config == old(self).config,
            match old(self).mutable(name@) {
                Ok(entry) => final(self).entries() == old(self).entries().insert(
                    name@,
                    entry.after_stop(stopped),
                ) && r == Ok::<bool, PluginError>(stopped),
                Err(e) => final(self).entries() == old(self).entries() && r == Err::<
                    bool,
                    PluginError,
                >(e),
            },
    {
        match self.get_mut(name.as_str()) {
            Ok(Some(entry)) => {
                let next = Entry { active: entry.active && !stopped, ..entry };
                registry_insert(&mut self.plugins, name, next);
                Ok(stopped)
            },
            Ok(None) => Err(PluginError::NotFound),
            Err(e) => Err(e),
        }
    }

    /// The operation that loading the configuration of the plugin again calls
    /// for next, in whatever state the plugin is: its constructor where it is
    /// not yet constructed, else its `load_config`. Only a plugin that is not
    /// registered, or is immutable, is refused. How the operation ended goes
    /// to `config_loaded`.
    pub fn load_config(&self, name: &str) -> (r: Result<Call, PluginError>)
        ensures
            r == (match self.mutable(name@) {
                Ok(entry) => Ok::<Call, PluginError>(entry.config_call()),
                Err(e) => Err(e),
            }),
    {
        match self.get_mut(name) {
            Ok(Some(entry)) => {
                if entry.constructed {
                    Ok(Call::LoadConfig)
                } else {
                    Ok(Call::Construct)
                }
            },
            Ok(None) => Err(PluginError::NotFound),
            Err(e) => Err(e),
        }
    }

    /// Records how an operation of loading the configuration ended. The
    /// plugin stays in the state in which it was; a failure is handed back
    /// as the error, and the plugin keeps the configuration it had.
    pub fn config_loaded(&mut self, name: String, call: Call, ok: bool) -> (r: Result<(), PluginError>)
        ensures
            final(self).config == old(self).config,
            match old(self).mutable(name@) {
                Ok(entry) => {
                    &&& final(self).entries() == old(self).entries().insert(
                        name@,
                        entry.after_config_call(call, ok),
                    )
                    &&& r == if ok {
                        Ok::<(), PluginError>(())
                    } else {
                        Err(PluginError::Failed)
                    }
                },
                Err(e) => final(self).entries() == old(self).entries() && r == Err::<(), PluginError>(
                    e,
                ),
            },
    {
        match self.get_mut(name.as_str()) {
            Ok(Some(entry)) => {
                let next = match call {
                    Call::Construct => Entry { constructed: entry.constructed || ok, ..entry },
                    _ => entry,
                };
                registry_insert(&mut self.plugins, name, next);
                if ok {
                    Ok(())
                } else {
                    Err(PluginError::Failed)
                }
            },
            Ok(None) => Err(PluginError::NotFound),
            Err(e) => Err(e),
        }
    }

    /// Whether the plugin can be asked for its configuration: it must be
    /// registered and constructed.
    pub fn get_config(&self, name: &str) -> (r: Result<(), PluginError>)
        ensures
            r == (match self.known(name@) {
                Ok(entry) => if entry.constructed {
                    Ok::<(), PluginError>(())
                } else {
                    Err(PluginError::NotInitialized)
                },
                Err(e) => Err(e),
            }),
    {
        match registry_get(&self.plugins, name) {
            Some(entry) => {
                if entry.constructed {
                    Ok(())
                } else {
                    Err(PluginError::NotInitialized)
                }
            },
            None => Err(PluginError::NotFound),
        }
    }

    /// Whether a message can be passed to the plugin: it must be registered
    /// and constructed.
    pub fn send(&self, name: &str) -> (r: Result<(), PluginError>)
        ensures
            r == (match self.known(name@) {
                Ok(entry) => if entry.constructed {
                    Ok::<(), PluginError>(())
                } else {
                    Err(PluginError::NotInitialized)
                },
                Err(e) => Err(e),
            }),
    {
        self.get_config(name)
    }
}

/// A start of a registered plugin whose operations all succeed constructs it
/// where needed, initialises it, starts it, and leaves it running.
pub proof fn law_start_from_registered(entry: Entry)
    requires
        entry.state_of() is Registered,
    ensures
        ({
            let built = if entry.constructed {
                entry
            } else {
                entry.after_start_call(Call::Construct, true, PluginState::Registered)
            };
            let inited = built.after_start_call(Call::Init, true, PluginState::Registered);
            let active = inited.after_start_call(Call::Start, true, PluginState::Registered);
            &&& !entry.constructed ==> entry.start_call() == Some(Call::Construct)
            &&& built.start_call() == Some(Call::Init)
            &&& inited.start_call() == Some(Call::Start)
            &&& active.start_call() is None
            &&& active.state_of() is Active
        }),
{
}

/// A start that fails on the way from registered leaves the plugin
/// registered, whichever operation it was that failed.
pub proof fn law_failed_start_reverts(entry: Entry, call: Call)
    ensures
        entry.after_start_call(call, false, PluginState::Registered).state_of() is Registered,
{
}

/// A start of an initialised plugin calls for `start` only, and a stop that
/// the plugin confirms takes a running plugin to initialised.
pub proof fn law_stop_and_restart(entry: Entry)
    requires
        entry.state_of() is Active,
        entry.inited,
        entry.constructed,
    ensures
        entry.after_stop(true).state_of() is Inited,
        entry.after_stop(false).state_of() is Active,
        entry.after_stop(true).start_call() == Some(Call::Start),
        entry.after_stop(true).after_start_call(Call::Start, true, PluginState::Inited).state_of()
            is Active,
{
}

/// Loading the configuration again leaves a plugin in the state in which it
/// was, whichever operation it took and however that ended; and once the
/// plugin is constructed, the next operation is its `load_config`.
pub proof fn law_load_config_keeps_state(entry: Entry, call: Call, ok: bool)
    ensures
        entry.after_config_call(call, ok).state_of() == entry.state_of(),
        entry.after_config_call(call, ok).inited == entry.inited,
        entry.after_config_call(call, ok).active == entry.active,
        entry.after_config_call(call, ok).immutable == entry.immutable,
        entry.after_config_call(Call::Construct, true).config_call() == Call::LoadConfig,
{
}

/// What a plugin says of itself. Every plugin gives its name. The rest has a
/// default, which a plugin keeps unless it declares a value of its own; what
/// it declares is told by the `declared_` function of the value.
pub trait PackageInfo {
    /// The version that the plugin declares in place of the default.
    open spec fn declared_version(&self) -> Option<Seq<char>> {
        None
    }

    /// The description that the plugin declares.
    open spec fn declared_descr(&self) -> Option<Seq<char>> {
        None
    }

    /// The authors that the plugin declares.
    open spec fn declared_authors(&self) -> Option<Seq<Seq<char>>> {
        None
    }

    /// The home page that the plugin declares.
    open spec fn declared_homepage(&self) -> Option<Seq<char>> {
        None
    }

    /// The license that the plugin declares.
    open spec fn declared_license(&self) -> Option<Seq<char>> {
        None
    }

    /// The repository that the plugin declares.
    open spec fn declared_repository(&self) -> Option<Seq<char>> {
        None
    }

    fn name(&self) -> &str;

    /// The version of the plugin: `0.0.0` unless it declares another.
    fn version(&self) -> (r: &str)
        ensures
            self.declared_version() is None ==> r@ == "0.0.0"@,
    {
        "0.0.0"
    }

    /// A description of the plugin: none unless it declares one.
    fn descr(&self) -> (r: Option<&str>)
        ensures
            self.declared_descr() is None ==> r is None,
    {
        None
    }

    /// The authors of the plugin: none unless it declares them.
    fn authors(&self) -> (r: Option<Vec<&str>>)
        ensures
            self.declared_authors() is None ==> r is None,
    {
        None
    }

    /// The home page of the plugin: none unless it declares one.
    fn homepage(&self) -> (r: Option<&str>)
        ensures
            self.declared_homepage() is None ==> r is None,
    {
        None
    }

    /// The license of the plugin: none unless it declares one.
    fn license(&self) -> (r: Option<&str>)
        ensures
            self.declared_license() is None ==> r is None,
    {
        None
    }

    /// The repository of the plugin: none unless it declares one.
    fn repository(&self) -> (r: Option<&str>)
        ensures
            self.declared_repository() is None ==> r is None,
    {
        None
    }
}

/// What the manager tells of a plugin.
#[derive(Debug, Clone, PartialEq, Eq)]
pub struct PluginInfo {
    pub name: String,
    pub version: Option<String>,
    pub descr: Option<String>,
    pub authors: Option<Vec<String>>,
    pub homepage: Option<String>,
    pub license: Option<String>,
    pub repository: Option<String>,
    pub inited: bool,
    pub active: bool,
    pub immutable: bool,
    /// The attributes of the plugin as JSON text; empty where it has none.
    pub attrs: Vec<u8>,
}

fn owned_text(text: Option<&str>) -> (r: Option<String>)
    ensures
        match text {
            Some(t) => r matches Some(s) && s@ == t@,
            None => r is None,
        },
{
    match text {
        Some(t) => Some(String::from_str(t)),
        None => None,
    }
}

/// What a plugin says of itself, as plain values.
#[derive(Debug, Clone, PartialEq, Eq)]
pub struct Package {
    pub name: String,
    pub version: String,
    pub descr: Option<String>,
    pub authors: Option<Vec<String>>,
    pub homepage: Option<String>,
    pub license: Option<String>,
    pub repository: Option<String>,
}

/// Asks a plugin what it says of itself. What the plugin does not declare
/// is described by its default: the version `0.0.0`, and nothing for the rest.
pub fn describe(plugin: &dyn PackageInfo) -> (package: Package)
    ensures
        plugin.declared_version() is None ==> package.version@ == "0.0.0"@,
        plugin.declared_descr() is None ==> package.descr is None,
        plugin.declared_authors() is None ==> package.authors is None,
        plugin.declared_homepage() is None ==> package.homepage is None,
        plugin.declared_license() is None ==> package.license is None,
        plugin.declared_repository() is None ==> package.repository is None,
{
    let authors = match plugin.authors() {
        Some(list) => {
            let mut owned: Vec<String> = Vec::new();
            let mut i: usize = 0;
            while i < list.len()
                invariant
                    i <= list.len(),
                decreases list.len() - i,
            {
                owned.push(String::from_str(list[i]));
                i = i + 1;
            }
            Some(owned)
        },
        None => None,
    };
    Package {
        name: String::from_str(plugin.name()),
        version: String::from_str(plugin.version()),
        descr: owned_text(plugin.descr()),
        authors,
        homepage: owned_text(plugin.homepage()),
        license: owned_text(plugin.license()),
        repository: owned_text(plugin.repository()),
    }
}

/// Whether what is told of a plugin holds the default for everything that the
/// plugin does not declare for itself: the version `0.0.0`, and nothing for
/// the rest.
pub open spec fn keeps_defaults(plugin: &dyn PackageInfo, info: PluginInfo) -> bool {
    &&& plugin.declared_version() is None ==> info.version is Some && info.version->0@ == "0.0.0"@
    &&& plugin.declared_descr() is None ==> info.descr is None
    &&& plugin.declared_authors() is None ==> info.authors is None
    &&& plugin.declared_homepage() is None ==> info.homepage is None
    &&& plugin.declared_license() is None ==> info.license is None
    &&& plugin.declared_repository() is None ==> info.repository is None
}

impl Entry {
    /// What the manager tells of a plugin with this entry. A plugin that has
    /// been constructed is told in its own words, with `attrs` as its
    /// attributes; of any other only its flags are told, under the name
    /// `name` and without attributes.
    pub open spec fn info_of(&self, name: String, package: Option<Package>, attrs: Vec<u8>, info: PluginInfo)
        -> bool {
        &&& info.inited == self.inited
        &&& info.active == self.active
        &&& info.immutable == self.immutable
        &&& match package {
            Some(package) => {
                &&& info.name == package.name
                &&& info.version == Some(package.version)
                &&& info.descr == package.descr
                &&& info.authors == package.authors
                &&& info.homepage == package.homepage
                &&& info.license == package.license
                &&& info.repository == package.repository
                &&& info.attrs == attrs
            },
            None => {
                &&& info.name == name
                &&& info.version is None
                &&& info.descr is None
                &&& info.authors is None
                &&& info.homepage is None
                &&& info.license is None
                &&& info.repository is None
                &&& info.attrs@.len() == 0
            },
        }
    }

    /// What the manager tells of a plugin with this entry, from what the
    /// plugin said of itself.
    pub fn info(&self, name: String, package: Option<Package>, attrs: Vec<u8>) -> (info: PluginInfo)
        ensures
            self.info_of(name, package, attrs, info),
    {
        match package {
            Some(package) => PluginInfo {
                name: package.name,
                version: Some(package.version),
                descr: package.descr,
                authors: package.authors,
                homepage: package.homepage,
                license: package.license,
                repository: package.repository,
                inited: self.inited,
                active: self.active,
                immutable: self.immutable,
                attrs,
            },
            None => PluginInfo {
                name,
                version: None,
                descr: None,
                authors: None,
                homepage: None,
                license: None,
                repository: None,
                inited: self.inited,
                active: self.active,
                immutable: self.immutable,
                attrs: Vec::new(),
            },
        }
    }

    /// What the manager tells of this plugin. A plugin that has been
    /// constructed is asked what it says of itself, as `describe` does, and
    /// what it says is told as `info` tells it.
    pub fn to_info(&self, name: &str, plugin: Option<&dyn PackageInfo>, attrs: Vec<u8>) -> (info:
        PluginInfo)
        ensures
            info.inited == self.inited,
            info.active == self.active,
            info.immutable == self.immutable,
            match plugin {
                Some(p) => {
                    &&& info.attrs == attrs
                    &&& info.version is Some
                    &&& keeps_defaults(p, info)
                },
                None => {
                    &&& info.name@ == name@
                    &&& info.version is None
                    &&& info.descr is None
                    &&& info.authors is None
                    &&& info.homepage is None
                    &&& info.license is None
                    &&& info.repository is None
                    &&& info.attrs@.len() == 0
                },
            },
    {
        match plugin {
            Some(given) => self.info(String::from_str(name), Some(describe(given)), attrs),
            None => self.info(String::from_str(name), None, attrs),
        }
    }
}

/// Whether a JSON value is this text.
pub open spec fn is_text(json: Json, text: Seq<char>) -> bool {
    json matches Json::Str(s) && s@ == text
}

/// Whether a JSON value is this text, or null where there is none.
pub open spec fn is_opt_text(json: Json, text: Option<String>) -> bool {
    match text {
        Some(t) => is_text(json, t@),
        None => json is Null,
    }
}

/// Whether a JSON value is the array of these texts, or null where there is none.
pub open spec fn is_opt_texts(json: Json, texts: Option<Vec<String>>) -> bool {
    match texts {
        Some(list) => json matches Json::Array(items) && items@.len() == list@.len() && forall|i: int|
            0 <= i < list@.len() ==> is_text(#[trigger] items@[i], list@[i]@),
        None => json is Null,
    }
}

/// Whether `json` is what `to_json` makes of `info`, with `attrs` as the
/// attributes: an object of eleven members, in this order.
pub open spec fn info_described(json: Json, info: PluginInfo, attrs: Json) -> bool {
    &&& json matches Json::Object(members)
    &&& members@.len() == 11
    &&& members@[0].0@ == "name"@ && is_text(members@[0].1, info.name@)
    &&& members@[1].0@ == "version"@ && is_opt_text(members@[1].1, info.version)
    &&& members@[2].0@ == "descr"@ && is_opt_text(members@[2].1, info.descr)
    &&& members@[3].0@ == "authors"@ && is_opt_texts(members@[3].1, info.authors)
    &&& members@[4].0@ == "homepage"@ && is_opt_text(members@[4].1, info.homepage)
    &&& members@[5].0@ == "license"@ && is_opt_text(members@[5].1, info.license)
    &&& members@[6].0@ == "repository"@ && is_opt_text(members@[6].1, info.repository)
    &&& members@[7].0@ == "inited"@ && members@[7].1 == Json::Bool(info.inited)
    &&& members@[8].0@ == "active"@ && members@[8].1 == Json::Bool(info.active)
    &&& members@[9].0@ == "immutable"@ && members@[9].1 == Json::Bool(info.immutable)
    &&& members@[10].0@ == "attrs"@ && members@[10].1 == attrs
}

fn text_json(text: &String) -> (json: Json)
    ensures
        is_text(json, text@),
{
    Json::Str(text.clone())
}

fn opt_text_json(text: &Option<String>) -> (json: Json)
    ensures
        is_opt_text(json, *text),
{
    match text {
        Some(t) => Json::Str(t.clone()),
        None => Json::Null,
    }
}

fn opt_texts_json(texts: &Option<Vec<String>>) -> (json: Json)
    ensures
        is_opt_texts(json, *texts),
{
    match texts {
        Some(list) => {
            let mut items: Vec<Json> = Vec::new();
            let mut i: usize = 0;
            while i < list.len()
                invariant
                    i <= list.len(),
                    items@.len() == i,
                    forall|k: int| 0 <= k < i ==> is_text(#[trigger] items@[k], list@[k]@),
                decreases list.len() - i,
            {
                items.push(Json::Str(list[i].clone()));
                i = i + 1;
            }
            Json::Array(items)
        },
        None => Json::Null,
    }
}

impl PluginInfo {
    /// This information as a JSON object. The attributes are read as JSON;
    /// empty attributes are null. Attributes that are not JSON are an error.
    pub fn to_json(&self) -> (r: Result<Json, PluginError>)
        ensures
            match r {
                Ok(json) => if self.attrs@.len() == 0 {
                    info_described(json, *self, Json::Null)
                } else {
                    json_document(self.attrs@) matches Some(attrs) && info_described(
                        json,
                        *self,
                        attrs,
                    )
                },
                Err(e) => e == PluginError::Attrs && self.attrs@.len() != 0 && json_document(
                    self.attrs@,
                ) is None,
            },
    {
        let attrs = if self.attrs.len() == 0 {
            Json::Null
        } else {
            match Json::parse(self.attrs.as_slice()) {
                Some(attrs) => attrs,
                None => {
                    return Err(PluginError::Attrs);
                },
            }
        };
        let mut members: Vec<(String, Json)> = Vec::new();
        members.push((String::from_str("name"), text_json(&self.name)));
        members.push((String::from_str("version"), opt_text_json(&self.version)));
        members.push((String::from_str("descr"), opt_text_json(&self.descr)));
        members.push((String::from_str("authors"), opt_texts_json(&self.authors)));
        members.push((String::from_str("homepage"), opt_text_json(&self.homepage)));
        members.push((String::from_str("license"), opt_text_json(&self.license)));
        members.push((String::from_str("repository"), opt_text_json(&self.repository)));
        members.push((String::from_str("inited"), Json::Bool(self.inited)));
        members.push((String::from_str("active"), Json::Bool(self.active)));
        members.push((String::from_str("immutable"), Json::Bool(self.immutable)));
        members.push((String::from_str("attrs"), attrs));
        Ok(Json::Object(members))
    }
}

/// Where the configuration file of a plugin comes from.
#[derive(Debug, Clone, PartialEq, Eq)]
pub enum ConfigFile {
    /// The file at this path, without its extension.
    File(String),
    /// This TOML text.
    Text(String),
}

/// How the configuration of a plugin is put together: a file, overlaid with
/// the environment variables that begin with a prefix.
#[derive(Debug, Clone, PartialEq, Eq)]
pub struct ConfigPlan {
    pub file: ConfigFile,
    /// Whether a missing file is an error.
    pub required: bool,
    /// The prefix of the environment variables that override the file.
    pub env_prefix: String,
    /// The keys whose value in the environment is a list separated by blanks.
    pub list_keys: Vec<String>,
    /// Whether values from the environment are parsed: they are where list
    /// keys are given.
    pub try_parsing: bool,
}

/// What separates the items of a list in a variable of the environment.
pub const LIST_SEPARATOR: &'static str = " ";

/// A path without the slashes and backslashes at its end.
pub open spec fn trimmed(path: Seq<char>) -> Seq<char>
    decreases path.len(),
{
    if path.len() > 0 && (path.last() == '/' || path.last() == '\\') {
        trimmed(path.drop_last())
    } else {
        path
    }
}

/// A plugin name with every hyphen turned into an underscore.
pub open spec fn normalized(name: Seq<char>) -> Seq<char> {
    name.map_values(|c: char| if c == '-' { '_' } else { c })
}

/// The text stored under `name` among the inline configurations: that of the
/// first pair of the name, empty where there is none.
pub open spec fn inline_text(pairs: Seq<(String, String)>, name: Seq<char>) -> Seq<char>
    decreases pairs.len(),
{
    if pairs.len() == 0 {
        Seq::empty()
    } else if pairs[0].0@ == name {
        pairs[0].1@
    } else {
        inline_text(pairs.drop_first(), name)
    }
}

/// Where no plugin is named twice among the inline configurations, the text
/// of a plugin is that of the one pair that names it.
pub proof fn law_inline_text_is_the_entry(pairs: Seq<(String, String)>, at: int)
    requires
        0 <= at < pairs.len(),
        forall|i: int, j: int| 0 <= i < j < pairs.len() ==> pairs[i].0@ != pairs[j].0@,
    ensures
        inline_text(pairs, pairs[at].0@) == pairs[at].1@,
    decreases pairs.len(),
{
    if at > 0 {
        assert(pairs[0].0@ != pairs[at].0@);
        assert(pairs.drop_first()[at - 1] == pairs[at]);
        assert forall|i: int, j: int| 0 <= i < j < pairs.drop_first().len() implies pairs.drop_first()[i].0@
            != pairs.drop_first()[j].0@ by {
            assert(pairs.drop_first()[i] == pairs[i + 1]);
            assert(pairs.drop_first()[j] == pairs[j + 1]);
        }
        law_inline_text_is_the_entry(pairs.drop_first(), at - 1);
    }
}

impl Manager {
    /// Whether `plan` is how the configuration of the plugin `name` is put
    /// together: from `<directory>/<name>`, the directory without slashes at
    /// its end, or from the inline text under the name; overlaid with the
    /// environment variables that begin with `rmqtt_plugin_` and the name with
    /// underscores for hyphens.
    pub open spec fn plan_described(
        &self,
        plan: ConfigPlan,
        name: Seq<char>,
        required: bool,
        env_list_keys: Seq<String>,
    ) -> bool {
        &&& match self.config {
            PluginManagerConfig::Path(dir) => plan.file matches ConfigFile::File(path) && path@
                == trimmed(dir@).push('/') + name,
            PluginManagerConfig::Inline(pairs) => plan.file matches ConfigFile::Text(text) && text@
                == inline_text(pairs@, name),
        }
        &&& plan.required == required
        &&& plan.env_prefix@ == "rmqtt_plugin_"@ + normalized(name)
        &&& plan.list_keys@ == env_list_keys
        &&& plan.try_parsing == (env_list_keys.len() > 0)
    }

    /// How the configuration of the plugin `name` is put together.
    pub fn config_plan(&self, name: &str, required: bool, env_list_keys: &Vec<String>) -> (plan:
        ConfigPlan)
        ensures
            self.plan_described(plan, name@, required, env_list_keys@),
    {
        let name_chars = to_chars(name);
        let file = match &self.config {
            PluginManagerConfig::Path(dir) => {
                let mut path = to_chars(dir.as_str());
                let ghost whole = path@;
                while path.len() > 0 && (path[path.len() - 1] == '/' || path[path.len() - 1] == '\\')
                    invariant
                        trimmed(path@) == trimmed(whole),
                    decreases path.len(),
                {
                    path.pop();
                }
                path.push('/');
                let ghost head = path@;
                let mut i: usize = 0;
                while i < name_chars.len()
                    invariant
                        i <= name_chars.len(),
                        path@ == head + name_chars@.take(i as int),
                    decreases name_chars.len() - i,
                {
                    path.push(name_chars[i]);
                    assert(name_chars@.take(i + 1) =~= name_chars@.take(i as int).push(
                        name_chars@[i as int],
                    ));
                    i = i + 1;
                }
                assert(name_chars@.take(name_chars.len() as int) =~= name_chars@);
                ConfigFile::File(from_chars(&path))
            },
            PluginManagerConfig::Inline(pairs) => {
                let mut found: Option<usize> = None;
                let mut i: usize = 0;
                assert(pairs@.skip(0) =~= pairs@);
                while i < pairs.len() && found.is_none()
                    invariant
                        i <= pairs.len(),
                        match found {
                            Some(k) => k < pairs.len() && inline_text(pairs@, name@) == pairs@[k as int].1@,
                            None => inline_text(pairs@, name@) == inline_text(
                                pairs@.skip(i as int),
                                name@,
                            ),
                        },
                    decreases pairs.len() - i,
                {
                    assert(pairs@.skip(i as int)[0] == pairs@[i as int]);
                    assert(pairs@.skip(i as int).drop_first() =~= pairs@.skip(i + 1));
                    if crate::text::str_eq(pairs[i].0.as_str(), name) {
                        found = Some(i);
                    }
                    i = i + 1;
                }
                match found {
                    Some(k) => ConfigFile::Text(pairs[k].1.clone()),
                    None => ConfigFile::Text(String::new()),
                }
            },
        };
        let mut prefix = to_chars("rmqtt_plugin_");
        let ghost head = prefix@;
        let mut i: usize = 0;
        while i < name_chars.len()
            invariant
                i <= name_chars.len(),
                name_chars@ == name@,
                prefix@ == head + normalized(name@).take(i as int),
            decreases name_chars.len() - i,
        {
            let c = name_chars[i];
            prefix.push(if c == '-' { '_' } else { c });
            assert(normalized(name@).take(i + 1) =~= normalized(name@).take(i as int).push(
                normalized(name@)[i as int],
            ));
            i = i + 1;
        }
        assert(normalized(name@).take(name_chars.len() as int) =~= normalized(name@));
        let mut list_keys: Vec<String> = Vec::new();
        let mut k: usize = 0;
        while k < env_list_keys.len()
            invariant
                k <= env_list_keys.len(),
                list_keys@ == env_list_keys@.take(k as int),
            decreases env_list_keys.len() - k,
        {
            list_keys.push(env_list_keys[k].clone());
            assert(env_list_keys@.take(k + 1) =~= env_list_keys@.take(k as int).push(
                env_list_keys@[k as int],
            ));
            k = k + 1;
        }
        assert(env_list_keys@.take(env_list_keys.len() as int) =~= env_list_keys@);
        ConfigPlan {
            file,
            required,
            env_prefix: from_chars(&prefix),
            list_keys,
            try_parsing: env_list_keys.len() > 0,
        }
    }

    /// How the configuration of a plugin that must have one is put together.
    pub fn read_config(&self, name: &str) -> (plan: ConfigPlan)
        ensures
            self.plan_described(plan, name@, true, Seq::<String>::empty()),
    {
        let keys: Vec<String> = Vec::new();
        self.config_plan(name, true, &keys)
    }

    /// How the configuration of a plugin is put together where the defaults
    /// stand in for a configuration that does not exist.
    pub fn read_config_default(&self, name: &str) -> (plan: ConfigPlan)
        ensures
            self.plan_described(plan, name@, false, Seq::<String>::empty()),
    {
        let keys: Vec<String> = Vec::new();
        self.config_plan(name, false, &keys)
    }

    /// How the configuration of a plugin that must have one is put together,
    /// the values of `env_list_keys` in the environment being lists.
    pub fn read_config_with(&self, name: &str, env_list_keys: &Vec<String>) -> (plan: ConfigPlan)
        ensures
            self.plan_described(plan, name@, true, env_list_keys@),
    {
        self.config_plan(name, true, env_list_keys)
    }

    /// How the configuration of a plugin is put together where the defaults
    /// stand in for a configuration that does not exist, the values of
    /// `env_list_keys` in the environment being lists.
    pub fn read_config_default_with(&self, name: &str, env_list_keys: &Vec<String>) -> (plan:
        ConfigPlan)
        ensures
            self.plan_described(plan, name@, false, env_list_keys@),
    {
        self.config_plan(name, false, env_list_keys)
    }
}

} // verus!
