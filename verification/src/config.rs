//! The config store: the layered pin/alias configuration. Each scope
//! (global or local) is a whole document mapping tool ids to a pinned
//! version specification and per-tool alias overrides. Reads fall
//! through from the local scope to the global one; a write targets
//! exactly one scope and never touches the other. The document is
//! mutated in memory as a whole; persisting it is the caller's single
//! atomic read-modify-write.

use vstd::prelude::*;

use crate::aliases::{entries_map, lemma_entries_map_absent, lemma_entries_map_get, AliasMap};
use crate::resolver::{opt_versions_view, resolve_model, ResolveError};
use crate::version::Version;
use crate::version_spec::{str_eq, SpecShape, UnresolvedVersionSpec};

verus! {

/// Which configuration document an operation targets.
#[derive(Clone, Copy, PartialEq, Eq, Structural, Debug)]
pub enum ConfigScope {
    Global,
    Local,
}

/// The key/value views of the per-tool alias override table.
pub open spec fn tools_view(s: Seq<(String, AliasMap)>) -> Seq<(Seq<char>, Map<
    Seq<char>,
    SpecShape,
>)> {
    s.map_values(|e: (String, AliasMap)| (e.0@, e.1@))
}

/// One scope's configuration document.
pub struct ProtoConfig {
    /// The pinned default version specification of each tool.
    pub versions: AliasMap,
    /// The alias overrides of each tool.
    pub tools: Vec<(String, AliasMap)>,
}

impl ProtoConfig {
    /// The pins this document holds.
    pub open spec fn pins(self) -> Map<Seq<char>, SpecShape> {
        self.versions@
    }

    /// The alias overrides this document holds, per tool.
    pub open spec fn overrides(self) -> Map<Seq<char>, Map<Seq<char>, SpecShape>> {
        entries_map(tools_view(self.tools@))
    }

    /// An empty document.
    pub fn new() -> (r: ProtoConfig)
        ensures
            r.pins() == Map::<Seq<char>, SpecShape>::empty(),
            r.overrides() == Map::<Seq<char>, Map<Seq<char>, SpecShape>>::empty(),
    {
        ProtoConfig { versions: AliasMap::new(), tools: Vec::new() }
    }

    /// Pins a tool to a version specification in this document.
    pub fn set_pin(&mut self, id: String, spec: UnresolvedVersionSpec)
        ensures
            final(self).pins() == old(self).pins().insert(id@, spec@),
            final(self).overrides() == old(self).overrides(),
    {
        self.versions.set(id, spec);
    }

    /// The pin recorded for a tool in this document.
    pub fn get_pin(&self, id: &str) -> (r: Option<&UnresolvedVersionSpec>)
        ensures
            match r {
                Some(s) => self.pins().contains_key(id@) && s@ == self.pins()[id@],
                None => !self.pins().contains_key(id@),
            },
    {
        self.versions.get(id)
    }

    /// Replaces a tool's alias overrides in this document.
    pub fn set_tool_aliases(&mut self, id: String, aliases: AliasMap)
        ensures
            final(self).overrides() == old(self).overrides().insert(id@, aliases@),
            final(self).pins() == old(self).pins(),
    {
        let ghost before = self.tools@;
        self.tools.push((id, aliases));
        proof {
            assert(tools_view(self.tools@).drop_last() =~= tools_view(before));
        }
    }

    /// The alias overrides recorded for a tool in this document.
    pub fn tool_aliases(&self, id: &str) -> (r: Option<&AliasMap>)
        ensures
            match r {
                Some(a) => self.overrides().contains_key(id@) && a@ == self.overrides()[id@],
                None => !self.overrides().contains_key(id@),
            },
    {
        let mut i = self.tools.len();
        while i > 0
            invariant
                0 <= i <= self.tools@.len(),
                forall|j: int| i <= j < self.tools@.len() ==> (#[trigger] self.tools@[j]).0@
                    != id@,
            decreases i,
        {
            i = i - 1;
            if str_eq(self.tools[i].0.as_str(), id) {
                proof {
                    assert(tools_view(self.tools@)[i as int].0 == id@);
                    assert(forall|j: int|
                        i < j < self.tools@.len() ==> (#[trigger] tools_view(self.tools@)[j]).0
                            != id@);
                    lemma_entries_map_get(tools_view(self.tools@), i as int);
                }
                return Some(&self.tools[i].1);
            }
        }
        proof {
            assert(forall|j: int|
                0 <= j < self.tools@.len() ==> (#[trigger] tools_view(self.tools@)[j]).0 != id@);
            lemma_entries_map_absent(tools_view(self.tools@), id@);
        }
        None
    }
}

/// The two layered configuration documents.
pub struct ConfigSet {
    pub global: ProtoConfig,
    pub local: ProtoConfig,
}

/// Did pinning `id` to `s` at the chosen scope take `before` to
/// `after`? The targeted document gains exactly that pin; the other
/// document is untouched.
pub open spec fn pin_applied(
    before: ConfigSet,
    after: ConfigSet,
    id: Seq<char>,
    s: SpecShape,
    global: bool,
) -> bool {
    if global {
        after.global.pins() == before.global.pins().insert(id, s) && after.global.overrides()
            == before.global.overrides() && after.local == before.local
    } else {
        after.local.pins() == before.local.pins().insert(id, s) && after.local.overrides()
            == before.local.overrides() && after.global == before.global
    }
}

/// The pin a tool resolves to across scopes: the local document wins;
/// a tool absent there falls through to the global document.
pub open spec fn pinned_spec_of(cs: ConfigSet, id: Seq<char>) -> Option<SpecShape> {
    if cs.local.pins().contains_key(id) {
        Some(cs.local.pins()[id])
    } else if cs.global.pins().contains_key(id) {
        Some(cs.global.pins()[id])
    } else {
        None
    }
}

impl ConfigSet {
    /// Two empty documents.
    pub fn new() -> (r: ConfigSet)
        ensures
            r.global.pins() == Map::<Seq<char>, SpecShape>::empty(),
            r.local.pins() == Map::<Seq<char>, SpecShape>::empty(),
            forall|id: Seq<char>| pinned_spec_of(r, id) is None,
    {
        ConfigSet { global: ProtoConfig::new(), local: ProtoConfig::new() }
    }

    /// Reads a tool's pin, local scope first, then global.
    pub fn get_pinned_spec(&self, id: &str) -> (r: Option<&UnresolvedVersionSpec>)
        ensures
            match r {
                Some(s) => pinned_spec_of(*self, id@) == Some(s@),
                None => pinned_spec_of(*self, id@) is None,
            },
    {
        match self.local.get_pin(id) {
            Some(s) => Some(s),
            None => self.global.get_pin(id),
        }
    }
}

/// Pinning at the local scope never alters the global document, and
/// leaves every other tool's local pin as it was.
pub proof fn lemma_local_pin_isolation(
    before: ConfigSet,
    after: ConfigSet,
    id: Seq<char>,
    s: SpecShape,
)
    requires
        pin_applied(before, after, id, s, false),
    ensures
        after.global == before.global,
        forall|other: Seq<char>|
            other != id ==> pinned_spec_of(after, other) == pinned_spec_of(before, other),
        pinned_spec_of(after, id) == Some(s),
{
}

/// A tool with no local pin but a global one reads its global pin.
pub proof fn lemma_pin_fallthrough(cs: ConfigSet, id: Seq<char>)
    requires
        !cs.local.pins().contains_key(id),
        cs.global.pins().contains_key(id),
    ensures
        pinned_spec_of(cs, id) == Some(cs.global.pins()[id]),
{
}

/// Writes a pin into the chosen scope's document. Pinning at one
/// scope never alters the other scope's document. Linking the pinned
/// version's executables is a side effect the driver performs only
/// when its caller asked for it explicitly; nothing here implies it.
pub fn internal_pin(
    config: &mut ConfigSet,
    id: &String,
    spec: &UnresolvedVersionSpec,
    global: bool,
)
    ensures
        pin_applied(*old(config), *final(config), id@, spec@, global),
{
    if global {
        config.global.set_pin(id.clone(), spec.duplicate());
    } else {
        config.local.set_pin(id.clone(), spec.duplicate());
    }
}

/// Pins a tool. With `resolve` off, the requested specification is
/// persisted as given; with it on, the request is first resolved
/// against the tool's aliases, installed versions and optional remote
/// list, and the exact resolved version is persisted instead. A
/// resolution failure leaves both documents untouched. Returns the
/// specification that was pinned.
pub fn pin(
    config: &mut ConfigSet,
    id: &String,
    requested: &UnresolvedVersionSpec,
    global: bool,
    resolve: bool,
    aliases: &AliasMap,
    installed: &Vec<Version>,
    remote: Option<&Vec<Version>>,
) -> (r: Result<UnresolvedVersionSpec, ResolveError>)
    ensures
        !resolve ==> (r matches Ok(s) && s@ == requested@ && pin_applied(
            *old(config),
            *final(config),
            id@,
            requested@,
            global,
        )),
        resolve ==> match resolve_model(
            aliases.bindings(),
            installed@,
            opt_versions_view(remote),
            requested@,
        ) {
            Ok(v) => (r matches Ok(s) && s@ == SpecShape::Semantic(v) && pin_applied(
                *old(config),
                *final(config),
                id@,
                SpecShape::Semantic(v),
                global,
            )),
            Err(e) => r == Err::<UnresolvedVersionSpec, ResolveError>(e) && *final(config)
                == *old(config),
        },
{
    let chosen = if resolve {
        match crate::resolver::resolve(requested, aliases, installed, remote) {
            Ok(v) => v.to_unresolved_spec(),
            Err(e) => {
                return Err(e);
            },
        }
    } else {
        requested.duplicate()
    };
    internal_pin(config, id, &chosen, global);
    Ok(chosen)
}

} // verus!
