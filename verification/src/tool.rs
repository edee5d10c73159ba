//! The tool aggregate: one managed piece of software, owning its
//! loaded plugin instance, its manifest, and its path mapping table,
//! and orchestrating resolution over them. A tool is built per
//! command invocation and shares nothing with other tools but the
//! persisted documents it reads and writes.

use vstd::prelude::*;

use crate::aliases::AliasMap;
use crate::invoke::PluginContainer;
use crate::manifest::ToolManifest;
use crate::paths::PathTable;
use crate::resolver::{opt_versions_view, resolve_model, ResolveError};
use crate::version::Version;
use crate::version_spec::UnresolvedVersionSpec;

verus! {

/// One managed tool.
pub struct Tool {
    /// The unique, user-facing slug.
    pub id: String,
    /// Where the plugin came from; absent for built-ins.
    pub locator: Option<String>,
    /// The display name the plugin registered.
    pub name: String,
    /// The loaded plugin instance, owned by this tool alone.
    pub plugin: PluginContainer,
    /// The persisted record of installed versions.
    pub manifest: ToolManifest,
    /// The path mappings the plugin was loaded with.
    pub paths: PathTable,
}

impl Tool {
    /// A manifest kept in order is all a tool requires of itself.
    pub open spec fn wf(self) -> bool {
        self.manifest.wf()
    }

    /// The display name.
    pub fn get_name(&self) -> (r: &String)
        ensures
            r@ == self.name@,
    {
        &self.name
    }

    /// Resolves a request against this tool: the plugin's default
    /// aliases overlaid with the user's overrides, then the
    /// manifest's installed versions, then the optional
    /// plugin-reported remote list.
    pub fn resolve_version(
        &self,
        spec: &UnresolvedVersionSpec,
        defaults: &AliasMap,
        overrides: &AliasMap,
        remote: Option<&Vec<Version>>,
    ) -> (r: Result<Version, ResolveError>)
        ensures
            r == resolve_model(
                defaults.bindings() + overrides.bindings(),
                self.manifest.installed(),
                opt_versions_view(remote),
                spec@,
            ),
    {
        let aliases = defaults.merged(overrides);
        let installed = self.manifest.installed_versions();
        crate::resolver::resolve(spec, &aliases, &installed, remote)
    }
}

} // verus!
