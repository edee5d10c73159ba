//! The plugin invocation layer: the fixed function contract every
//! tool plugin implements, the per-call context preparation, and the
//! typing of call failures. The sandbox run itself is outside work a
//! driver performs; this layer decides what may be called, what
//! context it receives, and what each reported outcome means. None of
//! the failures is retried; each is typed so a caller can branch on
//! kind.

use vstd::prelude::*;

use crate::manifest::{ManifestError, ToolManifest};
use crate::paths::{PathError, PathTable, RealPath, VirtualPath};
use crate::version::Version;
use crate::version_spec::str_eq;

verus! {

/// The fixed, uniform contract: every plugin is driven through
/// exactly these named functions, whatever tool it implements.
#[derive(Clone, Copy, PartialEq, Eq, Structural, Debug)]
pub enum PluginFunction {
    RegisterTool,
    DetectVersionFiles,
    LoadVersions,
    ResolveVersion,
    LocateExecutables,
    NativeInstall,
    NativeUninstall,
    DownloadPrebuilt,
    UnpackArchive,
    VerifyChecksum,
    ParseVersionFile,
    SyncManifest,
    SyncShellProfile,
    PreInstall,
    PostInstall,
    PreRun,
}

impl PluginFunction {
    /// The exported name the plugin must provide.
    pub open spec fn spec_name(self) -> Seq<char> {
        match self {
            PluginFunction::RegisterTool => "register_tool"@,
            PluginFunction::DetectVersionFiles => "detect_version_files"@,
            PluginFunction::LoadVersions => "load_versions"@,
            PluginFunction::ResolveVersion => "resolve_version"@,
            PluginFunction::LocateExecutables => "locate_executables"@,
            PluginFunction::NativeInstall => "native_install"@,
            PluginFunction::NativeUninstall => "native_uninstall"@,
            PluginFunction::DownloadPrebuilt => "download_prebuilt"@,
            PluginFunction::UnpackArchive => "unpack_archive"@,
            PluginFunction::VerifyChecksum => "verify_checksum"@,
            PluginFunction::ParseVersionFile => "parse_version_file"@,
            PluginFunction::SyncManifest => "sync_manifest"@,
            PluginFunction::SyncShellProfile => "sync_shell_profile"@,
            PluginFunction::PreInstall => "pre_install"@,
            PluginFunction::PostInstall => "post_install"@,
            PluginFunction::PreRun => "pre_run"@,
        }
    }

    /// The exported name, as text.
    pub fn name(&self) -> (r: &'static str)
        ensures
            r@ == self.spec_name(),
    {
        match self {
            PluginFunction::RegisterTool => "register_tool",
            PluginFunction::DetectVersionFiles => "detect_version_files",
            PluginFunction::LoadVersions => "load_versions",
            PluginFunction::ResolveVersion => "resolve_version",
            PluginFunction::LocateExecutables => "locate_executables",
            PluginFunction::NativeInstall => "native_install",
            PluginFunction::NativeUninstall => "native_uninstall",
            PluginFunction::DownloadPrebuilt => "download_prebuilt",
            PluginFunction::UnpackArchive => "unpack_archive",
            PluginFunction::VerifyChecksum => "verify_checksum",
            PluginFunction::ParseVersionFile => "parse_version_file",
            PluginFunction::SyncManifest => "sync_manifest",
            PluginFunction::SyncShellProfile => "sync_shell_profile",
            PluginFunction::PreInstall => "pre_install",
            PluginFunction::PostInstall => "post_install",
            PluginFunction::PreRun => "pre_run",
        }
    }

    /// Does this call carry a `ToolContext` that must be prepared
    /// before it crosses into the sandbox?
    pub open spec fn spec_carries_context(self) -> bool {
        match self {
            PluginFunction::LocateExecutables => true,
            PluginFunction::NativeInstall => true,
            PluginFunction::NativeUninstall => true,
            PluginFunction::DownloadPrebuilt => true,
            PluginFunction::SyncManifest => true,
            PluginFunction::SyncShellProfile => true,
            PluginFunction::PreInstall => true,
            PluginFunction::PostInstall => true,
            PluginFunction::PreRun => true,
            _ => false,
        }
    }

    /// Decides `spec_carries_context`.
    pub fn carries_context(&self) -> (r: bool)
        ensures
            r == self.spec_carries_context(),
    {
        match self {
            PluginFunction::LocateExecutables => true,
            PluginFunction::NativeInstall => true,
            PluginFunction::NativeUninstall => true,
            PluginFunction::DownloadPrebuilt => true,
            PluginFunction::SyncManifest => true,
            PluginFunction::SyncShellProfile => true,
            PluginFunction::PreInstall => true,
            PluginFunction::PostInstall => true,
            PluginFunction::PreRun => true,
            _ => false,
        }
    }

    /// Does this call return a value? Hooks are side-effecting only.
    pub open spec fn spec_has_output(self) -> bool {
        match self {
            PluginFunction::PreInstall => false,
            PluginFunction::PostInstall => false,
            PluginFunction::UnpackArchive => false,
            _ => true,
        }
    }

    /// Decides `spec_has_output`.
    pub fn has_output(&self) -> (r: bool)
        ensures
            r == self.spec_has_output(),
    {
        match self {
            PluginFunction::PreInstall => false,
            PluginFunction::PostInstall => false,
            PluginFunction::UnpackArchive => false,
            _ => true,
        }
    }
}

/// The ephemeral per-call value threaded into every context-bearing
/// invocation: the sandbox-visible working directory of the tool, or
/// unset if the caller did not supply one.
pub struct ToolContext {
    pub tool_dir: Option<VirtualPath>,
}

/// Prepares a context for a call: a caller-supplied directory is kept
/// as it is; an unset one is replaced by the tool's own directory,
/// translated into the sandbox's path space, so the sandbox never
/// observes an unset directory.
pub fn prepare_context(context: ToolContext, table: &PathTable, tool_dir: &RealPath) -> (r:
    Result<ToolContext, PathError>)
    ensures
        r matches Ok(c) ==> c.tool_dir is Some,
        context.tool_dir matches Some(d) ==> (r matches Ok(c) && c.tool_dir matches Some(e)
            && e@ == d@),
        context.tool_dir is None ==> match crate::paths::spec_to_virtual(table@, tool_dir@) {
            Some(v) => r matches Ok(c) && c.tool_dir matches Some(e) && e@ == v,
            None => r == Err::<ToolContext, PathError>(PathError::PathNotMapped),
        },
{
    match context.tool_dir {
        Some(d) => Ok(ToolContext { tool_dir: Some(d) }),
        None => match table.to_virtual_path(tool_dir) {
            Ok(v) => Ok(ToolContext { tool_dir: Some(v) }),
            Err(e) => Err(e),
        },
    }
}

/// A loaded plugin instance: for this layer, the set of function
/// names the module exports.
pub struct PluginContainer {
    pub exports: Vec<String>,
}

impl PluginContainer {
    /// Does the loaded module export the name?
    pub open spec fn has_export_spec(self, name: Seq<char>) -> bool {
        exists|i: int| 0 <= i < self.exports@.len() && (#[trigger] self.exports@[i])@ == name
    }

    /// Decides `has_export_spec`.
    pub fn has_export(&self, name: &str) -> (r: bool)
        ensures
            r == self.has_export_spec(name@),
    {
        let mut i: usize = 0;
        while i < self.exports.len()
            invariant
                0 <= i <= self.exports@.len(),
                forall|k: int| 0 <= k < i ==> (#[trigger] self.exports@[k])@ != name@,
            decreases self.exports@.len() - i,
        {
            if str_eq(self.exports[i].as_str(), name) {
                return true;
            }
            i = i + 1;
        }
        false
    }
}

/// A contract or execution failure of one invocation, per the error
/// taxonomy: none is retried, each names what a caller needs to
/// identify the offence.
#[derive(Debug)]
pub enum InvokeError {
    /// The loaded plugin does not export the function.
    FunctionNotFound { tool: String, function: String },
    /// The input value could not be serialized: host/plugin skew.
    EncodingError { function: String },
    /// The sandboxed run trapped or reported failure, with the
    /// plugin's own diagnostic text.
    PluginExecutionFailed { message: String },
    /// The output value could not be deserialized: host/plugin skew.
    DecodingError { function: String },
}

/// Mathematical shape of an invocation failure.
pub enum InvokeErrorShape {
    FunctionNotFound { tool: Seq<char>, function: Seq<char> },
    EncodingError { function: Seq<char> },
    PluginExecutionFailed { message: Seq<char> },
    DecodingError { function: Seq<char> },
}

impl View for InvokeError {
    type V = InvokeErrorShape;

    open spec fn view(&self) -> InvokeErrorShape {
        match self {
            InvokeError::FunctionNotFound { tool, function } => (
            InvokeErrorShape::FunctionNotFound { tool: tool@, function: function@ }),
            InvokeError::EncodingError { function } => (InvokeErrorShape::EncodingError {
                function: function@,
            }),
            InvokeError::PluginExecutionFailed { message } => (
            InvokeErrorShape::PluginExecutionFailed { message: message@ }),
            InvokeError::DecodingError { function } => (InvokeErrorShape::DecodingError {
                function: function@,
            }),
        }
    }
}

/// What one sandbox run reported back to the host. A driver produces
/// a value of this type; nothing here retries or discards it.
#[derive(Debug)]
pub enum CallOutcome {
    /// The function ran and returned this serialized output.
    Success(Vec<u8>),
    /// The input value could not be serialized for the call.
    EncodeFailure,
    /// The sandboxed run trapped, with the plugin's diagnostic.
    Failure(String),
    /// The returned bytes could not be deserialized.
    DecodeFailure,
}

/// Checks a call before anything reaches the sandbox: the function
/// must be exported by the loaded plugin, else the call fails with
/// `FunctionNotFound` naming the tool and the function.
pub fn check_call(plugin: &PluginContainer, tool_id: &String, function: PluginFunction) -> (r:
    Result<(), InvokeError>)
    ensures
        r is Ok <==> plugin.has_export_spec(function.spec_name()),
        r matches Err(e) ==> e@ == (InvokeErrorShape::FunctionNotFound {
            tool: tool_id@,
            function: function.spec_name(),
        }),
{
    if plugin.has_export(function.name()) {
        Ok(())
    } else {
        Err(
            InvokeError::FunctionNotFound {
                tool: tool_id.clone(),
                function: String::from_str(function.name()),
            },
        )
    }
}

/// Types the outcome of one sandbox run into the failure taxonomy:
/// a success passes its output bytes through, everything else becomes
/// the matching typed error.
pub fn classify_outcome(function: PluginFunction, outcome: CallOutcome) -> (r: Result<
    Vec<u8>,
    InvokeError,
>)
    ensures
        match outcome {
            CallOutcome::Success(bytes) => r matches Ok(b) && b@ == bytes@,
            CallOutcome::EncodeFailure => r matches Err(e) && e@
                == (InvokeErrorShape::EncodingError { function: function.spec_name() }),
            CallOutcome::Failure(msg) => r matches Err(e) && e@
                == (InvokeErrorShape::PluginExecutionFailed { message: msg@ }),
            CallOutcome::DecodeFailure => r matches Err(e) && e@
                == (InvokeErrorShape::DecodingError { function: function.spec_name() }),
        },
{
    match outcome {
        CallOutcome::Success(bytes) => Ok(bytes),
        CallOutcome::EncodeFailure => Err(
            InvokeError::EncodingError { function: String::from_str(function.name()) },
        ),
        CallOutcome::Failure(msg) => Err(InvokeError::PluginExecutionFailed { message: msg }),
        CallOutcome::DecodeFailure => Err(
            InvokeError::DecodingError { function: String::from_str(function.name()) },
        ),
    }
}

/// A failure of the install flow: an invocation failure, a path that
/// could not be scoped into the sandbox, or a state error of the
/// manifest.
#[derive(Debug)]
pub enum InstallError {
    Call(InvokeError),
    Path(PathError),
    State(ManifestError),
}

/// Opens the install flow: the `native_install` export must exist
/// before anything else happens, so a plugin missing it fails with
/// `FunctionNotFound` naming the tool and the function — and the
/// manifest is never touched, since no outcome ever exists to record.
pub fn begin_install(plugin: &PluginContainer, tool_id: &String, context: ToolContext, table:
    &PathTable, tool_dir: &RealPath) -> (r: Result<ToolContext, InstallError>)
    ensures
        !plugin.has_export_spec(PluginFunction::NativeInstall.spec_name()) ==> (r matches Err(
            InstallError::Call(e),
        ) && e@ == (InvokeErrorShape::FunctionNotFound {
            tool: tool_id@,
            function: PluginFunction::NativeInstall.spec_name(),
        })),
        plugin.has_export_spec(PluginFunction::NativeInstall.spec_name()) ==> match context
            .tool_dir {
            Some(d) => (r matches Ok(c) && c.tool_dir matches Some(e) && e@ == d@),
            None => match crate::paths::spec_to_virtual(table@, tool_dir@) {
                Some(vp) => (r matches Ok(c) && c.tool_dir matches Some(e) && e@ == vp),
                None => r matches Err(InstallError::Path(pe)) && pe
                    == PathError::PathNotMapped,
            },
        },
        r matches Ok(c) ==> plugin.has_export_spec(PluginFunction::NativeInstall.spec_name())
            && c.tool_dir is Some,
{
    if let Err(e) = check_call(plugin, tool_id, PluginFunction::NativeInstall) {
        return Err(InstallError::Call(e));
    }
    match prepare_context(context, table, tool_dir) {
        Ok(c) => Ok(c),
        Err(e) => Err(InstallError::Path(e)),
    }
}

/// Closes the install flow: only a successful outcome records the
/// version in the manifest; every failure leaves the manifest exactly
/// as it was — no partial entry survives a failed call.
pub fn finish_install(
    manifest: &mut ToolManifest,
    version: Version,
    installed_at: u128,
    outcome: CallOutcome,
) -> (r: Result<(), InstallError>)
    requires
        old(manifest).wf(),
    ensures
        final(manifest).wf(),
        !(outcome matches CallOutcome::Success(_)) ==> (r matches Err(InstallError::Call(_))
            && *final(manifest) == *old(manifest)),
        outcome matches CallOutcome::Success(_) && old(manifest).has_version(version) ==> (
        r == Err::<(), InstallError>(
            InstallError::State(ManifestError::AlreadyInstalled(version)),
        ) && *final(manifest) == *old(manifest)),
        outcome matches CallOutcome::Success(_) && !old(manifest).has_version(version) ==> (
        r matches Ok(u) && final(manifest).has_version(version)
            && final(manifest).installed_at_of(version) == Some(installed_at) && (forall|
            w: Version,
        |
            w != version ==> final(manifest).installed_at_of(w) == old(
                manifest,
            ).installed_at_of(w))),
{
    match classify_outcome(PluginFunction::NativeInstall, outcome) {
        Ok(_) => match manifest.record_installed(version, installed_at) {
            Ok(u) => Ok(u),
            Err(e) => Err(InstallError::State(e)),
        },
        Err(e) => Err(InstallError::Call(e)),
    }
}

} // verus!
