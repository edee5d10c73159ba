use proto_host::config::{internal_pin, ConfigSet};
use proto_host::invoke::{
    begin_install, check_call, classify_outcome, finish_install, prepare_context, CallOutcome,
    InstallError, InvokeError, PluginContainer, PluginFunction, ToolContext,
};
use proto_host::listing::{describe_version, format_millis, list_versions};
use proto_host::manifest::ToolManifest;
use proto_host::paths::{PathError, PathMapping, PathTable, RealPath, VirtualPath};
use proto_host::aliases::AliasMap;
use proto_host::tool::Tool;
use proto_host::upgrade::{finish_upgrade, upgrade, UpgradeError, UpgradePlan};
use proto_host::version::Version;
use proto_host::version_spec::UnresolvedVersionSpec;

fn v(major: u64, minor: u64, patch: u64) -> Version {
    Version { major, minor, patch }
}

fn segs(parts: &[&str]) -> Vec<String> {
    parts.iter().map(|p| p.to_string()).collect()
}

fn table() -> PathTable {
    PathTable {
        mappings: vec![
            PathMapping {
                real_prefix: segs(&["home", "user", ".proto", "tools"]),
                mount: "tools".to_string(),
            },
            PathMapping {
                real_prefix: segs(&["home", "user", "project"]),
                mount: "cwd".to_string(),
            },
        ],
    }
}

#[test]
fn translation_scopes_paths_to_mounts() {
    let t = table();
    let real = RealPath { segments: segs(&["home", "user", ".proto", "tools", "node", "18.19.0"]) };
    let virt = t.to_virtual_path(&real).unwrap();
    assert_eq!(virt.mount, "tools");
    assert_eq!(virt.segments, segs(&["node", "18.19.0"]));
}

#[test]
fn unmapped_path_never_reaches_the_sandbox() {
    let t = table();
    let outside = RealPath { segments: segs(&["etc", "passwd"]) };
    assert_eq!(t.to_virtual_path(&outside).unwrap_err(), PathError::PathNotMapped);
    let unknown_mount = VirtualPath { mount: "scratch".to_string(), segments: segs(&["x"]) };
    assert_eq!(t.from_virtual_path(&unknown_mount).unwrap_err(), PathError::PathNotMapped);
}

#[test]
fn translation_round_trips() {
    let t = table();
    let real = RealPath { segments: segs(&["home", "user", "project", "src", "main.rs"]) };
    let virt = t.to_virtual_path(&real).unwrap();
    let back = t.from_virtual_path(&virt).unwrap();
    assert_eq!(back.segments, real.segments);
}

#[test]
fn function_contract_table() {
    assert_eq!(PluginFunction::NativeInstall.name(), "native_install");
    assert_eq!(PluginFunction::RegisterTool.name(), "register_tool");
    assert_eq!(PluginFunction::DetectVersionFiles.name(), "detect_version_files");
    assert!(PluginFunction::NativeInstall.carries_context());
    assert!(!PluginFunction::LoadVersions.carries_context());
    assert!(!PluginFunction::PreInstall.has_output());
    assert!(!PluginFunction::UnpackArchive.has_output());
    assert!(PluginFunction::PreRun.has_output());
}

#[test]
fn unset_context_dir_is_substituted() {
    let t = table();
    let tool_dir = RealPath { segments: segs(&["home", "user", ".proto", "tools", "node"]) };
    let prepared = prepare_context(ToolContext { tool_dir: None }, &t, &tool_dir).unwrap();
    let dir = prepared.tool_dir.unwrap();
    assert_eq!(dir.mount, "tools");
    assert_eq!(dir.segments, segs(&["node"]));
}

#[test]
fn supplied_context_dir_is_kept() {
    let t = table();
    let tool_dir = RealPath { segments: segs(&["home", "user", ".proto", "tools", "node"]) };
    let given = VirtualPath { mount: "cwd".to_string(), segments: segs(&["sub"]) };
    let prepared =
        prepare_context(ToolContext { tool_dir: Some(given) }, &t, &tool_dir).unwrap();
    let dir = prepared.tool_dir.unwrap();
    assert_eq!(dir.mount, "cwd");
    assert_eq!(dir.segments, segs(&["sub"]));
}

#[test]
fn missing_export_fails_with_function_not_found() {
    let plugin = PluginContainer { exports: vec!["register_tool".to_string()] };
    let tool_id = "node".to_string();
    let err = check_call(&plugin, &tool_id, PluginFunction::NativeInstall).unwrap_err();
    match err {
        InvokeError::FunctionNotFound { tool, function } => {
            assert_eq!(tool, "node");
            assert_eq!(function, "native_install");
        }
        _ => panic!("wrong failure kind"),
    }
    assert!(check_call(&plugin, &tool_id, PluginFunction::RegisterTool).is_ok());
}

#[test]
fn missing_install_export_records_nothing() {
    let plugin = PluginContainer { exports: vec!["register_tool".to_string()] };
    let tool_id = "node".to_string();
    let t = table();
    let tool_dir = RealPath { segments: segs(&["home", "user", ".proto", "tools", "node"]) };
    let manifest = ToolManifest::new();

    let begun = begin_install(&plugin, &tool_id, ToolContext { tool_dir: None }, &t, &tool_dir);
    match begun {
        Err(InstallError::Call(InvokeError::FunctionNotFound { tool, function })) => {
            assert_eq!(tool, "node");
            assert_eq!(function, "native_install");
        }
        _ => panic!("install was allowed to begin without the export"),
    }
    // The call never happened, so no outcome exists and the manifest
    // holds no partial entry.
    assert!(manifest.installed_versions().is_empty());
}

#[test]
fn only_a_successful_call_is_recorded() {
    let mut manifest = ToolManifest::new();
    let failed = finish_install(
        &mut manifest,
        v(18, 19, 0),
        1000,
        CallOutcome::Failure("sandbox trapped".to_string()),
    );
    match failed {
        Err(InstallError::Call(InvokeError::PluginExecutionFailed { message })) => {
            assert_eq!(message, "sandbox trapped");
        }
        _ => panic!("wrong failure kind"),
    }
    assert!(manifest.installed_versions().is_empty());

    finish_install(&mut manifest, v(18, 19, 0), 1000, CallOutcome::Success(Vec::new())).unwrap();
    assert_eq!(manifest.installed_versions(), vec![v(18, 19, 0)]);
    assert_eq!(manifest.installed_at(&v(18, 19, 0)), Some(1000));
}

#[test]
fn outcomes_map_onto_the_error_taxonomy() {
    let ok = classify_outcome(PluginFunction::LoadVersions, CallOutcome::Success(vec![1, 2]));
    assert_eq!(ok.unwrap(), vec![1, 2]);
    match classify_outcome(PluginFunction::LoadVersions, CallOutcome::EncodeFailure) {
        Err(InvokeError::EncodingError { function }) => assert_eq!(function, "load_versions"),
        _ => panic!("wrong failure kind"),
    }
    match classify_outcome(PluginFunction::LoadVersions, CallOutcome::DecodeFailure) {
        Err(InvokeError::DecodingError { function }) => assert_eq!(function, "load_versions"),
        _ => panic!("wrong failure kind"),
    }
}

#[test]
fn date_rendering_comes_from_the_timestamp() {
    // 2023-11-14T22:13:20Z
    assert_eq!(format_millis(1_700_000_000_000).unwrap(), "11/14/23");
    // The epoch itself.
    assert_eq!(format_millis(0).unwrap(), "01/01/70");
}

#[test]
fn listed_default_version_is_annotated() {
    let mut manifest = ToolManifest::new();
    let t: u128 = 1_700_000_000_000;
    manifest.record_installed(v(20, 1, 0), t).unwrap();
    manifest.record_installed(v(20, 2, 0), t).unwrap();

    let mut config = ConfigSet::new();
    let id = "node".to_string();
    internal_pin(&mut config, &id, &v(20, 1, 0).to_unresolved_spec(), false);

    let markers: Vec<Option<String>> = vec![None, None];
    let rows = list_versions(&manifest, &markers, &config, "node");
    assert_eq!(rows.len(), 2);
    assert_eq!(rows[0].0, "20.1.0");
    assert_eq!(rows[0].1, "installed 11/14/23, default version");
    assert!(rows[0].2);
    assert_eq!(rows[1].0, "20.2.0");
    assert_eq!(rows[1].1, "installed 11/14/23");
    assert!(!rows[1].2);
}

#[test]
fn last_used_marker_shows_in_the_listing() {
    let pinned: Option<&UnresolvedVersionSpec> = None;
    let (comments, is_default) = describe_version(
        &v(20, 1, 0),
        Some(1_700_000_000_000),
        Some("1700086400000"),
        pinned,
    );
    assert_eq!(comments, "installed 11/14/23, last used 11/15/23");
    assert!(!is_default);
}

#[test]
fn unmapped_tool_dir_stops_the_install() {
    let plugin = PluginContainer { exports: vec!["native_install".to_string()] };
    let tool_id = "node".to_string();
    let t = table();
    let outside = RealPath { segments: segs(&["srv", "elsewhere"]) };
    let begun = begin_install(&plugin, &tool_id, ToolContext { tool_dir: None }, &t, &outside);
    assert!(matches!(begun, Err(InstallError::Path(PathError::PathNotMapped))));
}

#[test]
fn tool_resolution_overlays_user_aliases() {
    let mut manifest = ToolManifest::new();
    manifest.record_installed(v(18, 4, 0), 1).unwrap();
    manifest.record_installed(v(18, 19, 0), 2).unwrap();
    let tool = Tool {
        id: "node".to_string(),
        locator: None,
        name: "Node.js".to_string(),
        plugin: PluginContainer { exports: Vec::new() },
        manifest,
        paths: table(),
    };
    let mut defaults = AliasMap::new();
    defaults.set("stable".to_string(), UnresolvedVersionSpec::parse("1").unwrap());
    let mut overrides = AliasMap::new();
    overrides.set("stable".to_string(), UnresolvedVersionSpec::parse("18").unwrap());
    let spec = UnresolvedVersionSpec::parse("stable").unwrap();
    let got = tool.resolve_version(&spec, &defaults, &overrides, None).unwrap();
    assert_eq!(got, v(18, 19, 0));
    assert_eq!(tool.get_name(), "Node.js");
}

#[test]
fn upgrade_only_when_strictly_newer() {
    assert_eq!(upgrade(&v(1, 2, 3), &v(1, 2, 3)), UpgradePlan::AlreadyLatest);
    assert_eq!(upgrade(&v(1, 2, 3), &v(1, 2, 2)), UpgradePlan::AlreadyLatest);
    assert_eq!(upgrade(&v(1, 2, 3), &v(1, 3, 0)), UpgradePlan::Upgrade);
    assert!(finish_upgrade(true).is_ok());
    assert_eq!(finish_upgrade(false).unwrap_err(), UpgradeError::UpgradeFailed);
}
