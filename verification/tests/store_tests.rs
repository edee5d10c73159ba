use proto_host::aliases::AliasMap;
use proto_host::config::{internal_pin, pin, ConfigSet};
use proto_host::manifest::{load_used_at, ManifestError, ToolManifest};
use proto_host::resolver::{resolve, ResolveError};
use proto_host::version::Version;
use proto_host::version_spec::UnresolvedVersionSpec;

fn v(major: u64, minor: u64, patch: u64) -> Version {
    Version { major, minor, patch }
}

fn spec(text: &str) -> UnresolvedVersionSpec {
    UnresolvedVersionSpec::parse(text).unwrap()
}

#[test]
fn record_then_list_exactly_once() {
    let mut manifest = ToolManifest::new();
    assert!(manifest.record_installed(v(1, 2, 3), 1000).is_ok());
    let listed = manifest.installed_versions();
    assert_eq!(listed, vec![v(1, 2, 3)]);
    assert_eq!(listed.iter().filter(|w| **w == v(1, 2, 3)).count(), 1);

    let again = manifest.record_installed(v(1, 2, 3), 2000);
    assert_eq!(again.unwrap_err(), ManifestError::AlreadyInstalled(v(1, 2, 3)));
    assert_eq!(manifest.installed_versions(), vec![v(1, 2, 3)]);
    assert_eq!(manifest.installed_at(&v(1, 2, 3)), Some(1000));
}

#[test]
fn listing_is_ascending_whatever_the_insert_order() {
    let mut manifest = ToolManifest::new();
    manifest.record_installed(v(2, 0, 0), 5).unwrap();
    manifest.record_installed(v(1, 0, 0), 6).unwrap();
    manifest.record_installed(v(1, 5, 0), 7).unwrap();
    assert_eq!(manifest.installed_versions(), vec![v(1, 0, 0), v(1, 5, 0), v(2, 0, 0)]);
    assert_eq!(manifest.installed_at(&v(1, 5, 0)), Some(7));
}

#[test]
fn remove_installed_requires_presence() {
    let mut manifest = ToolManifest::new();
    manifest.record_installed(v(1, 0, 0), 1).unwrap();
    assert_eq!(
        manifest.remove_installed(v(2, 0, 0)).unwrap_err(),
        ManifestError::NotInstalled(v(2, 0, 0))
    );
    assert!(manifest.remove_installed(v(1, 0, 0)).is_ok());
    assert!(manifest.installed_versions().is_empty());
}

#[test]
fn used_at_marker_semantics() {
    assert_eq!(load_used_at(None), None);
    assert_eq!(load_used_at(Some("1699999999999")), Some(1699999999999));
    assert_eq!(load_used_at(Some("not a number")), None);
    assert_eq!(load_used_at(Some("")), None);
}

#[test]
fn highest_installed_wins_for_ranges() {
    let aliases = AliasMap::new();
    let installed = vec![v(1, 2, 0), v(2, 4, 1)];
    let got = resolve(&spec(">=1.2.0"), &aliases, &installed, None);
    assert_eq!(got.unwrap(), v(2, 4, 1));
}

#[test]
fn partial_range_picks_highest_match() {
    let aliases = AliasMap::new();
    let installed = vec![v(18, 4, 0), v(18, 19, 0), v(20, 1, 0)];
    assert_eq!(resolve(&spec("18"), &aliases, &installed, None).unwrap(), v(18, 19, 0));
    assert_eq!(resolve(&spec("18.4"), &aliases, &installed, None).unwrap(), v(18, 4, 0));
    assert_eq!(resolve(&spec("latest"), &aliases, &installed, None).unwrap(), v(20, 1, 0));
}

#[test]
fn remote_is_only_a_fallback() {
    let aliases = AliasMap::new();
    let installed = vec![v(18, 4, 0)];
    let remote = vec![v(18, 19, 0), v(20, 0, 0)];
    // An installed match wins even when the remote list has higher versions.
    assert_eq!(
        resolve(&spec("18"), &aliases, &installed, Some(&remote)).unwrap(),
        v(18, 4, 0)
    );
    // With no installed match the remote list decides.
    assert_eq!(
        resolve(&spec("20"), &aliases, &installed, Some(&remote)).unwrap(),
        v(20, 0, 0)
    );
    // With no match anywhere the request fails loudly.
    assert_eq!(
        resolve(&spec("21"), &aliases, &installed, Some(&remote)).unwrap_err(),
        ResolveError::VersionNotFound
    );
}

#[test]
fn alias_chain_resolves_idempotently() {
    let mut aliases = AliasMap::new();
    aliases.set("a".to_string(), spec("b"));
    aliases.set("b".to_string(), spec("1.2.3"));
    let installed = vec![v(1, 2, 3), v(2, 0, 0)];
    let first = resolve(&spec("a"), &aliases, &installed, None).unwrap();
    let second = resolve(&spec("a"), &aliases, &installed, None).unwrap();
    assert_eq!(first, v(1, 2, 3));
    assert_eq!(first, second);
    // Resolving the exact result again is stable.
    let third = resolve(&first.to_unresolved_spec(), &aliases, &installed, None).unwrap();
    assert_eq!(third, first);
}

#[test]
fn alias_cycle_fails_instead_of_looping() {
    let mut aliases = AliasMap::new();
    aliases.set("a".to_string(), spec("b"));
    aliases.set("b".to_string(), spec("a"));
    let installed = vec![v(1, 0, 0)];
    assert_eq!(
        resolve(&spec("a"), &aliases, &installed, None).unwrap_err(),
        ResolveError::AliasCycle
    );
}

#[test]
fn unknown_alias_is_version_not_found() {
    let aliases = AliasMap::new();
    let installed = vec![v(1, 0, 0)];
    assert_eq!(
        resolve(&spec("nightly"), &aliases, &installed, None).unwrap_err(),
        ResolveError::VersionNotFound
    );
}

#[test]
fn canary_goes_through_the_alias_map() {
    let mut aliases = AliasMap::new();
    aliases.set("canary".to_string(), spec("2.0.0"));
    let installed = vec![v(1, 0, 0), v(2, 0, 0)];
    assert_eq!(resolve(&spec("canary"), &aliases, &installed, None).unwrap(), v(2, 0, 0));
}

#[test]
fn merged_aliases_prefer_overrides() {
    let mut defaults = AliasMap::new();
    defaults.set("stable".to_string(), spec("1.0.0"));
    defaults.set("beta".to_string(), spec("1.5.0"));
    let mut overrides = AliasMap::new();
    overrides.set("stable".to_string(), spec("2.0.0"));
    let merged = defaults.merged(&overrides);
    assert_eq!(merged.get("stable").unwrap().render(), "2.0.0");
    assert_eq!(merged.get("beta").unwrap().render(), "1.5.0");
    assert!(merged.get("missing").is_none());
}

#[test]
fn local_pin_leaves_global_untouched() {
    let mut config = ConfigSet::new();
    let id = "node".to_string();
    internal_pin(&mut config, &id, &spec("20"), true);
    internal_pin(&mut config, &id, &spec("18"), false);
    // The global document still holds its own pin.
    assert_eq!(config.global.get_pin("node").unwrap().render(), "20");
    // The layered read prefers the local pin.
    assert_eq!(config.get_pinned_spec("node").unwrap().render(), "18");
}

#[test]
fn missing_local_pin_falls_through_to_global() {
    let mut config = ConfigSet::new();
    let id = "go".to_string();
    internal_pin(&mut config, &id, &spec("1.22"), true);
    assert!(config.local.get_pin("go").is_none());
    assert_eq!(config.get_pinned_spec("go").unwrap().render(), "1.22");
    assert!(config.get_pinned_spec("rust").is_none());
}

#[test]
fn pin_without_resolve_stores_the_request_as_given() {
    let mut config = ConfigSet::new();
    let id = "node".to_string();
    let aliases = AliasMap::new();
    let installed = vec![v(18, 19, 0), v(18, 4, 0)];
    let stored = pin(&mut config, &id, &spec("18"), false, false, &aliases, &installed, None)
        .unwrap();
    assert_eq!(stored.render(), "18");
    assert_eq!(config.get_pinned_spec("node").unwrap().render(), "18");
}

#[test]
fn pin_with_resolve_stores_the_highest_match() {
    let mut config = ConfigSet::new();
    let id = "node".to_string();
    let aliases = AliasMap::new();
    let installed = vec![v(18, 19, 0), v(18, 4, 0)];
    let stored = pin(&mut config, &id, &spec("18"), false, true, &aliases, &installed, None)
        .unwrap();
    assert_eq!(stored.render(), "18.19.0");
    assert_eq!(config.get_pinned_spec("node").unwrap().render(), "18.19.0");
}

#[test]
fn failed_resolution_pins_nothing() {
    let mut config = ConfigSet::new();
    let id = "node".to_string();
    let aliases = AliasMap::new();
    let installed: Vec<Version> = Vec::new();
    let err = pin(&mut config, &id, &spec("18"), false, true, &aliases, &installed, None)
        .unwrap_err();
    assert_eq!(err, ResolveError::VersionNotFound);
    assert!(config.get_pinned_spec("node").is_none());
}
