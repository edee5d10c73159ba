use proto_host::version::{parse_u128, parse_u64, render_u64, Version};
use proto_host::version_spec::{ParseError, UnresolvedVersionSpec};

fn v(major: u64, minor: u64, patch: u64) -> Version {
    Version { major, minor, patch }
}

#[test]
fn version_ordering() {
    assert!(v(1, 2, 3).lt(&v(1, 2, 4)));
    assert!(v(1, 2, 3).lt(&v(1, 3, 0)));
    assert!(v(1, 9, 9).lt(&v(2, 0, 0)));
    assert!(!v(2, 0, 0).lt(&v(1, 9, 9)));
    assert!(v(1, 2, 3).le(&v(1, 2, 3)));
    assert!(!v(1, 2, 3).lt(&v(1, 2, 3)));
}

#[test]
fn render_numbers() {
    assert_eq!(render_u64(0), "0");
    assert_eq!(render_u64(7), "7");
    assert_eq!(render_u64(105), "105");
    assert_eq!(render_u64(18446744073709551615), "18446744073709551615");
}

#[test]
fn parse_numbers() {
    assert_eq!(parse_u64("0"), Some(0));
    assert_eq!(parse_u64("18"), Some(18));
    assert_eq!(parse_u64("018"), Some(18));
    assert_eq!(parse_u64(""), None);
    assert_eq!(parse_u64("1a2"), None);
    assert_eq!(parse_u64("18446744073709551615"), Some(u64::MAX));
    assert_eq!(parse_u64("18446744073709551616"), None);
    assert_eq!(parse_u128("340282366920938463463374607431768211455"), Some(u128::MAX));
    assert_eq!(parse_u128("340282366920938463463374607431768211456"), None);
}

#[test]
fn parse_shapes() {
    assert!(matches!(
        UnresolvedVersionSpec::parse("latest"),
        Ok(UnresolvedVersionSpec::Latest)
    ));
    assert!(matches!(UnresolvedVersionSpec::parse("*"), Ok(UnresolvedVersionSpec::Latest)));
    assert!(matches!(
        UnresolvedVersionSpec::parse("canary"),
        Ok(UnresolvedVersionSpec::Canary)
    ));
    match UnresolvedVersionSpec::parse("18") {
        Ok(UnresolvedVersionSpec::Partial(major, minor)) => {
            assert_eq!(major, 18);
            assert!(minor.is_none());
        }
        other => panic!("unexpected shape for \"18\": {:?}", other.map(|s| s.render())),
    }
    match UnresolvedVersionSpec::parse("18.19") {
        Ok(UnresolvedVersionSpec::Partial(major, minor)) => {
            assert_eq!(major, 18);
            assert_eq!(minor, Some(19));
        }
        _ => panic!("unexpected shape for \"18.19\""),
    }
    match UnresolvedVersionSpec::parse("18.19.0") {
        Ok(UnresolvedVersionSpec::Semantic(w)) => assert_eq!(w, v(18, 19, 0)),
        _ => panic!("unexpected shape for \"18.19.0\""),
    }
    match UnresolvedVersionSpec::parse(">=1.2") {
        Ok(UnresolvedVersionSpec::Gte(w)) => assert_eq!(w, v(1, 2, 0)),
        _ => panic!("unexpected shape for \">=1.2\""),
    }
    match UnresolvedVersionSpec::parse(">=1.2.3") {
        Ok(UnresolvedVersionSpec::Gte(w)) => assert_eq!(w, v(1, 2, 3)),
        _ => panic!("unexpected shape for \">=1.2.3\""),
    }
    match UnresolvedVersionSpec::parse("stable-lts") {
        Ok(UnresolvedVersionSpec::Alias(name)) => assert_eq!(name, "stable-lts"),
        _ => panic!("unexpected shape for \"stable-lts\""),
    }
}

#[test]
fn parse_rejections() {
    assert_eq!(UnresolvedVersionSpec::parse("").unwrap_err(), ParseError::EmptySpec);
    assert_eq!(
        UnresolvedVersionSpec::parse("^1.2").unwrap_err(),
        ParseError::UnsupportedRange
    );
    assert_eq!(UnresolvedVersionSpec::parse("~1").unwrap_err(), ParseError::UnsupportedRange);
    assert_eq!(UnresolvedVersionSpec::parse(">1.2").unwrap_err(), ParseError::UnsupportedRange);
    assert_eq!(UnresolvedVersionSpec::parse(">=x").unwrap_err(), ParseError::MalformedRange);
    assert_eq!(
        UnresolvedVersionSpec::parse("1.2.3.4").unwrap_err(),
        ParseError::MalformedVersion
    );
    assert_eq!(
        UnresolvedVersionSpec::parse("99999999999999999999999999").unwrap_err(),
        ParseError::ComponentTooLarge
    );
}

#[test]
fn render_forms() {
    assert_eq!(UnresolvedVersionSpec::Latest.render(), "latest");
    assert_eq!(UnresolvedVersionSpec::Canary.render(), "canary");
    assert_eq!(UnresolvedVersionSpec::Partial(18, None).render(), "18");
    assert_eq!(UnresolvedVersionSpec::Partial(18, Some(19)).render(), "18.19");
    assert_eq!(UnresolvedVersionSpec::Gte(v(1, 2, 3)).render(), ">=1.2.3");
    assert_eq!(UnresolvedVersionSpec::Semantic(v(18, 19, 0)).render(), "18.19.0");
    assert_eq!(v(18, 19, 0).render(), "18.19.0");
}

#[test]
fn render_parse_round_trip() {
    for sample in [v(0, 0, 0), v(18, 19, 0), v(1, 0, 105), v(u64::MAX, 7, 9)] {
        let once = sample.to_unresolved_spec().render();
        let parsed = UnresolvedVersionSpec::parse(&once).unwrap();
        assert_eq!(parsed.render(), once);
        match parsed {
            UnresolvedVersionSpec::Semantic(w) => assert_eq!(w, sample),
            _ => panic!("round trip lost the exact shape"),
        }
    }
}

#[test]
fn to_unresolved_is_lossless() {
    let spec = v(3, 1, 4).to_unresolved_spec();
    assert!(spec.is_semantic_of(&v(3, 1, 4)));
    assert!(!spec.is_semantic_of(&v(3, 1, 5)));
    assert!(spec.same_as(&UnresolvedVersionSpec::Semantic(v(3, 1, 4))));
    assert!(!spec.same_as(&UnresolvedVersionSpec::Latest));
}
