//! Tests for the dual representation value, the payload types, and the
//! recursive resolution traversal.

use compose_yml::environment::MemoryEnvironment;
use compose_yml::errors::Error;
use compose_yml::external_network::ExternalNetwork;
use compose_yml::interpolate_all::InterpolateAll;
use compose_yml::interpolation::unescape_str;
use compose_yml::network_interface::NetworkInterface;
use compose_yml::permissions::DevicePermissions;
use compose_yml::raw_or::escape;
use compose_yml::raw_or::raw;
use compose_yml::raw_or::value;
use compose_yml::raw_or::RawOr;
use compose_yml::string_map::StringMap;
use compose_yml::volumes_from::ServiceOrContainer;
use compose_yml::volumes_from::VolumeModes;
use compose_yml::volumes_from::VolumesFrom;

#[test]
fn device_permissions_has_a_string_representation() {
    let pairs = vec![
        (Default::default(), "rwm"),
        (
            DevicePermissions {
                read: false,
                ..Default::default()
            },
            "wm",
        ),
        (
            DevicePermissions {
                write: false,
                ..Default::default()
            },
            "rm",
        ),
        (
            DevicePermissions {
                mknod: false,
                ..Default::default()
            },
            "rw",
        ),
    ];
    for (mode, s) in pairs {
        assert_eq!(mode.to_string(), s);
        assert_eq!(mode, DevicePermissions::from_str(s).unwrap());
    }
}

#[test]
fn volumes_from_should_have_a_string_representation() {
    let vf1 = VolumesFrom::service("foo");
    let vf2 = VolumesFrom {
        mode: VolumeModes::ReadOnly,
        ..VolumesFrom::container("foo")
    };

    let pairs = vec![(vf1, "foo"), (vf2, "container:foo:ro")];
    for (vf, s) in pairs {
        assert_eq!(vf.to_string(), s);
        assert_eq!(vf, VolumesFrom::from_str(s).unwrap());
    }
}

#[test]
fn device_permissions_parsing_never_fails() {
    let none = DevicePermissions {
        read: false,
        write: false,
        mknod: false,
    };
    assert_eq!(none, DevicePermissions::from_str("").unwrap());
    assert_eq!(none, DevicePermissions::from_str("xyz").unwrap());
    let wm = DevicePermissions {
        read: false,
        write: true,
        mknod: true,
    };
    assert_eq!(wm, DevicePermissions::from_str("wm").unwrap());
    // Whatever follows the granted letters is ignored.
    assert_eq!(
        DevicePermissions::default(),
        DevicePermissions::from_str("rwmxyz").unwrap()
    );
}

#[test]
fn volumes_from_rejects_malformed_forms() {
    for s in ["", "container:", "a:b:c", "container:foo:xx", "a:", ":ro"] {
        match VolumesFrom::from_str(s) {
            Err(Error::InvalidValue(wanted, text)) => {
                assert_eq!(wanted, "volumes_from");
                assert_eq!(text, s);
            }
            other => panic!("expected InvalidValue for {:?}, got {:?}", s, other),
        }
    }
}

#[test]
fn volumes_from_accepts_explicit_modes() {
    let vf = VolumesFrom::from_str("svc:rw").unwrap();
    assert_eq!(vf.source, ServiceOrContainer::Service("svc".to_owned()));
    assert_eq!(vf.mode, VolumeModes::ReadWrite);
    // The default mode is not serialized.
    assert_eq!(vf.to_string(), "svc");

    let vf = VolumesFrom::from_str("container:db").unwrap();
    assert_eq!(vf.source, ServiceOrContainer::Container("db".to_owned()));
    assert_eq!(vf.mode, VolumeModes::ReadWrite);
}

#[test]
fn volume_modes_round_trip() {
    assert_eq!(VolumeModes::from_str("ro").unwrap(), VolumeModes::ReadOnly);
    assert_eq!(VolumeModes::from_str("rw").unwrap(), VolumeModes::ReadWrite);
    assert!(VolumeModes::from_str("xx").is_err());
    assert_eq!(VolumeModes::ReadOnly.to_string(), "ro");
    assert_eq!(VolumeModes::ReadWrite.to_string(), "rw");
}

#[test]
fn raw_parses_immediately_when_no_lookup_is_needed() {
    let v: RawOr<String> = raw("plain").unwrap();
    assert_eq!(v.value().unwrap(), "plain");
    assert_eq!(v.to_string(), "plain");

    let v: RawOr<String> = raw("$$escaped").unwrap();
    assert_eq!(v.value().unwrap(), "$escaped");
    assert_eq!(v.to_string(), "$$escaped");
}

#[test]
fn raw_keeps_references_verbatim() {
    let v: RawOr<String> = raw("$NAME").unwrap();
    assert!(v.value().is_err());
    assert_eq!(v.to_string(), "$NAME");
}

#[test]
fn raw_rejects_invalid_syntax() {
    match raw::<String>("${") {
        Err(Error::InvalidSyntax(text)) => assert_eq!(text, "${"),
        other => panic!("expected InvalidSyntax, got {:?}", other),
    }
}

#[test]
fn escape_treats_dollars_as_literals() {
    let v: RawOr<String> = escape("container:$FOO").unwrap();
    assert_eq!(v.value().unwrap(), "container:$FOO");
    assert_eq!(v.to_string(), "container:$$FOO");
}

#[test]
fn escape_rejects_text_that_does_not_coerce() {
    match escape::<VolumesFrom>("a:b:c") {
        Err(Error::InvalidValue(wanted, text)) => {
            assert_eq!(wanted, "volumes_from");
            assert_eq!(text, "a:b:c");
        }
        other => panic!("expected InvalidValue, got {:?}", other),
    }
}

#[test]
fn value_wraps_a_typed_payload() {
    let v = value(VolumesFrom::service("web"));
    assert_eq!(v.value().unwrap(), &VolumesFrom::service("web"));
    assert_eq!(v.to_string(), "web");
}

#[test]
fn value_mut_gives_mutable_access_when_resolved() {
    let mut v = value(VolumesFrom::service("web"));
    v.value_mut().unwrap().mode = VolumeModes::ReadOnly;
    assert_eq!(v.to_string(), "web:ro");

    let mut unresolved: RawOr<String> = raw("$NAME").unwrap();
    assert!(unresolved.value_mut().is_err());
}

#[test]
fn value_on_unresolved_fails_like_unescape() {
    let v: RawOr<String> = raw("$NAME").unwrap();
    let access_err = v.value().unwrap_err();
    let unescape_err = unescape_str("$NAME").unwrap_err();
    assert_eq!(access_err, unescape_err);
    assert!(matches!(access_err, Error::ResolutionRequired(_)));
}

#[test]
fn interpolate_env_resolves_in_place_exactly_once() {
    let mut env = MemoryEnvironment::new();
    env.set("NAME", "db");

    let mut v: RawOr<String> = raw("$NAME").unwrap();
    assert_eq!(v.to_string(), "$NAME");
    assert_eq!(v.interpolate_env(&env).unwrap(), "db");
    // After resolution the value renders as its parsed form.
    assert_eq!(v.to_string(), "db");

    // Resolving again yields the same payload and no failure, even
    // against a source that no longer defines the variable.
    assert_eq!(v.interpolate_env(&env).unwrap(), "db");
    assert_eq!(v.interpolate_env(&MemoryEnvironment::new()).unwrap(), "db");
}

#[test]
fn interpolate_env_failure_leaves_the_value_unresolved() {
    let env = MemoryEnvironment::new();
    let mut v: RawOr<String> = raw("$NAME").unwrap();
    match v.interpolate_env(&env) {
        Err(Error::UndefinedVariable(name)) => assert_eq!(name, "NAME"),
        other => panic!("expected UndefinedVariable, got {:?}", other),
    }
    // Untouched: still unresolved, still rendering verbatim.
    assert!(v.value().is_err());
    assert_eq!(v.to_string(), "$NAME");
}

#[test]
fn interpolate_env_reports_coercion_failures() {
    let mut env = MemoryEnvironment::new();
    env.set("VF", "a:b:c");
    let mut v: RawOr<VolumesFrom> = raw("$VF").unwrap();
    match v.interpolate_env(&env) {
        Err(Error::InvalidValue(wanted, text)) => {
            assert_eq!(wanted, "volumes_from");
            assert_eq!(text, "a:b:c");
        }
        other => panic!("expected InvalidValue, got {:?}", other),
    }
}

#[test]
fn rendering_then_rereading_reproduces_the_value() {
    // Resolved values, including ones whose text needs re-escaping.
    for s in ["plain", "$$money", "a $$b c"] {
        let v: RawOr<String> = raw(s).unwrap();
        let reread: RawOr<String> = raw(&v.to_string()).unwrap();
        assert_eq!(v, reread);
    }
    // Unresolved values render verbatim.
    for s in ["$NAME", "x ${NAME:-d} y"] {
        let v: RawOr<String> = raw(s).unwrap();
        let reread: RawOr<String> = raw(&v.to_string()).unwrap();
        assert_eq!(v, reread);
        assert_eq!(v.to_string(), s);
    }
    // A typed payload round trips through its own textual form.
    let v: RawOr<VolumesFrom> = raw("container:foo:ro").unwrap();
    let reread: RawOr<VolumesFrom> = raw(&v.to_string()).unwrap();
    assert_eq!(v, reread);
}

#[test]
fn escaped_form_of_any_literal_round_trips() {
    for s in ["", "plain", "$VAR1 ${VAR2} $", "a$b"] {
        let escaped = compose_yml::interpolation::escape_str(s);
        let v: RawOr<String> = raw(&escaped).unwrap();
        assert_eq!(v.value().unwrap(), s);
        assert_eq!(v.to_string(), escaped);
    }
}

#[test]
fn raw_or_parses_from_a_string() {
    let v: RawOr<String> = "$NAME".parse().unwrap();
    assert_eq!(v.to_string(), "$NAME");
    let v: RawOr<VolumesFrom> = "container:foo:ro".parse().unwrap();
    assert_eq!(
        v.value().unwrap().source,
        ServiceOrContainer::Container("foo".to_owned())
    );
    assert!("${".parse::<RawOr<String>>().is_err());
}

#[test]
fn string_map_keeps_insertion_order_and_unique_keys() {
    let mut m: StringMap<u32> = StringMap::new();
    m.insert("b", 1);
    m.insert("a", 2);
    m.insert("b", 3);
    assert_eq!(m.len(), 2);
    assert_eq!(m.key_at(0), "b");
    assert_eq!(m.key_at(1), "a");
    assert_eq!(m.get("b"), Some(&3));
    assert_eq!(m.get("a"), Some(&2));
    assert_eq!(m.get("c"), None);
}

#[test]
fn interpolate_all_resolves_every_leaf() {
    let mut env = MemoryEnvironment::new();
    env.set("HOST", "db.example.com");
    env.set("ALIAS", "db");

    let mut iface = NetworkInterface {
        aliases: vec![raw("$ALIAS").unwrap(), raw("static").unwrap()],
        ..Default::default()
    };
    iface.interpolate_all(&env).unwrap();
    assert_eq!(iface.aliases[0].value().unwrap(), "db");
    assert_eq!(iface.aliases[1].value().unwrap(), "static");

    let mut net = ExternalNetwork {
        name: Some(raw("$HOST").unwrap()),
        ..Default::default()
    };
    net.interpolate_all(&env).unwrap();
    assert_eq!(net.name.as_ref().unwrap().value().unwrap(), "db.example.com");

    let mut none: Option<RawOr<String>> = None;
    none.interpolate_all(&env).unwrap();
    assert_eq!(none, None);

    let mut plain: u32 = 7;
    plain.interpolate_all(&env).unwrap();
    assert_eq!(plain, 7);
}

#[test]
fn traversal_stops_at_the_first_failing_leaf() {
    let mut env = MemoryEnvironment::new();
    env.set("OK1", "one");
    env.set("OK2", "two");

    let mut doc: StringMap<Vec<RawOr<String>>> = StringMap::new();
    doc.insert("a", vec![raw("$OK1").unwrap()]);
    doc.insert(
        "b",
        vec![
            raw("$OK2").unwrap(),
            raw("$MISSING").unwrap(),
            raw("$ALSO_MISSING").unwrap(),
        ],
    );

    // The walk stops at the failing leaf and reports exactly its error.
    match doc.interpolate_all(&env) {
        Err(Error::UndefinedVariable(name)) => assert_eq!(name, "MISSING"),
        other => panic!("expected UndefinedVariable, got {:?}", other),
    }

    // Leaves before the failure stay resolved; the failing leaf and the
    // ones after it stay untouched.
    assert_eq!(doc.get("a").unwrap()[0].value().unwrap(), "one");
    assert_eq!(doc.get("b").unwrap()[0].value().unwrap(), "two");
    assert!(doc.get("b").unwrap()[1].value().is_err());
    assert_eq!(doc.get("b").unwrap()[1].to_string(), "$MISSING");
    assert_eq!(doc.get("b").unwrap()[2].to_string(), "$ALSO_MISSING");
}
