use gdb_remote_protocol::feature::{feature_entry, known};
use gdb_remote_protocol::Parsed::{Done, Error};
use gdb_remote_protocol::{
    gdbfeature, gdbfeaturesupported, ErrorKind, FeatureSupported, GDBFeature,
    GDBFeatureSupported, Known,
};

fn catalog() -> Vec<(GDBFeature, &'static str)> {
    vec![
        (GDBFeature::multiprocess, "multiprocess"),
        (GDBFeature::xmlRegisters, "xmlRegisters"),
        (GDBFeature::qRelocInsn, "qRelocInsn"),
        (GDBFeature::swbreak, "swbreak"),
        (GDBFeature::hwbreak, "hwbreak"),
        (GDBFeature::fork_events, "fork-events"),
        (GDBFeature::vfork_events, "vfork-events"),
        (GDBFeature::exec_events, "exec-events"),
        (GDBFeature::vContSupported, "vContSupported"),
        (GDBFeature::no_resumed, "no-resumed"),
        (GDBFeature::QThreadEvents, "QThreadEvents"),
    ]
}

#[test]
fn every_feature_has_its_wire_name() {
    for (feature, name) in catalog() {
        assert_eq!(feature.name(), name);
    }
}

#[test]
fn every_wire_name_names_its_feature() {
    for (feature, name) in catalog() {
        assert_eq!(GDBFeature::from_name(name), Some(feature));
        assert_eq!(GDBFeature::from_name(feature.name()), Some(feature));
        assert!(feature.is_named(name));
    }
}

#[test]
fn no_feature_answers_to_the_name_of_another() {
    for (feature, _) in catalog() {
        for (other, name) in catalog() {
            assert_eq!(feature.is_named(name), feature == other);
        }
    }
}

#[test]
fn names_are_matched_exactly() {
    assert_eq!(GDBFeature::from_name("Multiprocess"), None);
    assert_eq!(GDBFeature::from_name("MULTIPROCESS"), None);
    assert_eq!(GDBFeature::from_name("qthreadevents"), None);
    assert_eq!(GDBFeature::from_name("multiprocess "), None);
    assert_eq!(GDBFeature::from_name("multiproces"), None);
    assert_eq!(GDBFeature::from_name(""), None);
}

#[test]
fn identifiers_with_underscores_are_no_wire_names() {
    assert_eq!(GDBFeature::from_name("fork_events"), None);
    assert_eq!(GDBFeature::from_name("vfork_events"), None);
    assert_eq!(GDBFeature::from_name("exec_events"), None);
    assert_eq!(GDBFeature::from_name("no_resumed"), None);
}

#[test]
fn known_resolves_against_the_catalog() {
    assert_eq!(known(b"swbreak"), Some(Known::Yes(GDBFeature::swbreak)));
    assert_eq!(known(b"no-resumed"), Some(Known::Yes(GDBFeature::no_resumed)));
    assert_eq!(known(b"SWBREAK"), Some(Known::No("SWBREAK")));
    assert_eq!(known(b""), Some(Known::No("")));
}

#[test]
fn known_keeps_an_unknown_name_as_it_was_sent() {
    assert_eq!(known("caf\u{e9}-\u{4e16}".as_bytes()), Some(Known::No("caf\u{e9}-\u{4e16}")));
    assert_eq!(known(b" padded "), Some(Known::No(" padded ")));
}

#[test]
fn known_rejects_bytes_that_are_not_utf8() {
    assert_eq!(known(&[0xff]), None);
    assert_eq!(known(&[b'a', 0x80]), None);
    assert_eq!(known(&[0xc3]), None);
    assert_eq!(known(&[0xed, 0xa0, 0x80]), None);
    assert_eq!(known(&[0xc0, 0xaf]), None);
}

#[test]
fn feature_entry_of_the_four_kinds() {
    assert_eq!(
        feature_entry(b"multiprocess+"),
        Some(GDBFeatureSupported(Known::Yes(GDBFeature::multiprocess), FeatureSupported::Yes))
    );
    assert_eq!(
        feature_entry(b"xmlRegisters=i386"),
        Some(GDBFeatureSupported(
            Known::Yes(GDBFeature::xmlRegisters),
            FeatureSupported::Value("i386")
        ))
    );
    assert_eq!(
        feature_entry(b"qRelocInsn-"),
        Some(GDBFeatureSupported(Known::Yes(GDBFeature::qRelocInsn), FeatureSupported::No))
    );
    assert_eq!(
        feature_entry(b"unknown-feature+"),
        Some(GDBFeatureSupported(Known::No("unknown-feature"), FeatureSupported::Yes))
    );
}

#[test]
fn entry_without_mark_or_value_is_malformed() {
    assert_eq!(feature_entry(b"xmlRegisters"), None);
    assert_eq!(feature_entry(b"multiprocess"), None);
    assert_eq!(feature_entry(b"x"), None);
    assert_eq!(gdbfeaturesupported(b"xmlRegisters"), Error(ErrorKind::MalformedFeatureEntry));
    assert_eq!(gdbfeaturesupported(b"swbreak;hwbreak+"), Error(ErrorKind::MalformedFeatureEntry));
}

#[test]
fn empty_entry_is_malformed() {
    assert_eq!(feature_entry(b""), None);
    assert_eq!(gdbfeaturesupported(b""), Error(ErrorKind::MalformedFeatureEntry));
    assert_eq!(gdbfeaturesupported(b";swbreak+"), Error(ErrorKind::MalformedFeatureEntry));
}

#[test]
fn the_last_byte_decides_before_any_equals_sign() {
    assert_eq!(
        feature_entry(b"a=b+"),
        Some(GDBFeatureSupported(Known::No("a=b"), FeatureSupported::Yes))
    );
    assert_eq!(
        feature_entry(b"a=b-"),
        Some(GDBFeatureSupported(Known::No("a=b"), FeatureSupported::No))
    );
    assert_eq!(
        feature_entry(b"swbreak++"),
        Some(GDBFeatureSupported(Known::No("swbreak+"), FeatureSupported::Yes))
    );
}

#[test]
fn value_starts_after_the_first_equals_sign() {
    assert_eq!(
        feature_entry(b"PacketSize=3fff"),
        Some(GDBFeatureSupported(Known::No("PacketSize"), FeatureSupported::Value("3fff")))
    );
    assert_eq!(
        feature_entry(b"a=b=c"),
        Some(GDBFeatureSupported(Known::No("a"), FeatureSupported::Value("b=c")))
    );
    assert_eq!(
        feature_entry(b"a+=b"),
        Some(GDBFeatureSupported(Known::No("a+"), FeatureSupported::Value("b")))
    );
}

#[test]
fn name_and_value_may_be_empty() {
    assert_eq!(
        feature_entry(b"+"),
        Some(GDBFeatureSupported(Known::No(""), FeatureSupported::Yes))
    );
    assert_eq!(
        feature_entry(b"-"),
        Some(GDBFeatureSupported(Known::No(""), FeatureSupported::No))
    );
    assert_eq!(
        feature_entry(b"swbreak="),
        Some(GDBFeatureSupported(Known::Yes(GDBFeature::swbreak), FeatureSupported::Value("")))
    );
    assert_eq!(
        feature_entry(b"=v"),
        Some(GDBFeatureSupported(Known::No(""), FeatureSupported::Value("v")))
    );
}

#[test]
fn entry_that_is_not_utf8_is_malformed() {
    assert_eq!(feature_entry(&[0xff, b'+']), None);
    assert_eq!(feature_entry(&[0xff, b'-']), None);
    assert_eq!(feature_entry(&[0xff, b'=', b'v']), None);
    assert_eq!(feature_entry(&[b'n', b'=', 0xff]), None);
    assert_eq!(gdbfeaturesupported(&[0xff, b'+']), Error(ErrorKind::MalformedFeatureEntry));
    assert_eq!(
        feature_entry("caf\u{e9}=\u{4e16}".as_bytes()),
        Some(GDBFeatureSupported(Known::No("caf\u{e9}"), FeatureSupported::Value("\u{4e16}")))
    );
}

#[test]
fn gdbfeaturesupported_stops_at_the_separator() {
    assert_eq!(
        gdbfeaturesupported(b"multiprocess+;swbreak-"),
        Done(
            &b";swbreak-"[..],
            GDBFeatureSupported(Known::Yes(GDBFeature::multiprocess), FeatureSupported::Yes)
        )
    );
    assert_eq!(
        gdbfeaturesupported(b"x=1;"),
        Done(&b";"[..], GDBFeatureSupported(Known::No("x"), FeatureSupported::Value("1")))
    );
}

#[test]
fn gdbfeature_stops_at_a_separator_or_an_equals_sign() {
    assert_eq!(gdbfeature(b"xmlRegisters=i386"), Done(&b"=i386"[..], Known::Yes(GDBFeature::xmlRegisters)));
    assert_eq!(gdbfeature(b"swbreak;hwbreak"), Done(&b";hwbreak"[..], Known::Yes(GDBFeature::swbreak)));
    assert_eq!(gdbfeature(b"a;b=c"), Done(&b";b=c"[..], Known::No("a")));
    assert_eq!(gdbfeature(b"a=b;c"), Done(&b"=b;c"[..], Known::No("a")));
    assert_eq!(gdbfeature(b"swbreak+"), Done(&b""[..], Known::No("swbreak+")));
}

#[test]
fn gdbfeature_of_nothing_is_the_empty_name() {
    assert_eq!(gdbfeature(b""), Done(&b""[..], Known::No("")));
}

#[test]
fn gdbfeature_rejects_a_leading_separator() {
    assert_eq!(gdbfeature(b";swbreak"), Error(ErrorKind::MalformedFeatureEntry));
    assert_eq!(gdbfeature(b"=i386"), Error(ErrorKind::MalformedFeatureEntry));
    assert_eq!(gdbfeature(b";"), Error(ErrorKind::MalformedFeatureEntry));
}

#[test]
fn gdbfeature_rejects_a_name_that_is_not_utf8() {
    assert_eq!(gdbfeature(&[0xff, 0xfe]), Error(ErrorKind::MalformedFeatureEntry));
    assert_eq!(gdbfeature(&[0x80, b'=', b'1']), Error(ErrorKind::MalformedFeatureEntry));
}
