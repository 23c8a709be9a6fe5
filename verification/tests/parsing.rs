use aiueos::edn::{kw_collection, Edn};
use aiueos::error::AiueError;
use aiueos::manifest::{Kind, Limits, Manifest, Trust};

fn kw(s: &str) -> Edn {
    Edn::Keyword(s.to_string())
}

fn text(s: &str) -> Edn {
    Edn::Str(s.to_string())
}

fn entries(pairs: Vec<(&str, Edn)>) -> Edn {
    Edn::MapOf(pairs.into_iter().map(|(k, v)| (kw(k), v)).collect())
}

fn schema_message(r: Result<Manifest, AiueError>) -> String {
    match r {
        Err(AiueError::Schema(m)) => m,
        other => panic!("expected a schema error, got {other:?}"),
    }
}

#[test]
fn manifest_non_map_is_schema_error() {
    let v = Edn::Vector(vec![kw("not"), kw("a"), kw("map")]);
    assert!(matches!(Manifest::from_edn(&v), Err(AiueError::Schema(_))));
}

#[test]
fn manifest_missing_component_id_is_error() {
    let v = entries(vec![("aiueos/kind", kw("app"))]);
    assert!(matches!(Manifest::from_edn(&v), Err(AiueError::Schema(_))));
}

#[test]
fn manifest_missing_kind_is_error() {
    let v = entries(vec![("aiueos/component", kw("app/x"))]);
    assert!(matches!(Manifest::from_edn(&v), Err(AiueError::Schema(_))));
}

#[test]
fn manifest_unknown_kind_is_error() {
    let v = entries(vec![("aiueos/component", kw("x/y")), ("aiueos/kind", kw("wizard"))]);
    assert!(matches!(Manifest::from_edn(&v), Err(AiueError::Schema(_))));
}

#[test]
fn manifest_unknown_trust_is_error() {
    let v = entries(vec![
        ("aiueos/component", kw("x/y")),
        ("aiueos/kind", kw("app")),
        ("aiueos/trust", kw("godmode")),
    ]);
    assert!(matches!(Manifest::from_edn(&v), Err(AiueError::Schema(_))));
}

#[test]
fn manifest_defaults_kernel_extension_to_trusted() {
    let v = entries(vec![("aiueos/component", kw("k/x")), ("aiueos/kind", kw("kernel-extension"))]);
    let m = Manifest::from_edn(&v).unwrap();
    assert_eq!(m.trust, Trust::Trusted);
    assert_eq!(m.kind, Kind::KernelExtension);
}

#[test]
fn manifest_applies_default_limits_and_entry() {
    let v = entries(vec![("aiueos/component", kw("app/x")), ("aiueos/kind", kw("app"))]);
    let m = Manifest::from_edn(&v).unwrap();
    assert_eq!(m.limits.memory_pages, 16);
    assert_eq!(m.limits.fuel, 10_000_000);
    assert_eq!(m.entry, "main");
    assert!(m.args.is_empty());
    assert_eq!(m.trust, Trust::Untrusted);
}

#[test]
fn manifest_partial_limits_keep_defaults_for_missing_keys() {
    let v = entries(vec![
        ("aiueos/component", kw("a/x")),
        ("aiueos/kind", kw("app")),
        ("aiueos/limits", Edn::MapOf(vec![(kw("memory-pages"), Edn::Integer(4))])),
    ]);
    let m = Manifest::from_edn(&v).unwrap();
    assert_eq!(m.limits.memory_pages, 4);
    assert_eq!(m.limits.fuel, 10_000_000);
}

#[test]
fn edn_kw_collection_sorts_and_dedups_from_vector_or_set() {
    let v = Edn::Vector(vec![kw("b/x"), kw("a/y"), kw("b/x")]);
    assert_eq!(kw_collection(Some(&v)), vec!["a/y", "b/x"]);
    let s = Edn::SetOf(vec![kw("a/y"), kw("b/x")]);
    assert_eq!(kw_collection(Some(&s)), vec!["a/y", "b/x"]);
    assert!(kw_collection(None).is_empty());
}

#[test]
fn agents_default_to_ai_generated() {
    let v = entries(vec![("aiueos/component", kw("agent/planner")), ("aiueos/kind", kw("agent"))]);
    assert_eq!(Manifest::from_edn(&v).unwrap().trust, Trust::AiGenerated);
}

#[test]
fn stated_trust_wins_over_the_default() {
    let v = entries(vec![
        ("aiueos/component", kw("agent/p")),
        ("aiueos/kind", kw("agent")),
        ("aiueos/trust", kw("verified")),
    ]);
    assert_eq!(Manifest::from_edn(&v).unwrap().trust, Trust::Verified);
}

#[test]
fn full_manifest_reads_every_field() {
    let v = entries(vec![
        ("aiueos/component", kw("driver/virtio-blk")),
        ("aiueos/kind", kw("driver")),
        ("aiueos/source", text("virtio_blk.clj")),
        ("aiueos/wasm", text("virtio_blk.wasm")),
        ("aiueos/wasm-sha256", text("abc")),
        ("aiueos/imports", Edn::SetOf(vec![kw("pci/config"), kw("dma/map"), kw("irq/subscribe"), kw("mmio/map")])),
        ("aiueos/exports", Edn::SetOf(vec![kw("block/read"), kw("block/write")])),
        ("aiueos/effects", Edn::SetOf(vec![kw("device-io"), kw("dma"), kw("interrupt")])),
        ("aiueos/requires", Edn::SetOf(vec![kw("iommu")])),
        ("aiueos/publishes", Edn::SetOf(vec![Edn::Integer(1)])),
        ("aiueos/subscribes", Edn::Vector(vec![Edn::Integer(2), Edn::Integer(3)])),
        (
            "aiueos/limits",
            Edn::MapOf(vec![(kw("memory-pages"), Edn::Integer(32)), (kw("fuel"), Edn::Integer(10000000))]),
        ),
        ("aiueos/entry", text("tick")),
        ("aiueos/args", Edn::Vector(vec![Edn::Integer(21), Edn::Integer(-3)])),
    ]);
    let m = Manifest::from_edn(&v).unwrap();
    assert_eq!(m.id, "driver/virtio-blk");
    assert_eq!(m.kind, Kind::Driver);
    assert_eq!(m.trust, Trust::Untrusted);
    assert_eq!(m.source.as_deref(), Some("virtio_blk.clj"));
    assert_eq!(m.wasm.as_deref(), Some("virtio_blk.wasm"));
    assert_eq!(m.imports, vec!["dma/map", "irq/subscribe", "mmio/map", "pci/config"]);
    assert_eq!(m.exports, vec!["block/read", "block/write"]);
    assert_eq!(m.effects, vec!["device-io", "dma", "interrupt"]);
    assert_eq!(m.requires, vec!["iommu"]);
    assert_eq!(m.publishes, vec![1]);
    assert_eq!(m.subscribes, vec![2, 3]);
    assert_eq!(m.limits, Limits { memory_pages: 32, fuel: 10_000_000 });
    assert_eq!(m.entry, "tick");
    assert_eq!(m.args, vec![21, -3]);
    assert_eq!(m.signed_message().as_deref(), Some("driver/virtio-blk\nabc"));
}

#[test]
fn unknown_own_key_is_rejected() {
    let v = entries(vec![
        ("aiueos/component", kw("app/x")),
        ("aiueos/kind", kw("app")),
        ("aiueos/effcts", Edn::SetOf(vec![kw("dma")])),
    ]);
    assert_eq!(schema_message(Manifest::from_edn(&v)), "app/x: unknown key :aiueos/effcts");
}

#[test]
fn keys_of_other_namespaces_are_ignored() {
    let v = entries(vec![
        ("aiueos/component", kw("app/x")),
        ("aiueos/kind", kw("app")),
        ("docs/note", text("free text")),
    ]);
    assert!(Manifest::from_edn(&v).is_ok());
}

#[test]
fn negative_memory_pages_are_rejected() {
    let v = entries(vec![
        ("aiueos/component", kw("app/x")),
        ("aiueos/kind", kw("app")),
        ("aiueos/limits", Edn::MapOf(vec![(kw("memory-pages"), Edn::Integer(-1))])),
    ]);
    assert_eq!(schema_message(Manifest::from_edn(&v)), "app/x: malformed :aiueos/limits");
}

#[test]
fn memory_pages_beyond_u32_are_rejected() {
    let v = entries(vec![
        ("aiueos/component", kw("app/x")),
        ("aiueos/kind", kw("app")),
        ("aiueos/limits", Edn::MapOf(vec![(kw("memory-pages"), Edn::Integer(4294967296))])),
    ]);
    assert!(Manifest::from_edn(&v).is_err());
    let ok = entries(vec![
        ("aiueos/component", kw("app/x")),
        ("aiueos/kind", kw("app")),
        ("aiueos/limits", Edn::MapOf(vec![(kw("memory-pages"), Edn::Integer(4294967295))])),
    ]);
    assert_eq!(Manifest::from_edn(&ok).unwrap().limits.memory_pages, u32::MAX);
}

#[test]
fn non_integer_args_are_rejected() {
    let v = entries(vec![
        ("aiueos/component", kw("app/x")),
        ("aiueos/kind", kw("app")),
        ("aiueos/args", Edn::Vector(vec![Edn::Integer(1), text("2")])),
    ]);
    assert_eq!(schema_message(Manifest::from_edn(&v)), "app/x: malformed :aiueos/args");
}

#[test]
fn empty_entry_is_rejected() {
    let v = entries(vec![
        ("aiueos/component", kw("app/x")),
        ("aiueos/kind", kw("app")),
        ("aiueos/entry", text("")),
    ]);
    assert_eq!(schema_message(Manifest::from_edn(&v)), "app/x: malformed :aiueos/entry");
}

#[test]
fn non_keyword_capability_is_rejected() {
    let v = entries(vec![
        ("aiueos/component", kw("app/x")),
        ("aiueos/kind", kw("app")),
        ("aiueos/imports", Edn::Vector(vec![kw("log/write"), text("fs/open")])),
    ]);
    assert_eq!(schema_message(Manifest::from_edn(&v)), "app/x: malformed :aiueos/imports");
}

#[test]
fn schema_messages_name_the_component() {
    assert_eq!(
        schema_message(Manifest::from_edn(&Edn::Nil)),
        "manifest must be a map"
    );
    assert_eq!(
        schema_message(Manifest::from_edn(&entries(vec![("aiueos/kind", kw("app"))]))),
        "manifest missing :aiueos/component"
    );
    assert_eq!(
        schema_message(Manifest::from_edn(&entries(vec![("aiueos/component", kw("a/b"))]))),
        "a/b: missing :aiueos/kind"
    );
    assert_eq!(
        schema_message(Manifest::from_edn(&entries(vec![
            ("aiueos/component", kw("x/y")),
            ("aiueos/kind", kw("wizard"))
        ]))),
        "x/y: unknown :aiueos/kind wizard"
    );
    assert_eq!(
        schema_message(Manifest::from_edn(&entries(vec![
            ("aiueos/component", kw("x/y")),
            ("aiueos/kind", kw("app")),
            ("aiueos/trust", kw("godmode"))
        ]))),
        "x/y: unknown :aiueos/trust godmode"
    );
}

#[test]
fn topic_ids_must_fit_i32() {
    let v = entries(vec![
        ("aiueos/component", kw("driver/s")),
        ("aiueos/kind", kw("driver")),
        ("aiueos/publishes", Edn::SetOf(vec![Edn::Integer(2147483648)])),
    ]);
    assert_eq!(schema_message(Manifest::from_edn(&v)), "driver/s: malformed :aiueos/publishes");
}

#[test]
fn kind_and_trust_labels_round_trip() {
    for k in [Kind::App, Kind::Service, Kind::Driver, Kind::Broker, Kind::Agent, Kind::KernelExtension, Kind::Compat] {
        assert_eq!(Kind::parse(k.label()), Some(k));
    }
    for t in [Trust::Trusted, Trust::Verified, Trust::Untrusted, Trust::AiGenerated] {
        assert_eq!(Trust::parse(t.label()), Some(t));
    }
    assert_eq!(Kind::parse("wizard"), None);
    assert_eq!(Trust::parse("Trusted"), None);
    assert_eq!(Kind::KernelExtension.label(), "kernel-extension");
    assert_eq!(Trust::AiGenerated.label(), "ai-generated");
}

#[test]
fn limits_default_is_small() {
    let l = Limits::default();
    assert_eq!(l.memory_pages, 16);
    assert_eq!(l.fuel, 10_000_000);
}

#[test]
fn get_reads_a_map_by_keyword_text() {
    let v = entries(vec![("aiueos/kind", kw("app")), ("fuel", Edn::Integer(3))]);
    assert!(matches!(aiueos::edn::get(&v, "fuel"), Some(Edn::Integer(3))));
    assert!(matches!(aiueos::edn::get(&v, "aiueos/kind"), Some(Edn::Keyword(k)) if k == "app"));
    assert!(aiueos::edn::get(&v, "kind").is_none());
    assert!(aiueos::edn::get(&Edn::Vector(vec![]), "fuel").is_none());
}
