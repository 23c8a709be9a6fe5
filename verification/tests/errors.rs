use aiueos::error::AiueError;
use aiueos::policy::{Violation, ViolationKind};

#[test]
fn denied_display_lists_every_violation() {
    let e = AiueError::Denied(vec![
        Violation {
            component: "agent/leaky".into(),
            kind: ViolationKind::ForbiddenEffect,
            message: "network forbidden".into(),
        },
        Violation {
            component: "app/lonely".into(),
            kind: ViolationKind::UnresolvedCapability,
            message: "no provider".into(),
        },
    ]);
    let s = e.render();
    assert!(s.contains("2 violation"), "count rendered");
    assert!(s.contains("forbidden-effect") && s.contains("unresolved-capability"));
    assert!(s.contains("agent/leaky") && s.contains("app/lonely"));
}

#[test]
fn unsafe_display_lists_every_reason() {
    let e = AiueError::Unsafe(vec![
        "forbidden symbol `eval`".into(),
        "forbidden symbol `slurp`".into(),
    ]);
    let s = e.render();
    assert!(s.contains("safe-kotoba"));
    assert!(s.contains("eval") && s.contains("slurp"));
}

#[test]
fn scalar_variants_render_their_kind() {
    assert!(AiueError::Schema("bad shape".into())
        .render()
        .contains("schema error"));
    assert!(AiueError::Run("trap".into()).render().contains("run error"));
    assert!(AiueError::Edn("eof".into())
        .render()
        .contains("edn parse error"));
    assert!(AiueError::Compile("nope".into())
        .render()
        .contains("compile error"));
}

#[test]
fn io_error_converts_via_from() {
    let io = std::io::Error::new(std::io::ErrorKind::NotFound, "missing");
    let e: AiueError = io.into();
    assert!(matches!(e, AiueError::Io(_)));
    assert!(e.render().contains("io error"));
}

#[test]
fn denied_rendering_is_exact() {
    let e = AiueError::Denied(vec![Violation {
        component: "driver/x".into(),
        kind: ViolationKind::DmaWithoutIommu,
        message: "no grant".into(),
    }]);
    assert_eq!(
        e.render(),
        "policy denied (1 violation(s)):\n  \u{2717} [dma-without-iommu] driver/x: no grant\n"
    );
}

#[test]
fn unsafe_rendering_counts_in_decimal() {
    let reasons: Vec<String> = (0..12).map(|i| format!("r{i}")).collect();
    let s = AiueError::Unsafe(reasons).render();
    assert!(s.starts_with("safe-kotoba subset rejected source (12):\n  \u{2717} r0\n"));
    assert!(s.ends_with("  \u{2717} r11\n"));
}

#[test]
fn schema_rendering_is_exact() {
    assert_eq!(AiueError::Schema("x".into()).render(), "schema error: x");
    assert_eq!(AiueError::Run("trap".into()).render(), "run error: trap");
}

#[test]
fn io_rendering_appends_the_std_text() {
    let e: AiueError = std::io::Error::new(std::io::ErrorKind::Other, "disk on fire").into();
    assert_eq!(e.render(), "io error: disk on fire");
}

#[test]
fn violation_labels() {
    assert_eq!(ViolationKind::BadSignature.label(), "bad-signature");
    assert_eq!(ViolationKind::UnresolvedCapability.label(), "unresolved-capability");
}
