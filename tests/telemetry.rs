use indexer::telemetry::{init_tracing, Tracing, TracingSetup};

#[test]
fn tracing_defaults_to_disabled() {
    assert_eq!(Tracing::default(), Tracing::Disabled);
}

#[test]
fn tracing_names() {
    assert_eq!(Tracing::Disabled.to_string(), "disabled");
    assert_eq!(Tracing::Enabled.to_string(), "enabled");
}

#[test]
fn init_tracing_picks_setup() {
    assert!(matches!(init_tracing("svc", Tracing::Disabled), TracingSetup::Logging));
    match init_tracing("svc", Tracing::Enabled) {
        TracingSetup::Jaeger { service } => assert_eq!(service, "svc"),
        TracingSetup::Logging => panic!("expected jaeger"),
    }
}
