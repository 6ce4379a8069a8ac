use std::collections::BTreeMap;
use tool_router::cli::{aligned_line, ConfigReport, InfoResponse};
use tool_router::error::ErrorKind;
use tool_router::router::{create_tool_selector, RouterToolSelectionStrategy, RouterToolSelector};
use tool_router::session::CompletionCache;
use tool_router::vector::EmbeddingSource;

#[test]
fn default_strategy_is_llm() {
    let s = create_tool_selector(None, false, None, EmbeddingSource::Primary).unwrap();
    assert_eq!(s.selector_type(), RouterToolSelectionStrategy::Llm);
    let s = create_tool_selector(Some(RouterToolSelectionStrategy::Llm), true, None, EmbeddingSource::Primary)
        .unwrap();
    assert_eq!(s.selector_type(), RouterToolSelectionStrategy::Llm);
}

#[test]
fn vector_strategy_needs_capability_and_table() {
    let e = create_tool_selector(
        Some(RouterToolSelectionStrategy::Vector),
        false,
        Some("t".to_string()),
        EmbeddingSource::Primary,
    )
    .err()
    .unwrap();
    assert_eq!(e.kind, ErrorKind::ConfigurationError);
    let e = create_tool_selector(Some(RouterToolSelectionStrategy::Vector), true, None, EmbeddingSource::Primary)
        .err()
        .unwrap();
    assert_eq!(e.kind, ErrorKind::ConfigurationError);
    let s = create_tool_selector(
        Some(RouterToolSelectionStrategy::Vector),
        true,
        Some("t".to_string()),
        EmbeddingSource::Primary,
    )
    .unwrap();
    assert_eq!(s.selector_type(), RouterToolSelectionStrategy::Vector);
    match s {
        RouterToolSelector::Vector(v) => assert_eq!(v.table_name(), "t"),
        RouterToolSelector::Llm(_) => panic!("expected the vector backend"),
    }
}

#[test]
fn router_records_calls_for_either_backend() {
    let mut s = create_tool_selector(
        Some(RouterToolSelectionStrategy::Vector),
        true,
        Some("t".to_string()),
        EmbeddingSource::Primary,
    )
    .unwrap();
    s.record_tool_call("a").unwrap();
    s.record_tool_call("b").unwrap();
    assert_eq!(s.get_recent_tool_calls(1).unwrap(), vec!["b".to_string()]);
}

#[test]
fn report_lines_are_aligned() {
    assert_eq!(aligned_line("Version:", "1.0", 15), "  Version:        1.0");
    assert_eq!(aligned_line("A very long label:", "v", 15), "  A very long label: v");
    let info = InfoResponse {
        version: "1.2".to_string(),
        config_file: "/c/config.yaml".to_string(),
        sessions_dir: "/d/sessions".to_string(),
        logs_dir: "/d/logs".to_string(),
        config_values: None,
    };
    assert_eq!(info.version_line(), "  Version:        1.2");
    let lines = info.location_lines();
    assert_eq!(lines[0], "  Config file:    /c/config.yaml");
    assert_eq!(lines[1], "  Sessions dir:   /d/sessions");
    assert_eq!(lines[2], "  Logs dir:       /d/logs");
    assert!(matches!(info.config_report(), ConfigReport::Missing));
}

#[test]
fn config_report_tells_empty_from_values() {
    let mut info = InfoResponse {
        version: String::new(),
        config_file: String::new(),
        sessions_dir: String::new(),
        logs_dir: String::new(),
        config_values: Some(BTreeMap::new()),
    };
    assert!(matches!(info.config_report(), ConfigReport::Empty));
    let mut m = BTreeMap::new();
    m.insert("GOOSE_MODEL".to_string(), "x".to_string());
    info.config_values = Some(m);
    assert!(matches!(info.config_report(), ConfigReport::Values));
}

#[test]
fn completion_cache_starts_empty() {
    let c = CompletionCache::new();
    assert!(c.is_empty());
    assert!(c.last_updated().elapsed().as_secs() < 60);
}
