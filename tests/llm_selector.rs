use serde_json::Value;
use tool_router::error::ErrorKind;
use tool_router::llm::{extension_of, parse_selection, LLMToolSelector, LlmAction, LlmEvent};
use tool_router::text::split_on_blank_lines;
use tool_router::tool::{SelectionQuery, ToolDescriptor};

fn tool(name: &str, description: Option<&str>) -> ToolDescriptor {
    ToolDescriptor {
        name: name.to_string(),
        description: description.map(|d| d.to_string()),
        input_schema: Value::Object(serde_json::Map::new()),
    }
}

fn query(q: Option<&str>, ext: Option<&str>) -> SelectionQuery {
    SelectionQuery {
        query: q.map(|s| s.to_string()),
        k: 5,
        extension_name: ext.map(|s| s.to_string()),
    }
}

fn candidates(s: &LLMToolSelector, ext: Option<&str>) -> Option<String> {
    match s.select_query(&query(Some("what"), ext)) {
        LlmAction::Render { tools, query } => {
            assert_eq!(query, "what");
            Some(tools)
        }
        LlmAction::Finish(Ok(v)) => {
            assert!(v.is_empty());
            None
        }
        _ => panic!("unexpected step"),
    }
}

#[test]
fn calc_round_trip_keeps_one_marker() {
    let mut s = LLMToolSelector::new();
    let tools = vec![tool("calc", Some("adds numbers"))];
    s.index_tools(&tools, "math");
    let text = candidates(&s, Some("math")).unwrap();
    assert_eq!(text, "Tool: calc\nDescription: adds numbers\nSchema: {}");
    assert_eq!(text.matches("Tool: calc").count(), 1);
    s.index_tools(&tools, "math");
    let again = candidates(&s, Some("math")).unwrap();
    assert_eq!(again.matches("Tool: calc").count(), 1);
    assert_eq!(again, text);
}

#[test]
fn indexing_twice_leaves_catalog_unchanged() {
    let mut s = LLMToolSelector::new();
    let tools = vec![tool("a", Some("first")), tool("b", None), tool("c", Some("third"))];
    s.index_tools(&tools, "ext");
    let once = candidates(&s, None).unwrap();
    s.index_tools(&tools, "ext");
    assert_eq!(candidates(&s, None).unwrap(), once);
    assert_eq!(
        once,
        "Tool: a\nDescription: first\nSchema: {}\n\nTool: b\nDescription: \nSchema: {}\n\nTool: c\nDescription: third\nSchema: {}"
    );
}

#[test]
fn marker_substring_skips_a_prefix_named_tool() {
    let mut s = LLMToolSelector::new();
    s.index_tools(&vec![tool("calculator", None)], "math");
    s.index_tools(&vec![tool("calc", None)], "math");
    let text = candidates(&s, Some("math")).unwrap();
    assert_eq!(text, "Tool: calculator\nDescription: \nSchema: {}");
}

#[test]
fn scoped_selection_sees_only_its_extension() {
    let mut s = LLMToolSelector::new();
    s.index_tools(&vec![tool("alpha", Some("in a"))], "A");
    s.index_tools(&vec![tool("beta", Some("in b"))], "B");
    let a = candidates(&s, Some("A")).unwrap();
    assert!(a.contains("Tool: alpha"));
    assert!(!a.contains("Tool: beta"));
    let all = candidates(&s, None).unwrap();
    assert_eq!(
        all,
        "Tool: alpha\nDescription: in a\nSchema: {}\nTool: beta\nDescription: in b\nSchema: {}"
    );
}

#[test]
fn missing_query_is_invalid_params() {
    let s = LLMToolSelector::new();
    match s.select_query(&query(None, None)) {
        LlmAction::Finish(Err(e)) => assert_eq!(e.kind, ErrorKind::InvalidParams),
        _ => panic!("expected an error"),
    }
    let mut m = serde_json::Map::new();
    m.insert("k".to_string(), Value::from(3u64));
    m.insert("extension_name".to_string(), Value::String("math".to_string()));
    match s.select_tools(&Value::Object(m)) {
        LlmAction::Finish(Err(e)) => {
            assert_eq!(e.kind, ErrorKind::InvalidParams);
            assert_eq!(e.message, "Missing 'query' parameter");
        }
        _ => panic!("expected an error"),
    }
}

#[test]
fn json_query_reaches_the_prompt() {
    let mut s = LLMToolSelector::new();
    s.index_tools(&vec![tool("alpha", None)], "A");
    s.index_tools(&vec![tool("beta", None)], "B");
    let mut m = serde_json::Map::new();
    m.insert("query".to_string(), Value::String("find".to_string()));
    m.insert("extension_name".to_string(), Value::String("B".to_string()));
    match s.select_tools(&Value::Object(m)) {
        LlmAction::Render { tools, query } => {
            assert_eq!(query, "find");
            assert_eq!(tools, "Tool: beta\nDescription: \nSchema: {}");
        }
        _ => panic!("expected a prompt"),
    }
}

#[test]
fn empty_catalog_selects_nothing() {
    let s = LLMToolSelector::new();
    assert_eq!(candidates(&s, None), None);
    assert_eq!(candidates(&s, Some("nowhere")), None);
}

#[test]
fn answer_is_split_trimmed_and_filtered() {
    let text = "Tool: a\nDescription: x\n\nnot a tool\n\n  Tool: b  \n\n\nTool: c";
    assert_eq!(
        parse_selection(text),
        vec![
            "Tool: a\nDescription: x".to_string(),
            "Tool: b".to_string(),
            "Tool: c".to_string(),
        ]
    );
    match LLMToolSelector::on_event(LlmEvent::Completed(Ok("\n Tool: z \n".to_string()))) {
        LlmAction::Finish(Ok(v)) => assert_eq!(v, vec!["Tool: z".to_string()]),
        _ => panic!("expected items"),
    }
    assert!(parse_selection("").is_empty());
}

#[test]
fn split_takes_each_blank_line_early() {
    assert_eq!(split_on_blank_lines("a\n\n\nb"), vec!["a".to_string(), "\nb".to_string()]);
    assert_eq!(split_on_blank_lines("\n\n\n"), vec!["".to_string(), "\n".to_string()]);
    assert_eq!(split_on_blank_lines(""), vec!["".to_string()]);
}

#[test]
fn failed_steps_become_internal_errors() {
    match LLMToolSelector::on_event(LlmEvent::Rendered(Err("no template".to_string()))) {
        LlmAction::Finish(Err(e)) => {
            assert_eq!(e.kind, ErrorKind::InternalError);
            assert_eq!(e.message, "Failed to render prompt template: no template");
        }
        _ => panic!("expected an error"),
    }
    match LLMToolSelector::on_event(LlmEvent::Completed(Err("timeout".to_string()))) {
        LlmAction::Finish(Err(e)) => {
            assert_eq!(e.kind, ErrorKind::InternalError);
            assert_eq!(e.message, "Failed to search tools: timeout");
        }
        _ => panic!("expected an error"),
    }
    match LLMToolSelector::on_event(LlmEvent::Rendered(Ok("prompt".to_string()))) {
        LlmAction::Complete { prompt } => assert_eq!(prompt, "prompt"),
        _ => panic!("expected a completion"),
    }
}

#[test]
fn removal_drops_the_whole_extension() {
    let mut s = LLMToolSelector::new();
    s.index_tools(&vec![tool("add", None), tool("sub", None)], "math");
    s.index_tools(&vec![tool("ls", None)], "fs");
    assert!(s.remove_tool("math__add").is_ok());
    assert_eq!(candidates(&s, Some("math")), None);
    assert!(candidates(&s, Some("fs")).is_some());
    assert_eq!(extension_of("a__b__c"), "a");
    assert_eq!(extension_of("plain"), "plain");
    assert_eq!(extension_of("__x"), "");
}

#[test]
fn llm_history_is_shared_by_calls() {
    let mut s = LLMToolSelector::new();
    s.record_tool_call("one").unwrap();
    s.record_tool_call("two").unwrap();
    assert_eq!(s.get_recent_tool_calls(5).unwrap(), vec!["two".to_string(), "one".to_string()]);
}
