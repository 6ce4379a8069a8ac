use serde_json::Value;
use tool_router::error::ErrorKind;
use tool_router::tool::{SelectionQuery, ToolDescriptor};
use tool_router::vector::{
    probe_outcome, query_embedding, EmbeddingSource, ToolRecord, VectorToolSelector,
};

fn tool(name: &str, description: Option<&str>) -> ToolDescriptor {
    ToolDescriptor {
        name: name.to_string(),
        description: description.map(|d| d.to_string()),
        input_schema: Value::Object(serde_json::Map::new()),
    }
}

fn record(name: &str, ext: &str) -> ToolRecord<Vec<f32>> {
    ToolRecord {
        tool_name: name.to_string(),
        description: format!("about {}", name),
        schema: "{}".to_string(),
        vector: vec![0.5, 0.25],
        extension_name: ext.to_string(),
    }
}

fn selector() -> VectorToolSelector {
    VectorToolSelector::new("tools".to_string(), EmbeddingSource::Primary)
}

fn index_once(
    s: &mut VectorToolSelector,
    tools: &Vec<ToolDescriptor>,
    ext: &str,
    found: Vec<Vec<String>>,
) -> Option<Vec<ToolRecord<Vec<f32>>>> {
    let job = s.index_tools(tools, ext, true).unwrap();
    let texts = job.embedding_texts();
    let vectors: Vec<Vec<f32>> = texts.iter().map(|t| vec![t.len() as f32]).collect();
    let records = job.records(Ok(vectors)).unwrap();
    let plan = s.plan_commit(records, &found);
    s.finish_index(&plan.keys, Ok(())).unwrap();
    plan.upsert
}

#[test]
fn embedding_text_joins_name_description_and_schema() {
    let s = selector();
    let mut schema = serde_json::Map::new();
    schema.insert("type".to_string(), Value::String("object".to_string()));
    let tools = vec![
        tool("calc", Some("adds numbers")),
        ToolDescriptor { name: "ls".to_string(), description: None, input_schema: Value::Object(schema) },
    ];
    let job = s.index_tools(&tools, "math", true).unwrap();
    assert_eq!(job.extension_name, "math");
    let texts = job.embedding_texts();
    assert_eq!(texts[0], "calc adds numbers {}");
    assert_eq!(texts[1], "ls  {\n  \"type\": \"object\"\n}");
}

#[test]
fn indexing_without_embeddings_is_an_internal_error() {
    let s = selector();
    let e = s.index_tools(&vec![tool("calc", None)], "math", false).err().unwrap();
    assert_eq!(e.kind, ErrorKind::InternalError);
    assert_eq!(e.message, "Embedding provider does not support embeddings");
}

#[test]
fn failed_embedding_call_is_reported() {
    let s = selector();
    let job = s.index_tools(&vec![tool("calc", None)], "math", true).unwrap();
    let e = job.records::<Vec<f32>>(Err("quota".to_string())).err().unwrap();
    assert_eq!(e.kind, ErrorKind::InternalError);
    assert_eq!(e.message, "Failed to generate tool embeddings: quota");
}

#[test]
fn records_pair_tools_with_embeddings() {
    let s = selector();
    let job = s.index_tools(&vec![tool("a", Some("x")), tool("b", None)], "e", true).unwrap();
    let recs = job.records(Ok(vec![vec![1.0f32]])).unwrap();
    assert_eq!(recs.len(), 1);
    assert_eq!(recs[0].tool_name, "a");
    assert_eq!(recs[0].description, "x");
    assert_eq!(recs[0].schema, "{}");
    assert_eq!(recs[0].vector, vec![1.0f32]);
    assert_eq!(recs[0].extension_name, "e");
}

#[test]
fn second_indexing_writes_nothing() {
    let mut s = selector();
    let tools = vec![tool("calc", Some("adds")), tool("neg", None)];
    let first = index_once(&mut s, &tools, "math", vec![vec![], vec![]]).unwrap();
    assert_eq!(first.len(), 2);
    assert!(index_once(&mut s, &tools, "math", vec![vec![], vec![]]).is_none());
    let other = index_once(&mut s, &tools, "other", vec![vec![], vec![]]).unwrap();
    assert_eq!(other.len(), 2);
}

#[test]
fn probe_hit_with_same_name_drops_candidate() {
    let mut s = selector();
    let tools = vec![tool("calc", None), tool("neg", None)];
    let kept = index_once(
        &mut s,
        &tools,
        "math",
        vec![vec!["calc".to_string()], vec!["calc".to_string()]],
    )
    .unwrap();
    assert_eq!(kept.len(), 1);
    assert_eq!(kept[0].tool_name, "neg");
}

#[test]
fn duplicate_in_one_batch_is_written_once() {
    let s = selector();
    let plan = s.plan_commit(
        vec![record("calc", "m"), record("calc", "m"), record("calc", "n")],
        &vec![vec![], vec![], vec![]],
    );
    let upsert = plan.upsert.unwrap();
    assert_eq!(upsert.len(), 2);
    assert_eq!(upsert[0].extension_name, "m");
    assert_eq!(upsert[1].extension_name, "n");
    assert_eq!(plan.keys.len(), 3);
}

#[test]
fn failed_upsert_leaves_tools_unindexed() {
    let mut s = selector();
    let plan = s.plan_commit(vec![record("calc", "m")], &vec![vec![]]);
    let e = s.finish_index(&plan.keys, Err("disk".to_string())).err().unwrap();
    assert_eq!(e.kind, ErrorKind::InternalError);
    assert_eq!(e.message, "Failed to index tools: disk");
    let again = s.plan_commit(vec![record("calc", "m")], &vec![vec![]]);
    assert!(again.upsert.is_some());
}

#[test]
fn removal_forgets_the_name() {
    let mut s = selector();
    let tools = vec![tool("calc", None)];
    index_once(&mut s, &tools, "math", vec![vec![]]).unwrap();
    let e = s.finish_remove("calc", Err("gone".to_string())).err().unwrap();
    assert_eq!(e.message, "Failed to remove tool calc: gone");
    assert!(index_once(&mut s, &tools, "math", vec![vec![]]).is_none());
    s.finish_remove("calc", Ok(())).unwrap();
    assert!(index_once(&mut s, &tools, "math", vec![vec![]]).is_some());
}

#[test]
fn selection_needs_a_query_and_embeddings() {
    let s = selector();
    let q = SelectionQuery { query: None, k: 5, extension_name: None };
    assert_eq!(s.select_query(&q, true).err().unwrap().kind, ErrorKind::InvalidParams);
    let q = SelectionQuery { query: Some("sum".to_string()), k: 5, extension_name: None };
    let e = s.select_query(&q, false).err().unwrap();
    assert_eq!(e.kind, ErrorKind::InternalError);
    assert_eq!(e.message, "Embedding provider does not support embeddings");
    let e = s.select_tools(&Value::Object(serde_json::Map::new()), true).err().unwrap();
    assert_eq!(e.kind, ErrorKind::InvalidParams);
    assert_eq!(e.message, "Missing 'query' parameter");
}

#[test]
fn json_request_defaults_k_to_five() {
    let s = selector();
    let mut m = serde_json::Map::new();
    m.insert("query".to_string(), Value::String("sum".to_string()));
    let req = s.select_tools(&Value::Object(m.clone()), true).unwrap();
    assert_eq!(req.text, "sum");
    assert_eq!(req.k, 5);
    assert_eq!(req.extension_name, None);
    m.insert("k".to_string(), Value::from(2u64));
    m.insert("extension_name".to_string(), Value::String("math".to_string()));
    let req = s.select_tools(&Value::Object(m), true).unwrap();
    assert_eq!(req.k, 2);
    assert_eq!(req.extension_name, Some("math".to_string()));
}

#[test]
fn query_embedding_takes_the_first() {
    assert_eq!(query_embedding(Ok(vec![vec![1.0f32], vec![2.0f32]])).unwrap(), vec![1.0f32]);
    let e = query_embedding::<Vec<f32>>(Ok(vec![])).err().unwrap();
    assert_eq!(e.kind, ErrorKind::InternalError);
    assert_eq!(e.message, "No embedding returned");
    let e = query_embedding::<Vec<f32>>(Err("down".to_string())).err().unwrap();
    assert_eq!(e.message, "Failed to generate query embedding: down");
}

#[test]
fn every_hit_is_rendered_in_store_order() {
    let hits = vec![record("one", "A"), record("two", "B"), record("three", "A")];
    let out = VectorToolSelector::render_hits(Ok(hits)).unwrap();
    assert_eq!(
        out,
        vec![
            "Tool: one\nDescription: about one\nSchema: {}".to_string(),
            "Tool: two\nDescription: about two\nSchema: {}".to_string(),
            "Tool: three\nDescription: about three\nSchema: {}".to_string(),
        ]
    );
}

#[test]
fn empty_store_selects_nothing() {
    let out = VectorToolSelector::render_hits::<Vec<f32>>(Ok(vec![])).unwrap();
    assert!(out.is_empty());
    let e = VectorToolSelector::render_hits::<Vec<f32>>(Err("io".to_string())).err().unwrap();
    assert_eq!(e.kind, ErrorKind::InternalError);
    assert_eq!(e.message, "Failed to search tools: io");
}

#[test]
fn embedding_source_resolution() {
    match EmbeddingSource::resolve(Some("openai".to_string()), None) {
        EmbeddingSource::Dedicated { provider, model } => {
            assert_eq!(provider, "openai");
            assert_eq!(model, "text-embedding-3-small");
        }
        EmbeddingSource::Primary => panic!("expected a dedicated provider"),
    }
    match EmbeddingSource::resolve(Some("x".to_string()), Some("m".to_string())) {
        EmbeddingSource::Dedicated { model, .. } => assert_eq!(model, "m"),
        EmbeddingSource::Primary => panic!("expected a dedicated provider"),
    }
    assert!(matches!(EmbeddingSource::resolve(None, Some("m".to_string())), EmbeddingSource::Primary));
}

#[test]
fn k_that_is_no_unsigned_integer_falls_back_to_five() {
    let s = selector();
    let mut m = serde_json::Map::new();
    m.insert("query".to_string(), Value::String("sum".to_string()));
    m.insert("k".to_string(), Value::String("three".to_string()));
    assert_eq!(s.select_tools(&Value::Object(m.clone()), true).unwrap().k, 5);
    m.insert("k".to_string(), Value::from(-2i64));
    assert_eq!(s.select_tools(&Value::Object(m), true).unwrap().k, 5);
}

#[test]
fn failed_probe_is_an_internal_error() {
    assert_eq!(probe_outcome(Ok(vec!["calc".to_string()])).unwrap(), vec!["calc".to_string()]);
    let e = probe_outcome(Err("offline".to_string())).err().unwrap();
    assert_eq!(e.kind, ErrorKind::InternalError);
    assert_eq!(e.message, "Failed to search for existing tools: offline");
}
