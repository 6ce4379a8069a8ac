use vstd::prelude::*;
use crate::error::{ErrorKind, RouterError};
use crate::history::{recorded, newest_first, CallHistory};
use crate::text::texts;
use crate::tool::{
    descriptors_view, embedding_text_of, entries_view, k_member, opt_text, str_member, tool_block,
    SelectionQuery, ToolDescriptor, ToolEntry,
};

verus! {

/// Where the embeddings of a vector selector come from.
pub enum EmbeddingSource {
    /// The provider that serves the agent's main model.
    Primary,
    /// A provider built for embeddings alone.
    Dedicated { provider: String, model: String },
}

/// The embedding model used when a dedicated provider names none.
pub open spec fn default_embedding_model() -> Seq<char> {
    "text-embedding-3-small"@
}

impl EmbeddingSource {
    /// A dedicated provider when one is configured, with the configured model
    /// or the default one; otherwise the primary provider.
    pub fn resolve(provider: Option<String>, model: Option<String>) -> (r: EmbeddingSource)
        ensures
            match provider {
                None => r is Primary,
                Some(p) => match r {
                    EmbeddingSource::Dedicated { provider: rp, model: rm } => rp@ == p@ && rm@ == (
                    match model {
                        Some(m) => m@,
                        None => default_embedding_model(),
                    }),
                    EmbeddingSource::Primary => false,
                },
            },
    {
        match provider {
            None => EmbeddingSource::Primary,
            Some(p) => {
                let m = match model {
                    Some(m) => m,
                    None => String::from_str("text-embedding-3-small"),
                };
                EmbeddingSource::Dedicated { provider: p, model: m }
            },
        }
    }
}

/// One indexed tool as the vector store holds it.
pub struct ToolRecord<V> {
    pub tool_name: String,
    pub description: String,
    pub schema: String,
    pub vector: V,
    pub extension_name: String,
}

/// The identity of a record: tool name and extension.
pub open spec fn record_key<V>(r: ToolRecord<V>) -> (Seq<char>, Seq<char>) {
    (r.tool_name@, r.extension_name@)
}

/// The identity of a tool in the index.
pub struct ToolKey {
    pub name: String,
    pub extension_name: String,
}

/// The identities held in a list of keys.
pub open spec fn key_set(v: Seq<ToolKey>) -> Set<(Seq<char>, Seq<char>)> {
    Set::new(
        |k: (Seq<char>, Seq<char>)|
            exists|i: int| 0 <= i < v.len() && (v[i].name@, v[i].extension_name@) == k,
    )
}

/// The identities of a list of records.
pub open spec fn record_keys<V>(recs: Seq<ToolRecord<V>>) -> Set<(Seq<char>, Seq<char>)> {
    Set::new(|k: (Seq<char>, Seq<char>)| exists|i: int| 0 <= i < recs.len() && record_key(recs[i]) == k)
}

/// Record `i` of `recs` is written: its identity is not indexed yet, the
/// store's nearest record in its extension (`found[i]`, the names that the
/// probe returned) does not carry its name, and no earlier record of the
/// batch has its identity.
pub open spec fn is_new<V>(
    idx: Set<(Seq<char>, Seq<char>)>,
    recs: Seq<ToolRecord<V>>,
    found: Seq<Seq<Seq<char>>>,
    i: int,
) -> bool {
    &&& !idx.contains(record_key(recs[i]))
    &&& !found[i].contains(recs[i].tool_name@)
    &&& forall|j: int| 0 <= j < i ==> record_key(recs[j]) != record_key(recs[i])
}

/// The records of `recs` that are written, in order.
pub open spec fn new_records<V>(
    idx: Set<(Seq<char>, Seq<char>)>,
    recs: Seq<ToolRecord<V>>,
    found: Seq<Seq<Seq<char>>>,
) -> Seq<ToolRecord<V>>
    decreases recs.len(),
{
    if recs.len() == 0 {
        Seq::empty()
    } else {
        let n = recs.len() - 1;
        let prev = new_records(idx, recs.drop_last(), found);
        if is_new(idx, recs, found, n) {
            prev.push(recs[n])
        } else {
            prev
        }
    }
}

/// The blocks of the hits, one per hit, in the store's order.
pub open spec fn hit_blocks<V>(hits: Seq<ToolRecord<V>>) -> Seq<Seq<char>> {
    hits.map_values(|x: ToolRecord<V>| tool_block(x.tool_name@, x.description@, x.schema@))
}

/// A nearest-neighbour search to run: embed `text`, then search the store
/// for at most `k` records, in extension `extension_name` if it is given.
/// The store applies the cap and the extension filter; the hits it returns
/// are rendered as they come.
pub struct SearchRequest {
    pub text: String,
    pub k: usize,
    pub extension_name: Option<String>,
}

/// `r` is how a search starts for a request whose query is `query`, whose
/// result cap is `k` and whose scope is `ext`, with or without a provider
/// that embeds: a missing query is refused, then a provider that cannot
/// embed, and otherwise the search runs for that query, cap and scope.
pub open spec fn search_start(
    query: Option<Seq<char>>,
    k: usize,
    ext: Option<Seq<char>>,
    supports_embeddings: bool,
    r: Result<SearchRequest, RouterError>,
) -> bool {
    match r {
        Err(e) => if query is None {
            e.kind == ErrorKind::InvalidParams && e.message@ == "Missing 'query' parameter"@
        } else {
            !supports_embeddings && e.kind == ErrorKind::InternalError && e.message@
                == "Embedding provider does not support embeddings"@
        },
        Ok(req) => query is Some && supports_embeddings && query == Some(req.text@) && req.k == k
            && opt_text(req.extension_name) == ext,
    }
}

/// The tools of one indexing call, with their schema rendered.
pub struct IndexJob {
    pub extension_name: String,
    pub entries: Vec<ToolEntry>,
}

/// What an indexing call writes: the identities of every candidate, and the
/// records to upsert, where there are any.
pub struct CommitPlan<V> {
    pub keys: Vec<ToolKey>,
    pub upsert: Option<Vec<ToolRecord<V>>>,
}

/// A selector that ranks tools by the similarity of their embeddings to the
/// query's, in a vector store named `table_name`.
pub struct VectorToolSelector {
    table_name: String,
    embedding: EmbeddingSource,
    keys: Vec<ToolKey>,
    history: CallHistory,
}

impl IndexJob {
    /// The texts to embed, one per tool, in order.
    pub fn embedding_texts(&self) -> (r: Vec<String>)
        ensures
            r@.len() == self.entries@.len(),
            forall|i: int|
                0 <= i < r@.len() ==> (#[trigger] r@[i])@ == embedding_text_of(
                    self.entries@[i].name@,
                    self.entries@[i].description@,
                    self.entries@[i].schema@,
                ),
    {
        let mut r: Vec<String> = Vec::new();
        let mut i: usize = 0;
        while i < self.entries.len()
            invariant
                i <= self.entries@.len(),
                r@.len() == i,
                forall|j: int|
                    0 <= j < i ==> (#[trigger] r@[j])@ == embedding_text_of(
                        self.entries@[j].name@,
                        self.entries@[j].description@,
                        self.entries@[j].schema@,
                    ),
            decreases self.entries@.len() - i,
        {
            r.push(self.entries[i].embedding_text());
            i = i + 1;
        }
        r
    }

    /// One record per tool that received an embedding, paired in order; an
    /// embedding failure becomes an internal error.
    pub fn records<V>(self, embeddings: Result<Vec<V>, String>) -> (r: Result<
        Vec<ToolRecord<V>>,
        RouterError,
    >)
        ensures
            match embeddings {
                Err(e) => r is Err && r->Err_0.kind == ErrorKind::InternalError
                    && r->Err_0.message@ == "Failed to generate tool embeddings: "@ + e@,
                Ok(vs) => r is Ok && {
                    let recs = r->Ok_0@;
                    &&& recs.len() == if vs@.len() < self.entries@.len() {
                        vs@.len()
                    } else {
                        self.entries@.len()
                    }
                    &&& forall|i: int|
                        0 <= i < recs.len() ==> (#[trigger] recs[i]).tool_name@
                            == self.entries@[i].name@ && recs[i].description@
                            == self.entries@[i].description@ && recs[i].schema@
                            == self.entries@[i].schema@ && recs[i].vector == vs@[i]
                            && recs[i].extension_name@ == self.extension_name@
                },
            },
    {
        match embeddings {
            Err(e) => Err(
                RouterError::with_detail(
                    ErrorKind::InternalError,
                    "Failed to generate tool embeddings: ",
                    e.as_str(),
                ),
            ),
            Ok(vs) => {
                let ghost all = vs@;
                let mut vs = vs;
                let n: usize = if vs.len() < self.entries.len() {
                    vs.len()
                } else {
                    self.entries.len()
                };
                let mut recs: Vec<ToolRecord<V>> = Vec::new();
                let mut i: usize = 0;
                while i < n
                    invariant
                        n <= all.len(),
                        n <= self.entries@.len(),
                        i <= n,
                        vs@ == all.subrange(i as int, all.len() as int),
                        recs@.len() == i,
                        forall|j: int|
                            0 <= j < i ==> (#[trigger] recs@[j]).tool_name@
                                == self.entries@[j].name@ && recs@[j].description@
                                == self.entries@[j].description@ && recs@[j].schema@
                                == self.entries@[j].schema@ && recs@[j].vector == all[j]
                                && recs@[j].extension_name@ == self.extension_name@,
                    decreases n - i,
                {
                    let vector = vs.remove(0);
                    let e = &self.entries[i];
                    recs.push(
                        ToolRecord {
                            tool_name: e.name.clone(),
                            description: e.description.clone(),
                            schema: e.schema.clone(),
                            vector,
                            extension_name: self.extension_name.clone(),
                        },
                    );
                    i = i + 1;
                    assert(vs@ =~= all.subrange(i as int, all.len() as int));
                }
                Ok(recs)
            },
        }
    }
}

proof fn lemma_key_set_push(v: Seq<ToolKey>, k: ToolKey)
    ensures
        key_set(v.push(k)) == key_set(v).insert((k.name@, k.extension_name@)),
{
    let w = v.push(k);
    assert forall|x: (Seq<char>, Seq<char>)| key_set(v).contains(x) implies key_set(w).contains(x) by {
        let m = choose|m: int| 0 <= m < v.len() && (v[m].name@, v[m].extension_name@) == x;
        assert(w[m] == v[m]);
    }
    assert(w[v.len() as int] == k);
    assert(key_set(w).contains((k.name@, k.extension_name@)));
    assert forall|x: (Seq<char>, Seq<char>)| key_set(w).contains(x) implies key_set(v).insert(
        (k.name@, k.extension_name@),
    ).contains(x) by {
        let m = choose|m: int| 0 <= m < w.len() && (w[m].name@, w[m].extension_name@) == x;
        if m < v.len() {
            assert(w[m] == v[m]);
        }
    }
    assert(key_set(w) =~= key_set(v).insert((k.name@, k.extension_name@)));
}

/// Whether `keys` holds the identity (`name`, `ext`).
fn holds_key(keys: &Vec<ToolKey>, name: &String, ext: &String) -> (r: bool)
    ensures
        r == key_set(keys@).contains((name@, ext@)),
{
    let mut i: usize = 0;
    while i < keys.len()
        invariant
            i <= keys@.len(),
            forall|j: int|
                0 <= j < i ==> ((#[trigger] keys@[j]).name@, keys@[j].extension_name@) != (
                name@,
                ext@,
            ),
        decreases keys@.len() - i,
    {
        if keys[i].name == *name && keys[i].extension_name == *ext {
            assert(key_set(keys@).contains((name@, ext@)));
            return true;
        }
        i = i + 1;
    }
    false
}

/// Whether `names` holds `name`.
fn holds_name(names: &Vec<String>, name: &String) -> (r: bool)
    ensures
        r == texts(names@).contains(name@),
{
    let mut i: usize = 0;
    while i < names.len()
        invariant
            i <= names@.len(),
            forall|j: int| 0 <= j < i ==> (#[trigger] names@[j])@ != name@,
        decreases names@.len() - i,
    {
        if names[i] == *name {
            assert(texts(names@)[i as int] == name@);
            return true;
        }
        i = i + 1;
    }
    false
}

/// The names found by each probe, as texts.
pub open spec fn found_texts(found: Seq<Vec<String>>) -> Seq<Seq<Seq<char>>> {
    found.map_values(|v: Vec<String>| texts(v@))
}

impl VectorToolSelector {
    /// The identities of the tools known to be in the store: those that this
    /// selector has written or that its probes found. Records that the store
    /// held before the selector was built are caught only by the
    /// nearest-neighbour probe of each candidate.
    pub closed spec fn indexed_keys(&self) -> Set<(Seq<char>, Seq<char>)> {
        key_set(self.keys@)
    }

    /// The recorded tool calls, oldest first.
    pub closed spec fn calls(&self) -> Seq<Seq<char>> {
        self.history@
    }

    /// The name of the store's table.
    pub closed spec fn table(&self) -> Seq<char> {
        self.table_name@
    }

    /// Where the embeddings come from.
    pub closed spec fn source(&self) -> EmbeddingSource {
        self.embedding
    }

    pub open spec fn wf(&self) -> bool {
        self.calls().len() <= 100
    }

    /// The name of the store's table.
    pub fn table_name(&self) -> (r: &String)
        ensures
            r@ == self.table(),
    {
        &self.table_name
    }

    /// Where the embeddings come from.
    pub fn embedding(&self) -> (r: &EmbeddingSource)
        ensures
            *r == self.source(),
    {
        &self.embedding
    }

    /// A selector on the store `table_name` with embeddings from `embedding`.
    pub fn new(table_name: String, embedding: EmbeddingSource) -> (r: VectorToolSelector)
        ensures
            r.wf(),
            r.table() == table_name@,
            r.source() == embedding,
            r.indexed_keys() == Set::<(Seq<char>, Seq<char>)>::empty(),
            r.calls() == Seq::<Seq<char>>::empty(),
    {
        let r = VectorToolSelector { table_name, embedding, keys: Vec::new(), history: CallHistory::new() };
        assert(r.indexed_keys() =~= Set::<(Seq<char>, Seq<char>)>::empty());
        r
    }

    /// Starts indexing `tools` under `extension_name`: the tools with their
    /// schema rendered, or an internal error where the embedding provider
    /// cannot embed.
    pub fn index_tools(
        &self,
        tools: &Vec<ToolDescriptor>,
        extension_name: &str,
        supports_embeddings: bool,
    ) -> (r: Result<IndexJob, RouterError>)
        ensures
            !supports_embeddings ==> r is Err && r->Err_0.kind == ErrorKind::InternalError
                && r->Err_0.message@ == "Embedding provider does not support embeddings"@,
            supports_embeddings ==> r is Ok && {
                let job = r->Ok_0;
                &&& job.extension_name@ == extension_name@
                &&& entries_view(job.entries@) == descriptors_view(tools@)
            },
    {
        if !supports_embeddings {
            return Err(
                RouterError::new(
                    ErrorKind::InternalError,
                    "Embedding provider does not support embeddings",
                ),
            );
        }
        let entries = ToolEntry::from_descriptors(tools);
        Ok(IndexJob { extension_name: String::from_str(extension_name), entries })
    }

    /// Decides which of the candidate `records` are written: `found[i]` holds
    /// the names of the records that the probe of record `i` returned.
    pub fn plan_commit<V>(&self, records: Vec<ToolRecord<V>>, found: &Vec<Vec<String>>) -> (r:
        CommitPlan<V>)
        requires
            found@.len() == records@.len(),
        ensures
            key_set(r.keys@) == record_keys(records@),
            ({
                let fresh = new_records(self.indexed_keys(), records@, found_texts(found@));
                match r.upsert {
                    None => fresh.len() == 0,
                    Some(v) => fresh.len() > 0 && v@ == fresh,
                }
            }),
    {
        let ghost recs = records@;
        let ghost idx = self.indexed_keys();
        let ghost fs = found_texts(found@);
        let mut records = records;
        let mut keys: Vec<ToolKey> = Vec::new();
        let mut fresh: Vec<ToolRecord<V>> = Vec::new();
        let n: usize = records.len();
        let mut i: usize = 0;
        while i < n
            invariant
                n == recs.len(),
                found@.len() == n,
                fs == found_texts(found@),
                idx == self.indexed_keys(),
                i <= n,
                records@ == recs.subrange(i as int, n as int),
                keys@.len() == i,
                forall|j: int|
                    0 <= j < i ==> ((#[trigger] keys@[j]).name@, keys@[j].extension_name@)
                        == record_key(recs[j]),
                fresh@ == new_records(idx, recs.subrange(0, i as int), fs),
            decreases n - i,
        {
            let rec = records.remove(0);
            assert(rec == recs[i as int]);
            let ghost pre = recs.subrange(0, i as int);
            assert(recs.subrange(0, i + 1).drop_last() =~= pre);
            let indexed = holds_key(&self.keys, &rec.tool_name, &rec.extension_name);
            let probed = holds_name(&found[i], &rec.tool_name);
            assert(fs[i as int] == texts(found@[i as int]@));
            let mut repeated = false;
            let mut j: usize = 0;
            while j < i
                invariant
                    j <= i,
                    i < n,
                    n == recs.len(),
                    keys@.len() == i,
                    rec == recs[i as int],
                    forall|m: int|
                        0 <= m < i ==> ((#[trigger] keys@[m]).name@, keys@[m].extension_name@)
                            == record_key(recs[m]),
                    repeated == exists|m: int| 0 <= m < j && record_key(recs[m]) == record_key(rec),
                decreases i - j,
            {
                if keys[j].name == rec.tool_name && keys[j].extension_name == rec.extension_name {
                    repeated = true;
                }
                j = j + 1;
            }
            proof {
                let sub = recs.subrange(0, i + 1);
                assert(sub[i as int] == rec);
                assert(forall|m: int| 0 <= m < i ==> sub[m] == recs[m]);
                assert(is_new(idx, sub, fs, i as int) == (!indexed && !probed && !repeated));
            }
            keys.push(ToolKey { name: rec.tool_name.clone(), extension_name: rec.extension_name.clone() });
            if !indexed && !probed && !repeated {
                fresh.push(rec);
            }
            i = i + 1;
            assert(records@ =~= recs.subrange(i as int, n as int));
        }
        assert(recs.subrange(0, n as int) =~= recs);
        assert(key_set(keys@) =~= record_keys(recs)) by {
            assert forall|k: (Seq<char>, Seq<char>)| key_set(keys@).contains(k) implies record_keys(recs).contains(k) by {
                let m = choose|m: int| 0 <= m < keys@.len() && (keys@[m].name@, keys@[m].extension_name@) == k;
                assert(record_key(recs[m]) == k);
            }
            assert forall|k: (Seq<char>, Seq<char>)| record_keys(recs).contains(k) implies key_set(keys@).contains(k) by {
                let m = choose|m: int| 0 <= m < recs.len() && record_key(recs[m]) == k;
                assert((keys@[m].name@, keys@[m].extension_name@) == k);
            }
        }
        let upsert = if fresh.len() == 0 {
            None
        } else {
            Some(fresh)
        };
        CommitPlan { keys, upsert }
    }

    /// Ends an indexing call with the outcome of the upsert (`Ok` where there
    /// was nothing to write): on success every candidate identity in `keys`
    /// counts as indexed; a store failure becomes an internal error.
    pub fn finish_index(&mut self, keys: &Vec<ToolKey>, outcome: Result<(), String>) -> (r: Result<
        (),
        RouterError,
    >)
        requires
            old(self).wf(),
        ensures
            final(self).wf(),
            final(self).calls() == old(self).calls(),
            final(self).table() == old(self).table(),
            final(self).source() == old(self).source(),
            match outcome {
                Ok(_) => r is Ok && final(self).indexed_keys() == old(self).indexed_keys().union(
                    key_set(keys@),
                ),
                Err(e) => r is Err && r->Err_0.kind == ErrorKind::InternalError
                    && r->Err_0.message@ == "Failed to index tools: "@ + e@
                    && final(self).indexed_keys() == old(self).indexed_keys(),
            },
    {
        match outcome {
            Err(e) => Err(
                RouterError::with_detail(ErrorKind::InternalError, "Failed to index tools: ", e.as_str()),
            ),
            Ok(_) => {
                let ghost start = self.indexed_keys();
                let mut i: usize = 0;
                while i < keys.len()
                    invariant
                        self.wf(),
                        self.calls() == old(self).calls(),
                        self.table() == old(self).table(),
                        self.source() == old(self).source(),
                        start == old(self).indexed_keys(),
                        i <= keys@.len(),
                        self.indexed_keys() == start.union(key_set(keys@.subrange(0, i as int))),
                    decreases keys@.len() - i,
                {
                    let k = &keys[i];
                    let ghost before = self.keys@;
                    if !holds_key(&self.keys, &k.name, &k.extension_name) {
                        let copy = ToolKey { name: k.name.clone(), extension_name: k.extension_name.clone() };
                        self.keys.push(copy);
                        proof {
                            lemma_key_set_push(before, copy);
                        }
                    } else {
                        assert(key_set(before).insert((k.name@, k.extension_name@)) =~= key_set(before));
                    }
                    proof {
                        assert(keys@.subrange(0, i + 1) =~= keys@.subrange(0, i as int).push(*k));
                        lemma_key_set_push(keys@.subrange(0, i as int), *k);
                    }
                    i = i + 1;
                }
                assert(keys@.subrange(0, keys@.len() as int) =~= keys@);
                Ok(())
            },
        }
    }
}

impl VectorToolSelector {
    /// Starts a selection for request `q`: the search to run, or why none runs.
    pub fn select_query(&self, q: &SelectionQuery, supports_embeddings: bool) -> (r: Result<
        SearchRequest,
        RouterError,
    >)
        ensures
            search_start(
                opt_text(q.query),
                q.k,
                opt_text(q.extension_name),
                supports_embeddings,
                r,
            ),
    {
        match &q.query {
            None => Err(RouterError::new(ErrorKind::InvalidParams, "Missing 'query' parameter")),
            Some(query) => {
                if !supports_embeddings {
                    return Err(
                        RouterError::new(
                            ErrorKind::InternalError,
                            "Embedding provider does not support embeddings",
                        ),
                    );
                }
                let extension_name = match &q.extension_name {
                    Some(e) => Some(e.clone()),
                    None => None,
                };
                Ok(SearchRequest { text: query.clone(), k: q.k, extension_name })
            },
        }
    }

    /// Starts a selection for the JSON request `params`, which holds `query`
    /// and, optionally, `k` and `extension_name`.
    pub fn select_tools(&self, params: &serde_json::Value, supports_embeddings: bool) -> (r: Result<
        SearchRequest,
        RouterError,
    >)
        ensures
            search_start(
                str_member(*params, "query"@),
                k_member(*params),
                str_member(*params, "extension_name"@),
                supports_embeddings,
                r,
            ),
    {
        let q = SelectionQuery::from_params(params);
        self.select_query(&q, supports_embeddings)
    }

    /// Ends an embedding-and-search selection: the block of each hit that
    /// the store returned, in the store's order.
    pub fn render_hits<V>(hits: Result<Vec<ToolRecord<V>>, String>) -> (r: Result<
        Vec<String>,
        RouterError,
    >)
        ensures
            match hits {
                Err(e) => r is Err && r->Err_0.kind == ErrorKind::InternalError && r->Err_0.message@
                    == "Failed to search tools: "@ + e@,
                Ok(h) => r is Ok && texts(r->Ok_0@) == hit_blocks(h@),
            },
    {
        match hits {
            Err(e) => Err(
                RouterError::with_detail(ErrorKind::InternalError, "Failed to search tools: ", e.as_str()),
            ),
            Ok(h) => {
                let mut r: Vec<String> = Vec::new();
                let mut i: usize = 0;
                while i < h.len()
                    invariant
                        i <= h@.len(),
                        texts(r@) == hit_blocks(h@.subrange(0, i as int)),
                    decreases h@.len() - i,
                {
                    let rec = &h[i];
                    let b = ToolEntry {
                        name: rec.tool_name.clone(),
                        description: rec.description.clone(),
                        schema: rec.schema.clone(),
                    }.block();
                    let ghost before = texts(r@);
                    r.push(b);
                    assert(texts(r@) =~= before.push(b@));
                    assert(hit_blocks(h@.subrange(0, i + 1)) =~= hit_blocks(h@.subrange(0, i as int)).push(b@));
                    i = i + 1;
                }
                assert(h@.subrange(0, h@.len() as int) =~= h@);
                Ok(r)
            },
        }
    }

    /// Ends a store removal of `tool_name`: on success no identity with that
    /// name counts as indexed; a store failure becomes an internal error.
    pub fn finish_remove(&mut self, tool_name: &str, outcome: Result<(), String>) -> (r: Result<
        (),
        RouterError,
    >)
        requires
            old(self).wf(),
        ensures
            final(self).wf(),
            final(self).calls() == old(self).calls(),
            final(self).table() == old(self).table(),
            final(self).source() == old(self).source(),
            match outcome {
                Ok(_) => r is Ok && final(self).indexed_keys() == old(self).indexed_keys().filter(
                    |k: (Seq<char>, Seq<char>)| k.0 != tool_name@,
                ),
                Err(e) => r is Err && r->Err_0.kind == ErrorKind::InternalError
                    && r->Err_0.message@ == "Failed to remove tool "@ + tool_name@ + ": "@ + e@
                    && final(self).indexed_keys() == old(self).indexed_keys(),
            },
    {
        match outcome {
            Err(e) => {
                let mut message = String::from_str("Failed to remove tool ");
                message.append(tool_name);
                message.append(": ");
                message.append(e.as_str());
                Err(RouterError { kind: ErrorKind::InternalError, message })
            },
            Ok(_) => {
                let name = String::from_str(tool_name);
                let ghost old_keys = self.keys@;
                let mut kept: Vec<ToolKey> = Vec::new();
                let mut i: usize = 0;
                while i < self.keys.len()
                    invariant
                        self.keys@ == old_keys,
                        name@ == tool_name@,
                        i <= old_keys.len(),
                        key_set(kept@) == key_set(old_keys.subrange(0, i as int)).filter(
                            |k: (Seq<char>, Seq<char>)| k.0 != tool_name@,
                        ),
                    decreases old_keys.len() - i,
                {
                    let k = &self.keys[i];
                    let ghost pre = old_keys.subrange(0, i as int);
                    assert(old_keys.subrange(0, i + 1) =~= pre.push(*k));
                    proof {
                        lemma_key_set_push(pre, *k);
                    }
                    if k.name != name {
                        let copy = ToolKey { name: k.name.clone(), extension_name: k.extension_name.clone() };
                        let ghost kb = kept@;
                        kept.push(copy);
                        proof {
                            lemma_key_set_push(kb, copy);
                        }
                        assert(key_set(kept@) =~= key_set(old_keys.subrange(0, i + 1)).filter(
                            |k: (Seq<char>, Seq<char>)| k.0 != tool_name@,
                        ));
                    } else {
                        assert(key_set(kept@) =~= key_set(old_keys.subrange(0, i + 1)).filter(
                            |k: (Seq<char>, Seq<char>)| k.0 != tool_name@,
                        ));
                    }
                    i = i + 1;
                }
                assert(old_keys.subrange(0, old_keys.len() as int) =~= old_keys);
                self.keys = kept;
                Ok(())
            },
        }
    }

    /// Records a call of `tool_name` in the history.
    pub fn record_tool_call(&mut self, tool_name: &str) -> (r: Result<(), RouterError>)
        requires
            old(self).wf(),
        ensures
            r is Ok,
            final(self).wf(),
            final(self).calls() == recorded(old(self).calls(), tool_name@),
            final(self).indexed_keys() == old(self).indexed_keys(),
            final(self).table() == old(self).table(),
            final(self).source() == old(self).source(),
    {
        self.history.record(tool_name);
        Ok(())
    }

    /// At most `limit` recorded calls, the most recent first.
    pub fn get_recent_tool_calls(&self, limit: usize) -> (r: Result<Vec<String>, RouterError>)
        ensures
            r is Ok,
            texts(r->Ok_0@) == newest_first(self.calls(), limit as nat),
    {
        Ok(self.history.recent(limit))
    }
}

/// The names that the probe for one candidate record found; a failed probe
/// becomes an internal error.
pub fn probe_outcome(hits: Result<Vec<String>, String>) -> (r: Result<Vec<String>, RouterError>)
    ensures
        match hits {
            Ok(names) => r is Ok && r->Ok_0 == names,
            Err(e) => r is Err && r->Err_0.kind == ErrorKind::InternalError && r->Err_0.message@
                == "Failed to search for existing tools: "@ + e@,
        },
{
    match hits {
        Ok(names) => Ok(names),
        Err(e) => Err(
            RouterError::with_detail(
                ErrorKind::InternalError,
                "Failed to search for existing tools: ",
                e.as_str(),
            ),
        ),
    }
}

/// The query's embedding: the first of those returned; a failed call, or
/// one that returned none, becomes an internal error.
pub fn query_embedding<V>(embeddings: Result<Vec<V>, String>) -> (r: Result<V, RouterError>)
    ensures
        match embeddings {
            Err(e) => r is Err && r->Err_0.kind == ErrorKind::InternalError && r->Err_0.message@
                == "Failed to generate query embedding: "@ + e@,
            Ok(vs) => if vs@.len() == 0 {
                r is Err && r->Err_0.kind == ErrorKind::InternalError && r->Err_0.message@
                    == "No embedding returned"@
            } else {
                r is Ok && r->Ok_0 == vs@[0]
            },
        },
{
    match embeddings {
        Err(e) => Err(
            RouterError::with_detail(
                ErrorKind::InternalError,
                "Failed to generate query embedding: ",
                e.as_str(),
            ),
        ),
        Ok(vs) => {
            let mut vs = vs;
            if vs.len() == 0 {
                Err(RouterError::new(ErrorKind::InternalError, "No embedding returned"))
            } else {
                Ok(vs.swap_remove(0))
            }
        },
    }
}

proof fn lemma_none_new_when_indexed<V>(
    idx: Set<(Seq<char>, Seq<char>)>,
    recs: Seq<ToolRecord<V>>,
    found: Seq<Seq<Seq<char>>>,
)
    requires
        forall|i: int| 0 <= i < recs.len() ==> idx.contains(#[trigger] record_key(recs[i])),
    ensures
        new_records(idx, recs, found).len() == 0,
    decreases recs.len(),
{
    if recs.len() > 0 {
        let prev = recs.drop_last();
        assert forall|i: int| 0 <= i < prev.len() implies idx.contains(#[trigger] record_key(prev[i])) by {
            assert(prev[i] == recs[i]);
        }
        lemma_none_new_when_indexed(idx, prev, found);
        assert(idx.contains(record_key(recs[recs.len() - 1])));
    }
}

/// Once an indexing call has committed its candidates, a second call with
/// the same tools under the same extension writes nothing, whatever the
/// store's probes return.
pub proof fn lemma_vector_indexing_idempotent<V>(
    idx: Set<(Seq<char>, Seq<char>)>,
    first: Seq<ToolRecord<V>>,
    second: Seq<ToolRecord<V>>,
    found: Seq<Seq<Seq<char>>>,
)
    requires
        second.len() == first.len(),
        forall|i: int| 0 <= i < first.len() ==> record_key(#[trigger] second[i]) == record_key(first[i]),
    ensures
        new_records(idx.union(record_keys(first)), second, found).len() == 0,
{
    let all = idx.union(record_keys(first));
    assert forall|i: int| 0 <= i < second.len() implies all.contains(#[trigger] record_key(second[i])) by {
        assert(record_keys(first).contains(record_key(first[i])));
    }
    lemma_none_new_when_indexed(all, second, found);
}

/// Scoping is the store's filter: the search of a selection scoped to `ext`
/// names `ext` (see `search_start`), and where the store honours that filter
/// every block that the selection returns is the block of a hit of `ext`.
pub proof fn lemma_vector_scoping<V>(hits: Seq<ToolRecord<V>>, ext: Seq<char>)
    requires
        forall|j: int| 0 <= j < hits.len() ==> (#[trigger] hits[j]).extension_name@ == ext,
    ensures
        forall|i: int|
            0 <= i < hit_blocks(hits).len() ==> block_from_scope(
                hits,
                ext,
                #[trigger] hit_blocks(hits)[i],
            ),
{
    assert forall|i: int| 0 <= i < hit_blocks(hits).len() implies block_from_scope(
        hits,
        ext,
        #[trigger] hit_blocks(hits)[i],
    ) by {
        assert(hits[i].extension_name@ == ext);
    }
}

/// `b` is the block of a hit that belongs to `ext`.
pub open spec fn block_from_scope<V>(hits: Seq<ToolRecord<V>>, ext: Seq<char>, b: Seq<char>) -> bool {
    exists|j: int|
        0 <= j < hits.len() && hits[j].extension_name@ == ext && b == tool_block(
            hits[j].tool_name@,
            hits[j].description@,
            hits[j].schema@,
        )
}

/// A search of a store that holds no tools selects nothing and fails not.
pub proof fn lemma_empty_store_selects_nothing<V>()
    ensures
        hit_blocks(Seq::<ToolRecord<V>>::empty()) == Seq::<Seq<char>>::empty(),
{
    assert(hit_blocks(Seq::<ToolRecord<V>>::empty()) =~= Seq::<Seq<char>>::empty());
}

} // verus!
