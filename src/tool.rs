use vstd::prelude::*;

verus! {

#[verifier::external_type_specification]
#[verifier::external_body]
pub struct ExJsonValue(serde_json::Value);

#[verifier::external_type_specification]
#[verifier::external_body]
pub struct ExJsonError(serde_json::Error);

/// The indented JSON text of a document, where it can be written.
pub uninterp spec fn pretty_of(v: serde_json::Value) -> Option<Seq<char>>;

/// The member `key` of a JSON object; none for another value or a missing key.
pub uninterp spec fn member_of(v: serde_json::Value, key: Seq<char>) -> Option<serde_json::Value>;

/// The text of a JSON string; none for another value.
pub uninterp spec fn str_of(v: serde_json::Value) -> Option<Seq<char>>;

/// A JSON number that fits in a `u64`; none for another value.
pub uninterp spec fn u64_of(v: serde_json::Value) -> Option<u64>;

/// Relies on `serde_json::to_string_pretty`: the document as indented JSON text.
#[verifier::external_body]
fn pretty_json(v: &serde_json::Value) -> (r: Result<String, serde_json::Error>)
    ensures
        match r {
            Ok(s) => pretty_of(*v) == Some(s@),
            Err(_) => pretty_of(*v) is None,
        },
{
    serde_json::to_string_pretty(v)
}

/// Relies on `serde_json::Value::get` with a string key: the member of an object.
#[verifier::external_body]
fn json_member<'a>(v: &'a serde_json::Value, key: &str) -> (r: Option<&'a serde_json::Value>)
    ensures
        match r {
            Some(m) => member_of(*v, key@) == Some(*m),
            None => member_of(*v, key@) is None,
        },
{
    v.get(key)
}

/// Relies on `serde_json::Value::as_str`: the text of a JSON string.
#[verifier::external_body]
fn json_as_str(v: &serde_json::Value) -> (r: Option<String>)
    ensures
        opt_text(r) == str_of(*v),
{
    v.as_str().map(|s| s.to_string())
}

/// Relies on `serde_json::Value::as_u64`: a JSON number that fits in a `u64`.
#[verifier::external_body]
fn json_as_u64(v: &serde_json::Value) -> (r: Option<u64>)
    ensures
        r == u64_of(*v),
{
    v.as_u64()
}

/// The text of the string member `key` of `v`, if it has one.
pub open spec fn str_member(v: serde_json::Value, key: Seq<char>) -> Option<Seq<char>> {
    match member_of(v, key) {
        Some(m) => str_of(m),
        None => None,
    }
}

/// The result cap that a request `v` asks for: its member `k` where that is
/// an unsigned integer, `DEFAULT_K` otherwise.
pub open spec fn k_member(v: serde_json::Value) -> usize {
    match member_of(v, "k"@) {
        Some(m) => match u64_of(m) {
            Some(n) => n as usize,
            None => DEFAULT_K,
        },
        None => DEFAULT_K,
    }
}

/// The schema as the catalog shows it: indented JSON, or `{}`.
pub open spec fn schema_text_of(v: serde_json::Value) -> Seq<char> {
    match pretty_of(v) {
        Some(t) => t,
        None => "{}"@,
    }
}

/// A tool as both backends index it: name, description or nothing, schema text.
pub open spec fn descriptor_entry(t: ToolDescriptor) -> (Seq<char>, Seq<char>, Seq<char>) {
    (t.name@, description_text(t.description), schema_text_of(t.input_schema))
}

/// The indexed form of a list of tools.
pub open spec fn descriptors_view(ts: Seq<ToolDescriptor>) -> Seq<(Seq<char>, Seq<char>, Seq<char>)> {
    ts.map_values(|t: ToolDescriptor| descriptor_entry(t))
}

/// How many results a selection asks for when it does not say.
pub const DEFAULT_K: usize = 5;

/// A tool as an extension declares it.
pub struct ToolDescriptor {
    pub name: String,
    pub description: Option<String>,
    pub input_schema: serde_json::Value,
}

/// The text of an optional description, empty when there is none.
pub open spec fn description_text(d: Option<String>) -> Seq<char> {
    match d {
        Some(s) => s@,
        None => Seq::empty(),
    }
}

/// The line that opens the block of the tool named `name`.
pub open spec fn tool_marker(name: Seq<char>) -> Seq<char> {
    "Tool: "@ + name
}

/// The block that shows one tool: its name, description and schema.
pub open spec fn tool_block(name: Seq<char>, description: Seq<char>, schema: Seq<char>) -> Seq<
    char,
> {
    tool_marker(name) + "\nDescription: "@ + description + "\nSchema: "@ + schema
}

/// The text embedded for one tool: name, description and schema, space separated.
pub open spec fn embedding_text_of(name: Seq<char>, description: Seq<char>, schema: Seq<char>) -> Seq<
    char,
> {
    name + " "@ + description + " "@ + schema
}

/// A tool with its schema rendered as text: what both backends index.
pub struct ToolEntry {
    pub name: String,
    pub description: String,
    pub schema: String,
}

impl View for ToolEntry {
    type V = (Seq<char>, Seq<char>, Seq<char>);

    open spec fn view(&self) -> (Seq<char>, Seq<char>, Seq<char>) {
        (self.name@, self.description@, self.schema@)
    }
}

/// The views of a list of entries.
pub open spec fn entries_view(es: Seq<ToolEntry>) -> Seq<(Seq<char>, Seq<char>, Seq<char>)> {
    es.map_values(|e: ToolEntry| e@)
}

impl ToolDescriptor {
    /// The input schema as indented JSON, or `{}` where it cannot be written.
    pub fn schema_text(&self) -> (r: String)
        ensures
            r@ == schema_text_of(self.input_schema),
    {
        match pretty_json(&self.input_schema) {
            Ok(s) => s,
            Err(_) => {
                proof {
                    reveal_strlit("{}");
                }
                String::from_str("{}")
            },
        }
    }

    /// The description, empty when there is none.
    pub fn description_or_empty(&self) -> (r: String)
        ensures
            r@ == description_text(self.description),
    {
        match &self.description {
            Some(d) => d.clone(),
            None => String::new(),
        }
    }
}

impl ToolEntry {
    /// The entry for `tool`: its name, its description or nothing, its schema as text.
    pub fn from_descriptor(tool: &ToolDescriptor) -> (r: ToolEntry)
        ensures
            r@ == descriptor_entry(*tool),
    {
        ToolEntry {
            name: tool.name.clone(),
            description: tool.description_or_empty(),
            schema: tool.schema_text(),
        }
    }

    /// The entries for `tools`, in order.
    pub fn from_descriptors(tools: &Vec<ToolDescriptor>) -> (r: Vec<ToolEntry>)
        ensures
            entries_view(r@) == descriptors_view(tools@),
    {
        let mut r: Vec<ToolEntry> = Vec::new();
        let mut i: usize = 0;
        while i < tools.len()
            invariant
                i <= tools@.len(),
                entries_view(r@) == descriptors_view(tools@.subrange(0, i as int)),
            decreases tools@.len() - i,
        {
            let e = ToolEntry::from_descriptor(&tools[i]);
            let ghost before = entries_view(r@);
            r.push(e);
            assert(entries_view(r@) =~= before.push(e@));
            assert(descriptors_view(tools@.subrange(0, i + 1)) =~= descriptors_view(
                tools@.subrange(0, i as int),
            ).push(descriptor_entry(tools@[i as int])));
            i = i + 1;
        }
        assert(tools@.subrange(0, tools@.len() as int) =~= tools@);
        r
    }

    /// The line that opens this tool's block.
    pub fn marker(&self) -> (r: String)
        ensures
            r@ == tool_marker(self.name@),
    {
        let mut r = String::from_str("Tool: ");
        r.append(self.name.as_str());
        r
    }

    /// The block that shows this tool.
    pub fn block(&self) -> (r: String)
        ensures
            r@ == tool_block(self.name@, self.description@, self.schema@),
    {
        let mut r = self.marker();
        r.append("\nDescription: ");
        r.append(self.description.as_str());
        r.append("\nSchema: ");
        r.append(self.schema.as_str());
        r
    }

    /// The text that stands for this tool in the embedding space.
    pub fn embedding_text(&self) -> (r: String)
        ensures
            r@ == embedding_text_of(self.name@, self.description@, self.schema@),
    {
        let mut r = self.name.clone();
        r.append(" ");
        r.append(self.description.as_str());
        r.append(" ");
        r.append(self.schema.as_str());
        r
    }
}

/// The view of an optional text.
pub open spec fn opt_text(o: Option<String>) -> Option<Seq<char>> {
    match o {
        Some(s) => Some(s@),
        None => None,
    }
}

/// A selection request: the query, how many results, and the extension
/// that the search is restricted to.
pub struct SelectionQuery {
    pub query: Option<String>,
    pub k: usize,
    pub extension_name: Option<String>,
}

impl SelectionQuery {
    /// Reads `query`, `k` and `extension_name` from a JSON object; `k` is
    /// `DEFAULT_K` where it is absent or no unsigned integer.
    pub fn from_params(params: &serde_json::Value) -> (r: SelectionQuery)
        ensures
            opt_text(r.query) == str_member(*params, "query"@),
            r.k == k_member(*params),
            opt_text(r.extension_name) == str_member(*params, "extension_name"@),
    {
        let query = match json_member(params, "query") {
            Some(v) => json_as_str(v),
            None => None,
        };
        let k = match json_member(params, "k") {
            Some(v) => match json_as_u64(v) {
                Some(n) => n as usize,
                None => DEFAULT_K,
            },
            None => DEFAULT_K,
        };
        let extension_name = match json_member(params, "extension_name") {
            Some(v) => json_as_str(v),
            None => None,
        };
        SelectionQuery { query, k, extension_name }
    }
}

} // verus!
