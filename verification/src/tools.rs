//! The tool capability registry and the built-in capabilities.
//!
//! A capability advertises its name, purpose and argument schema, and turns
//! an argument payload plus the outcome of its side effect into a
//! `ToolResult`. The side effects themselves (process spawn, file and
//! directory access) run outside this library; everything around them —
//! argument validation, result text, metadata, filtering and ordering — is
//! verified here.

use vstd::prelude::*;
use vstd::string::*;
use crate::codec::{
    JsonValue, JsonVal, get_field_spec, get_str_field, dup_value, int_to_string, ser_int,
    jv_fields, jv_elems, obj1, obj2, obj3, str_val,
};
use crate::strutil::{
    str_eq, str_contains, contains_sub, sort_strings, join_lines, join_lines_spec, views_of,
    lex_sorted,
};

verus! {

/// What a capability advertises to the model.
#[derive(Debug)]
pub struct ToolDefinition {
    pub name: String,
    pub description: String,
    pub parameters: JsonValue,
}

#[verifier::ext_equal]
pub struct ToolDefinitionV {
    pub name: Seq<char>,
    pub description: Seq<char>,
    pub parameters: JsonVal,
}

impl View for ToolDefinition {
    type V = ToolDefinitionV;

    open spec fn view(&self) -> ToolDefinitionV {
        ToolDefinitionV {
            name: self.name@,
            description: self.description@,
            parameters: self.parameters@,
        }
    }
}

/// What one invocation produced: whether the operation succeeded, the text
/// surfaced back into the conversation, and a diagnostic payload that is
/// not shown to the model.
#[derive(Debug)]
pub struct ToolResult {
    pub success: bool,
    pub output: String,
    pub metadata: JsonValue,
}

#[verifier::ext_equal]
pub struct ToolResultV {
    pub success: bool,
    pub output: Seq<char>,
    pub metadata: JsonVal,
}

impl View for ToolResult {
    type V = ToolResultV;

    open spec fn view(&self) -> ToolResultV {
        ToolResultV { success: self.success, output: self.output@, metadata: self.metadata@ }
    }
}

/// The diagnostic payload of a command audit record.
pub fn command_metadata(tool_name: &String, output: &String) -> (r: JsonValue)
    ensures
        r@ == JsonVal::Obj(
            seq![
                ("tool"@, JsonVal::Str(tool_name@)),
                ("result"@, JsonVal::Str(output@)),
            ],
        ),
{
    obj2("tool", str_val(tool_name.as_str()), "result", str_val(output.as_str()))
}

// ---------------------------------------------------------------------------
// The registry.
// ---------------------------------------------------------------------------

/// The views of the registered definitions.
pub open spec fn def_views(s: Seq<ToolDefinition>) -> Seq<ToolDefinitionV> {
    Seq::new(s.len(), |i: int| s[i]@)
}

/// The first registered definition under `name`.
pub open spec fn find_def(defs: Seq<ToolDefinitionV>, name: Seq<char>) -> Option<ToolDefinitionV>
    decreases defs.len(),
{
    if defs.len() == 0 {
        None
    } else if defs[0].name == name {
        Some(defs[0])
    } else {
        find_def(defs.drop_first(), name)
    }
}

/// The set of named capabilities the orchestrator can invoke. Dispatch
/// against a name that is not registered fails with the orchestrator's
/// tool-not-found error.
pub struct ToolRegistry {
    defs: Vec<ToolDefinition>,
}

impl View for ToolRegistry {
    type V = Seq<ToolDefinitionV>;

    closed spec fn view(&self) -> Seq<ToolDefinitionV> {
        def_views(self.defs@)
    }
}

impl ToolRegistry {
    /// A registry holding the four built-in capabilities.
    pub fn new() -> (r: ToolRegistry)
        ensures
            r@ =~= seq![
                bash_definition(),
                read_definition(),
                write_definition(),
                list_definition(),
            ],
    {
        let mut defs: Vec<ToolDefinition> = Vec::new();
        defs.push(BashTool.definition());
        defs.push(ReadTool.definition());
        defs.push(WriteTool.definition());
        defs.push(ListTool.definition());
        ToolRegistry { defs }
    }

    /// Registers a capability: a definition under the same name is
    /// replaced, a new name is appended.
    pub fn register(&mut self, def: ToolDefinition)
        ensures
            find_def(final(self)@, def@.name) == Some(def@),
            final(self)@.len() <= old(self)@.len() + 1,
    {
        let ghost pre = self@;
        let mut i: usize = 0;
        while i < self.defs.len()
            invariant
                pre == def_views(self.defs@),
                pre == old(self)@,
                i <= self.defs@.len(),
                forall|m: int| 0 <= m < i ==> (#[trigger] pre[m].name) != def@.name,
            decreases self.defs@.len() - i,
        {
            if str_eq(self.defs[i].name.as_str(), def.name.as_str()) {
                let ghost k = i as int;
                let ghost dv = def@;
                self.defs.set(i, def);
                proof {
                    let post = def_views(self.defs@);
                    assert(post.len() == pre.len());
                    assert(post[k] == dv);
                    assert(post[k].name == pre[k].name);
                    assert forall|m: int| 0 <= m < k implies (#[trigger] post[m].name)
                        != post[k].name by {
                        assert(post[m] == pre[m]);
                    }
                    lemma_find_def_at(post, k);
                }
                return ;
            }
            i = i + 1;
        }
        let ghost k = self.defs@.len() as int;
        let ghost dv = def@;
        self.defs.push(def);
        proof {
            let post = def_views(self.defs@);
            assert(post[k] == dv);
            assert forall|m: int| 0 <= m < k implies (#[trigger] post[m].name) != post[k].name by {
                assert(post[m] == pre[m]);
            }
            lemma_find_def_at(post, k);
        }
    }

    /// The definition registered under `name`.
    pub fn get(&self, name: &str) -> (r: Option<&ToolDefinition>)
        ensures
            match r {
                Some(d) => find_def(self@, name@) == Some(d@),
                None => find_def(self@, name@) is None,
            },
    {
        let ghost all = self@;
        proof {
            assert(all.skip(0) =~= all);
        }
        let mut i: usize = 0;
        while i < self.defs.len()
            invariant
                all == def_views(self.defs@),
                i <= self.defs@.len(),
                find_def(all, name@) == find_def(all.skip(i as int), name@),
            decreases self.defs@.len() - i,
        {
            proof {
                assert(all.skip(i as int)[0] == all[i as int]);
                assert(all.skip(i as int).drop_first() =~= all.skip(i as int + 1));
            }
            if str_eq(self.defs[i].name.as_str(), name) {
                return Some(&self.defs[i]);
            }
            i = i + 1;
        }
        proof {
            assert(all.skip(self.defs@.len() as int) =~= Seq::<ToolDefinitionV>::empty());
        }
        None
    }

    /// The advertised definitions, as handed to the capability provider.
    pub fn list(&self) -> (r: Vec<ToolDefinition>)
        ensures
            def_views(r@) == self@,
    {
        let mut out: Vec<ToolDefinition> = Vec::new();
        let mut i: usize = 0;
        while i < self.defs.len()
            invariant
                i <= self.defs@.len(),
                def_views(out@) == def_views(self.defs@).subrange(0, i as int),
            decreases self.defs@.len() - i,
        {
            let d = &self.defs[i];
            let copy = ToolDefinition {
                name: String::from_str(d.name.as_str()),
                description: String::from_str(d.description.as_str()),
                parameters: dup_value(&d.parameters),
            };
            proof {
                assert(copy@ =~= self.defs@[i as int]@);
            }
            let ghost pre_out = out@;
            let ghost cv = copy@;
            out.push(copy);
            proof {
                assert(out@ == pre_out.push(copy));
                assert(def_views(pre_out).len() == pre_out.len());
                assert(def_views(self.defs@).subrange(0, i as int).len() == i as int);
                assert(pre_out.len() == i as int);
                assert forall|m: int| 0 <= m < out@.len() implies def_views(out@)[m] == def_views(
                    self.defs@,
                ).subrange(0, i as int + 1)[m] by {
                    if m < i as int {
                        assert(pre_out.push(copy)[m] == pre_out[m]);
                        assert(def_views(pre_out)[m] == def_views(self.defs@).subrange(
                            0,
                            i as int,
                        )[m]);
                    } else {
                        assert(pre_out.push(copy)[m] == copy);
                        assert(out@[m]@ == cv);
                    }
                }
                assert(def_views(out@) =~= def_views(self.defs@).subrange(0, i as int + 1));
            }
            i = i + 1;
        }
        proof {
            assert(def_views(self.defs@).subrange(0, self.defs@.len() as int) =~= def_views(
                self.defs@,
            ));
        }
        out
    }
}

proof fn lemma_find_def_at(defs: Seq<ToolDefinitionV>, k: int)
    requires
        0 <= k < defs.len(),
        forall|m: int| 0 <= m < k ==> (#[trigger] defs[m].name) != defs[k].name,
    ensures
        find_def(defs, defs[k].name) == Some(defs[k]),
    decreases k,
{
    if k == 0 {
    } else {
        assert(defs.drop_first()[k - 1] == defs[k]);
        assert forall|m: int| 0 <= m < k - 1 implies (#[trigger] defs.drop_first()[m].name)
            != defs.drop_first()[k - 1].name by {
            assert(defs.drop_first()[m] == defs[m + 1]);
        }
        lemma_find_def_at(defs.drop_first(), k - 1);
    }
}

// ---------------------------------------------------------------------------
// Schema building blocks.
// ---------------------------------------------------------------------------

/// The schema of one string-typed parameter.
pub open spec fn str_prop_spec(desc: Seq<char>) -> JsonVal {
    JsonVal::Obj(
        seq![("type"@, JsonVal::Str("string"@)), ("description"@, JsonVal::Str(desc))],
    )
}

fn str_prop(desc: &str) -> (r: JsonValue)
    ensures
        r@ == str_prop_spec(desc@),
{
    obj2("type", str_val("string"), "description", str_val(desc))
}

/// An object schema over the given properties, with the given required
/// names.
pub open spec fn schema_spec(
    props: Seq<(Seq<char>, JsonVal)>,
    required: Seq<Seq<char>>,
) -> JsonVal {
    JsonVal::Obj(
        seq![
            ("type"@, JsonVal::Str("object"@)),
            ("properties"@, JsonVal::Obj(props)),
            ("required"@, JsonVal::Arr(Seq::new(required.len(), |i: int| JsonVal::Str(required[i])))),
        ],
    )
}

fn schema(props: Vec<(String, JsonValue)>, required: Vec<String>) -> (r: JsonValue)
    ensures
        r@ == schema_spec(jv_fields(props@), crate::strutil::views_of(required@)),
{
    let ghost propsv = jv_fields(props@);
    let ghost reqv = views_of(required@);
    let mut req_items: Vec<JsonValue> = Vec::new();
    let mut i: usize = 0;
    while i < required.len()
        invariant
            reqv == views_of(required@),
            i <= required@.len(),
            jv_elems(req_items@) == Seq::new(i as nat, |m: int| JsonVal::Str(reqv[m])),
        decreases required@.len() - i,
    {
        let ghost pre_items = req_items@;
        let item = JsonValue::Str(String::from_str(required[i].as_str()));
        req_items.push(item);
        proof {
            assert(reqv[i as int] == required@[i as int]@);
            assert(req_items@ == pre_items.push(item));
            assert(jv_elems(pre_items) == Seq::new(i as nat, |m: int| JsonVal::Str(reqv[m])));
            assert(jv_elems(pre_items).len() == pre_items.len());
            assert(Seq::new(i as nat, |m: int| JsonVal::Str(reqv[m])).len() == i as nat);
            assert(pre_items.len() == i as int);
            assert forall|m: int| 0 <= m < req_items@.len() implies jv_elems(req_items@)[m]
                == JsonVal::Str(reqv[m]) by {
                if m < i as int {
                    assert(pre_items.push(item)[m] == pre_items[m]);
                    assert(jv_elems(pre_items)[m] == JsonVal::Str(reqv[m]));
                } else {
                    assert(pre_items.push(item)[m] == item);
                }
            }
            assert(jv_elems(req_items@) =~= Seq::new(
                i as nat + 1,
                |m: int| JsonVal::Str(reqv[m]),
            ));
        }
        i = i + 1;
    }
    let r = obj3(
        "type",
        str_val("object"),
        "properties",
        JsonValue::Obj(props),
        "required",
        JsonValue::Arr(req_items),
    );
    proof {
        assert(Seq::new(required@.len(), |m: int| JsonVal::Str(reqv[m])) =~= Seq::new(
            reqv.len(),
            |m: int| JsonVal::Str(reqv[m]),
        ));
        assert(r@ =~= schema_spec(propsv, reqv));
    }
    r
}

// ---------------------------------------------------------------------------
// The built-in capabilities.
// ---------------------------------------------------------------------------

/// The four built-in capabilities, as dispatch targets.
#[derive(Debug, Clone, Copy, PartialEq, Eq, Structural)]
pub enum BuiltinTool {
    Bash,
    Read,
    Write,
    List,
}

/// The built-in capability a name stands for.
pub open spec fn builtin_of_name(name: Seq<char>) -> Option<BuiltinTool> {
    if name == "bash"@ {
        Some(BuiltinTool::Bash)
    } else if name == "read"@ {
        Some(BuiltinTool::Read)
    } else if name == "write"@ {
        Some(BuiltinTool::Write)
    } else if name == "list"@ {
        Some(BuiltinTool::List)
    } else {
        None
    }
}

/// Resolves a name to the built-in capability it names.
pub fn builtin_of(name: &str) -> (r: Option<BuiltinTool>)
    ensures
        r == builtin_of_name(name@),
{
    if str_eq(name, "bash") {
        Some(BuiltinTool::Bash)
    } else if str_eq(name, "read") {
        Some(BuiltinTool::Read)
    } else if str_eq(name, "write") {
        Some(BuiltinTool::Write)
    } else if str_eq(name, "list") {
        Some(BuiltinTool::List)
    } else {
        None
    }
}

/// Runs a shell command and reports its exit code and captured streams.
#[derive(Debug)]
pub struct BashTool;

/// Reads a whole file as text.
#[derive(Debug)]
pub struct ReadTool;

/// Writes text to a file, creating parent directories as needed.
#[derive(Debug)]
pub struct WriteTool;

/// Lists the entries of a directory, optionally filtered, in lexicographic
/// order.
#[derive(Debug)]
pub struct ListTool;

pub open spec fn bash_parameters() -> JsonVal {
    schema_spec(
        seq![("command"@, str_prop_spec("The bash command to execute"@))],
        seq!["command"@],
    )
}

pub open spec fn read_parameters() -> JsonVal {
    schema_spec(
        seq![("path"@, str_prop_spec("The path to the file to read"@))],
        seq!["path"@],
    )
}

pub open spec fn write_parameters() -> JsonVal {
    schema_spec(
        seq![
            ("path"@, str_prop_spec("The path to the file to write"@)),
            ("content"@, str_prop_spec("The content to write to the file"@)),
        ],
        seq!["path"@, "content"@],
    )
}

pub open spec fn list_parameters() -> JsonVal {
    schema_spec(
        seq![
            ("path"@, str_prop_spec("The directory path to list (default: current directory)"@)),
            ("pattern"@, str_prop_spec("Optional substring to filter file names"@)),
        ],
        Seq::empty(),
    )
}

pub open spec fn bash_definition() -> ToolDefinitionV {
    ToolDefinitionV {
        name: "bash"@,
        description: "Execute a bash command and return the output"@,
        parameters: bash_parameters(),
    }
}

pub open spec fn read_definition() -> ToolDefinitionV {
    ToolDefinitionV {
        name: "read"@,
        description: "Read the contents of a file"@,
        parameters: read_parameters(),
    }
}

pub open spec fn write_definition() -> ToolDefinitionV {
    ToolDefinitionV {
        name: "write"@,
        description: "Write content to a file"@,
        parameters: write_parameters(),
    }
}

pub open spec fn list_definition() -> ToolDefinitionV {
    ToolDefinitionV {
        name: "list"@,
        description: "List files in a directory"@,
        parameters: list_parameters(),
    }
}

impl BashTool {
    pub fn name(&self) -> (s: &'static str)
        ensures
            s@ == "bash"@,
    {
        "bash"
    }

    pub fn description(&self) -> (s: &'static str)
        ensures
            s@ == "Execute a bash command and return the output"@,
    {
        "Execute a bash command and return the output"
    }

    pub fn parameters(&self) -> (r: JsonValue)
        ensures
            r@ == bash_parameters(),
    {
        let mut props: Vec<(String, JsonValue)> = Vec::new();
        props.push((String::from_str("command"), str_prop("The bash command to execute")));
        let mut required: Vec<String> = Vec::new();
        required.push(String::from_str("command"));
        let r = schema(props, required);
        proof {
            assert(jv_fields(props@) =~= seq![
                ("command"@, str_prop_spec("The bash command to execute"@)),
            ]);
            assert(views_of(required@) =~= seq!["command"@]);
        }
        r
    }

    pub fn definition(&self) -> (d: ToolDefinition)
        ensures
            d@ == bash_definition(),
    {
        ToolDefinition {
            name: String::from_str(self.name()),
            description: String::from_str(self.description()),
            parameters: self.parameters(),
        }
    }
}

impl ReadTool {
    pub fn name(&self) -> (s: &'static str)
        ensures
            s@ == "read"@,
    {
        "read"
    }

    pub fn description(&self) -> (s: &'static str)
        ensures
            s@ == "Read the contents of a file"@,
    {
        "Read the contents of a file"
    }

    pub fn parameters(&self) -> (r: JsonValue)
        ensures
            r@ == read_parameters(),
    {
        let mut props: Vec<(String, JsonValue)> = Vec::new();
        props.push((String::from_str("path"), str_prop("The path to the file to read")));
        let mut required: Vec<String> = Vec::new();
        required.push(String::from_str("path"));
        let r = schema(props, required);
        proof {
            assert(jv_fields(props@) =~= seq![
                ("path"@, str_prop_spec("The path to the file to read"@)),
            ]);
            assert(views_of(required@) =~= seq!["path"@]);
        }
        r
    }

    pub fn definition(&self) -> (d: ToolDefinition)
        ensures
            d@ == read_definition(),
    {
        ToolDefinition {
            name: String::from_str(self.name()),
            description: String::from_str(self.description()),
            parameters: self.parameters(),
        }
    }
}

impl WriteTool {
    pub fn name(&self) -> (s: &'static str)
        ensures
            s@ == "write"@,
    {
        "write"
    }

    pub fn description(&self) -> (s: &'static str)
        ensures
            s@ == "Write content to a file"@,
    {
        "Write content to a file"
    }

    pub fn parameters(&self) -> (r: JsonValue)
        ensures
            r@ == write_parameters(),
    {
        let mut props: Vec<(String, JsonValue)> = Vec::new();
        props.push((String::from_str("path"), str_prop("The path to the file to write")));
        props.push(
            (String::from_str("content"), str_prop("The content to write to the file")),
        );
        let mut required: Vec<String> = Vec::new();
        required.push(String::from_str("path"));
        required.push(String::from_str("content"));
        let r = schema(props, required);
        proof {
            assert(jv_fields(props@) =~= seq![
                ("path"@, str_prop_spec("The path to the file to write"@)),
                ("content"@, str_prop_spec("The content to write to the file"@)),
            ]);
            assert(views_of(required@) =~= seq!["path"@, "content"@]);
        }
        r
    }

    pub fn definition(&self) -> (d: ToolDefinition)
        ensures
            d@ == write_definition(),
    {
        ToolDefinition {
            name: String::from_str(self.name()),
            description: String::from_str(self.description()),
            parameters: self.parameters(),
        }
    }
}

impl ListTool {
    pub fn name(&self) -> (s: &'static str)
        ensures
            s@ == "list"@,
    {
        "list"
    }

    pub fn description(&self) -> (s: &'static str)
        ensures
            s@ == "List files in a directory"@,
    {
        "List files in a directory"
    }

    pub fn parameters(&self) -> (r: JsonValue)
        ensures
            r@ == list_parameters(),
    {
        let mut props: Vec<(String, JsonValue)> = Vec::new();
        props.push(
            (
                String::from_str("path"),
                str_prop("The directory path to list (default: current directory)"),
            ),
        );
        props.push(
            (
                String::from_str("pattern"),
                str_prop("Optional substring to filter file names"),
            ),
        );
        let required: Vec<String> = Vec::new();
        let r = schema(props, required);
        proof {
            assert(jv_fields(props@) =~= seq![
                (
                    "path"@,
                    str_prop_spec("The directory path to list (default: current directory)"@),
                ),
                ("pattern"@, str_prop_spec("Optional substring to filter file names"@)),
            ]);
            assert(views_of(required@) =~= Seq::<Seq<char>>::empty());
        }
        r
    }

    pub fn definition(&self) -> (d: ToolDefinition)
        ensures
            d@ == list_definition(),
    {
        ToolDefinition {
            name: String::from_str(self.name()),
            description: String::from_str(self.description()),
            parameters: self.parameters(),
        }
    }
}

// ---------------------------------------------------------------------------
// Argument validation and result construction, per capability.
// ---------------------------------------------------------------------------

/// The shell command named in an argument payload; rejected exactly when
/// the payload carries no string under `command`.
pub fn bash_args(args: &JsonValue) -> (r: Result<&String, String>)
    ensures
        match r {
            Ok(c) => get_field_spec(args@, "command"@) == Some(JsonVal::Str(c@)),
            Err(e) => !(get_field_spec(args@, "command"@) matches Some(f) && f is Str) && e@
                == "Missing 'command' argument"@,
        },
{
    match get_str_field(args, "command") {
        Some(c) => Ok(c),
        None => Err(String::from_str("Missing 'command' argument")),
    }
}

/// The path named in an argument payload; rejected exactly when the
/// payload carries no string under `path`.
pub fn path_arg(args: &JsonValue) -> (r: Result<&String, String>)
    ensures
        match r {
            Ok(p) => get_field_spec(args@, "path"@) == Some(JsonVal::Str(p@)),
            Err(e) => !(get_field_spec(args@, "path"@) matches Some(f) && f is Str) && e@
                == "Missing 'path' argument"@,
        },
{
    match get_str_field(args, "path") {
        Some(p) => Ok(p),
        None => Err(String::from_str("Missing 'path' argument")),
    }
}

/// The path and content named in an argument payload; the path is checked
/// first, as the write capability reports it.
pub fn write_args<'a>(args: &'a JsonValue) -> (r: Result<(&'a String, &'a String), String>)
    ensures
        match r {
            Ok(pc) => get_field_spec(args@, "path"@) == Some(JsonVal::Str(pc.0@))
                && get_field_spec(args@, "content"@) == Some(JsonVal::Str(pc.1@)),
            Err(e) => {
                ||| (!(get_field_spec(args@, "path"@) matches Some(f) && f is Str) && e@
                    == "Missing 'path' argument"@)
                ||| (!(get_field_spec(args@, "content"@) matches Some(f) && f is Str) && e@
                    == "Missing 'content' argument"@)
            },
        },
{
    match get_str_field(args, "path") {
        Some(p) => match get_str_field(args, "content") {
            Some(c) => Ok((p, c)),
            None => Err(String::from_str("Missing 'content' argument")),
        },
        None => Err(String::from_str("Missing 'path' argument")),
    }
}

/// The path (default the current directory) and the optional name filter
/// of a listing request.
pub fn list_args<'a>(args: &'a JsonValue) -> (r: (String, Option<&'a String>))
    ensures
        (match get_field_spec(args@, "path"@) {
            Some(f) => f matches JsonVal::Str(p) ==> r.0@ == p,
            None => r.0@ == "."@,
        }),
        !(get_field_spec(args@, "path"@) matches Some(f) && f is Str) ==> r.0@ == "."@,
        match r.1 {
            Some(p) => get_field_spec(args@, "pattern"@) == Some(JsonVal::Str(p@)),
            None => !(get_field_spec(args@, "pattern"@) matches Some(f) && f is Str),
        },
{
    let path = match get_str_field(args, "path") {
        Some(p) => String::from_str(p.as_str()),
        None => String::from_str("."),
    };
    let pattern = get_str_field(args, "pattern");
    (path, pattern)
}

/// The text a shell result surfaces back into the conversation.
pub open spec fn bash_output_spec(
    success: bool,
    code: int,
    out: Seq<char>,
    err: Seq<char>,
) -> Seq<char> {
    (if success {
        "Exit code: "@
    } else {
        "Command failed with exit code: "@
    }) + ser_int(code) + "\n\nStdout:\n"@ + out + "\n\nStderr:\n"@ + err
}

/// Builds the result of a shell command from its exit status and captured
/// streams. A non-zero exit is a normal result with `success` false, not a
/// failure of the invocation.
pub fn bash_result(success: bool, exit_code: i64, stdout: &str, stderr: &str) -> (r: ToolResult)
    ensures
        r@.success == success,
        r@.output == bash_output_spec(success, exit_code as int, stdout@, stderr@),
        r@.metadata == JsonVal::Obj(
            seq![
                ("exit_code"@, JsonVal::Int(exit_code as int)),
                ("stdout"@, JsonVal::Str(stdout@)),
                ("stderr"@, JsonVal::Str(stderr@)),
            ],
        ),
{
    let mut output = if success {
        String::from_str("Exit code: ")
    } else {
        String::from_str("Command failed with exit code: ")
    };
    output.append(int_to_string(exit_code).as_str());
    output.append("\n\nStdout:\n");
    output.append(stdout);
    output.append("\n\nStderr:\n");
    output.append(stderr);
    let metadata = obj3(
        "exit_code",
        JsonValue::Int(exit_code),
        "stdout",
        str_val(stdout),
        "stderr",
        str_val(stderr),
    );
    ToolResult { success, output, metadata }
}

/// Builds the result of a whole-file read that succeeded.
pub fn read_result(path: &str, content: String) -> (r: ToolResult)
    ensures
        r@.success == true,
        r@.output == content@,
        r@.metadata == JsonVal::Obj(seq![("path"@, JsonVal::Str(path@))]),
{
    let metadata = obj1("path", str_val(path));
    ToolResult { success: true, output: content, metadata }
}

/// Builds the result of a file write that succeeded.
pub fn write_result(path: &str, content_len: usize) -> (r: ToolResult)
    requires
        content_len <= 9223372036854775807,
    ensures
        r@.success == true,
        r@.output == "Successfully wrote to file: "@ + path@,
        r@.metadata == JsonVal::Obj(
            seq![
                ("path"@, JsonVal::Str(path@)),
                ("size"@, JsonVal::Int(content_len as int)),
            ],
        ),
{
    let mut output = String::from_str("Successfully wrote to file: ");
    output.append(path);
    let size: i64 = content_len as i64;
    let metadata = obj2("path", str_val(path), "size", JsonValue::Int(size));
    ToolResult { success: true, output, metadata }
}

/// Whether an entry passes the optional name filter.
pub open spec fn entry_kept(e: Seq<char>, pattern: Option<Seq<char>>) -> bool {
    match pattern {
        Some(p) => contains_sub(e, p),
        None => true,
    }
}

/// The view of an optional filter argument.
pub open spec fn opt_str_view(o: Option<&String>) -> Option<Seq<char>> {
    match o {
        Some(p) => Some(p@),
        None => None,
    }
}

/// The entries that pass the filter, in their given order.
pub open spec fn kept_entries(entries: Seq<Seq<char>>, pattern: Option<Seq<char>>) -> Seq<
    Seq<char>,
> {
    entries.filter(|e: Seq<char>| entry_kept(e, pattern))
}

/// Keeps the entries that pass the filter, in their given order.
pub fn filter_entries(entries: Vec<String>, pattern: Option<&String>) -> (r: Vec<String>)
    ensures
        views_of(r@) == kept_entries(views_of(entries@), opt_str_view(pattern)),
{
    let ghost patv: Option<Seq<char>> = match pattern {
        Some(p) => Some(p@),
        None => None,
    };
    let mut out: Vec<String> = Vec::new();
    proof {
        reveal(Seq::filter);
        assert(views_of(entries@).subrange(0, 0) =~= Seq::<Seq<char>>::empty());
        assert(views_of(out@) =~= Seq::<Seq<char>>::empty());
        assert(kept_entries(Seq::<Seq<char>>::empty(), patv) =~= Seq::<Seq<char>>::empty());
    }
    let mut i: usize = 0;
    while i < entries.len()
        invariant
            i <= entries@.len(),
            views_of(out@) == kept_entries(views_of(entries@).subrange(0, i as int), patv),
            patv == opt_str_view(pattern),
        decreases entries@.len() - i,
    {
        let ghost pred = |e: Seq<char>| entry_kept(e, patv);
        let ghost pre = views_of(entries@).subrange(0, i as int);
        let ghost post = views_of(entries@).subrange(0, i as int + 1);
        proof {
            assert(post.drop_last() =~= pre);
            assert(post.last() == entries@[i as int]@);
        }
        let keep = match pattern {
            Some(p) => str_contains(entries[i].as_str(), p.as_str()),
            None => true,
        };
        if keep {
            out.push(String::from_str(entries[i].as_str()));
            proof {
                reveal(Seq::filter);
                assert(pred(post.last()));
                assert(post.filter(pred) == pre.filter(pred).push(post.last()));
                assert(views_of(out@) =~= post.filter(pred));
                assert(kept_entries(post, patv) == post.filter(pred));
            }
        } else {
            proof {
                reveal(Seq::filter);
                assert(!pred(post.last()));
                assert(post.filter(pred) == pre.filter(pred));
                assert(kept_entries(post, patv) == post.filter(pred));
            }
        }
        i = i + 1;
    }
    proof {
        assert(views_of(entries@).subrange(0, entries@.len() as int) =~= views_of(entries@));
    }
    out
}

/// Builds the result of a directory listing: the entries that pass the
/// filter, sorted lexicographically, one per line.
pub fn list_result(path: &str, entries: Vec<String>, pattern: Option<&String>) -> (r: ToolResult)
    requires
        entries@.len() <= 9223372036854775807,
    ensures
        r@.success == true,
        ({
            let kept = kept_entries(views_of(entries@), opt_str_view(pattern));
            exists|sorted: Seq<Seq<char>>|
                {
                    &&& #[trigger] lex_sorted(sorted)
                    &&& sorted.to_multiset() == kept.to_multiset()
                    &&& r@.output == join_lines_spec(sorted)
                    &&& r@.metadata == JsonVal::Obj(
                        seq![
                            ("path"@, JsonVal::Str(path@)),
                            ("count"@, JsonVal::Int(kept.len() as int)),
                        ],
                    )
                }
        }),
{
    broadcast use vstd::seq_lib::group_to_multiset_ensures;

    let ghost entriesv = views_of(entries@);
    let kept = filter_entries(entries, pattern);
    let ghost keptv = views_of(kept@);
    proof {
        entriesv.lemma_filter_len(|e: Seq<char>| entry_kept(e, opt_str_view(pattern)));
        assert(keptv.len() <= entriesv.len());
    }
    let count: usize = kept.len();
    let sorted = sort_strings(kept);
    let output = join_lines(&sorted);
    let count_i: i64 = count as i64;
    let metadata = obj2("path", str_val(path), "count", JsonValue::Int(count_i));
    let r = ToolResult { success: true, output, metadata };
    proof {
        keptv.to_multiset_ensures();
        views_of(sorted@).to_multiset_ensures();
        assert(views_of(sorted@).len() == keptv.len());
        assert(lex_sorted(views_of(sorted@)) && views_of(sorted@).to_multiset()
            == keptv.to_multiset() && r@.output == join_lines_spec(views_of(sorted@)));
    }
    r
}

} // verus!

