use aios::codec::{from_json, JsonValue};
use aios::config::AIOSConfig;
use aios::memory::{memory_type_from_str, Memory, MemoryType};
use aios::recovery::{sort_snapshots_desc, RecoveryManager};
use aios::strutil::{join_lines, sort_strings, str_contains, str_eq, str_le};
use aios::tools::{
    bash_args, bash_result, builtin_of, filter_entries, list_args, list_result, path_arg,
    read_result, write_args, write_result, BashTool, BuiltinTool, ListTool, ReadTool,
    ToolDefinition, ToolRegistry, WriteTool,
};

fn s(x: &str) -> String {
    x.to_string()
}

#[test]
fn builtin_dispatch_by_name() {
    assert_eq!(builtin_of("bash"), Some(BuiltinTool::Bash));
    assert_eq!(builtin_of("read"), Some(BuiltinTool::Read));
    assert_eq!(builtin_of("write"), Some(BuiltinTool::Write));
    assert_eq!(builtin_of("list"), Some(BuiltinTool::List));
    assert_eq!(builtin_of("teleport"), None);
}

#[test]
fn registry_holds_builtins() {
    let reg = ToolRegistry::new();
    let listed = reg.list();
    let names: Vec<&str> = listed.iter().map(|d| d.name.as_str()).collect();
    assert_eq!(names, vec!["bash", "read", "write", "list"]);
    assert!(reg.get("bash").is_some());
    assert!(reg.get("read").is_some());
    assert!(reg.get("write").is_some());
    assert!(reg.get("list").is_some());
    assert!(reg.get("teleport").is_none());
}

#[test]
fn registry_register_replaces_and_appends() {
    let mut reg = ToolRegistry::new();
    reg.register(ToolDefinition {
        name: s("bash"),
        description: s("replaced"),
        parameters: JsonValue::Obj(vec![]),
    });
    assert_eq!(reg.get("bash").unwrap().description, "replaced");
    assert_eq!(reg.list().len(), 4);
    reg.register(ToolDefinition {
        name: s("extra"),
        description: s("fresh"),
        parameters: JsonValue::Obj(vec![]),
    });
    assert_eq!(reg.list().len(), 5);
    assert_eq!(reg.get("extra").unwrap().description, "fresh");
}

#[test]
fn builtin_definitions_advertise_schemas() {
    let d = BashTool.definition();
    assert_eq!(d.name, "bash");
    assert_eq!(d.description, "Execute a bash command and return the output");
    let schema = d.parameters;
    assert_eq!(
        aios::codec::get_str_field(&schema, "type").map(|x| x.as_str()),
        Some("object")
    );
    let props = aios::codec::get_field(&schema, "properties").unwrap();
    assert!(aios::codec::get_field(props, "command").is_some());

    assert_eq!(ReadTool.definition().name, "read");
    assert_eq!(WriteTool.definition().name, "write");
    assert_eq!(ListTool.definition().name, "list");
}

#[test]
fn bash_arguments_validated_before_execution() {
    let ok = from_json("{\"command\":\"ls\"}").unwrap();
    assert_eq!(bash_args(&ok).unwrap(), "ls");
    let missing = from_json("{\"cmd\":\"ls\"}").unwrap();
    assert_eq!(bash_args(&missing).unwrap_err(), "Missing 'command' argument");
    let wrong_shape = from_json("{\"command\":3}").unwrap();
    assert!(bash_args(&wrong_shape).is_err());
}

#[test]
fn read_and_write_arguments() {
    let ok = from_json("{\"path\":\"/tmp/x\"}").unwrap();
    assert_eq!(path_arg(&ok).unwrap(), "/tmp/x");
    let missing = from_json("{}").unwrap();
    assert_eq!(path_arg(&missing).unwrap_err(), "Missing 'path' argument");

    let both = from_json("{\"path\":\"/tmp/x\",\"content\":\"hi\"}").unwrap();
    let (p, c) = write_args(&both).unwrap();
    assert_eq!((p.as_str(), c.as_str()), ("/tmp/x", "hi"));
    let no_content = from_json("{\"path\":\"/tmp/x\"}").unwrap();
    assert_eq!(write_args(&no_content).unwrap_err(), "Missing 'content' argument");
    let nothing = from_json("{}").unwrap();
    assert_eq!(write_args(&nothing).unwrap_err(), "Missing 'path' argument");
}

#[test]
fn bash_result_reports_exit_code() {
    let ok = bash_result(true, 0, "out\n", "");
    assert!(ok.success);
    assert_eq!(ok.output, "Exit code: 0\n\nStdout:\nout\n\n\nStderr:\n");

    let failed = bash_result(false, 1, "", "oops\n");
    assert!(!failed.success);
    assert!(failed.output.starts_with("Command failed with exit code: 1"));
    assert!(failed.output.contains("oops"));
}

#[test]
fn write_and_read_results() {
    let w = write_result("/tmp/f", 5);
    assert!(w.success);
    assert_eq!(w.output, "Successfully wrote to file: /tmp/f");
    let r = read_result("/tmp/f", s("content here"));
    assert!(r.success);
    assert_eq!(r.output, "content here");
}

#[test]
fn list_arguments_defaults() {
    let args = from_json("{}").unwrap();
    let (path, pattern) = list_args(&args);
    assert_eq!(path, ".");
    assert!(pattern.is_none());
    let args = from_json("{\"path\":\"/tmp\",\"pattern\":\"log\"}").unwrap();
    let (path, pattern) = list_args(&args);
    assert_eq!(path, "/tmp");
    assert_eq!(pattern.map(|p| p.as_str()), Some("log"));
}

#[test]
fn list_result_sorts_and_filters() {
    let entries = vec![s("c.log"), s("a.txt"), s("b.log")];
    let r = list_result("/tmp", entries, None);
    assert!(r.success);
    assert_eq!(r.output, "a.txt\nb.log\nc.log");

    let entries = vec![s("c.log"), s("a.txt"), s("b.log")];
    let pat = s("log");
    let r = list_result("/tmp", entries, Some(&pat));
    assert_eq!(r.output, "b.log\nc.log");
}

#[test]
fn string_helpers() {
    assert!(str_eq("abc", "abc"));
    assert!(!str_eq("abc", "abd"));
    assert!(str_contains("hello world", "o w"));
    assert!(!str_contains("hello", "world"));
    assert!(str_contains("x", ""));
    assert!(str_le("abc", "abd"));
    assert!(str_le("ab", "abc"));
    assert!(!str_le("b", "a"));
    let sorted = sort_strings(vec![s("pear"), s("apple"), s("pear"), s("fig")]);
    assert_eq!(sorted, vec![s("apple"), s("fig"), s("pear"), s("pear")]);
    assert_eq!(join_lines(&vec![s("a"), s("b")]), "a\nb");
    assert_eq!(join_lines(&vec![]), "");
    let kept = filter_entries(vec![s("aa"), s("ab"), s("bb")], Some(&s("a")));
    assert_eq!(kept, vec![s("aa"), s("ab")]);
}

#[test]
fn memory_records() {
    let m = Memory::new("did a thing", MemoryType::Command);
    assert_eq!(m.content, "did a thing");
    assert_eq!(m.id.chars().count(), 26);
    assert!(!m.created_at.is_empty());
    let m2 = m.with_metadata(JsonValue::Obj(vec![(s("k"), JsonValue::Int(1))]));
    assert_eq!(m2.content, "did a thing");

    assert_eq!(MemoryType::Command.to_string(), "command");
    assert_eq!(MemoryType::Chat.to_string(), "chat");
    assert_eq!(MemoryType::System.to_string(), "system");
    assert_eq!(MemoryType::Snapshot.to_string(), "snapshot");
    assert!(matches!(memory_type_from_str("chat"), MemoryType::Chat));
    assert!(matches!(memory_type_from_str("command"), MemoryType::Command));
    assert!(matches!(memory_type_from_str("snapshot"), MemoryType::Snapshot));
    assert!(matches!(memory_type_from_str("anything else"), MemoryType::System));
}

#[test]
fn config_defaults() {
    let c = AIOSConfig::default();
    assert_eq!(c.aios.version, "0.1.0");
    assert_eq!(c.aios.socket_path, "/tmp/aios-runtime.sock");
    assert_eq!(c.aios.data_dir, "/etc/aios");
    assert_eq!(c.llm.default_provider, "openai");
    assert_eq!(c.llm.openai.base_url, "https://api.openai.com/v1");
    assert_eq!(c.llm.openai.model, "gpt-4");
    assert!(c.llm.openai.api_key.is_none());
    assert!(c.agents.core_agent);
    assert!(!c.agents.security_agent);
    assert!(c.recovery.enabled);
    assert_eq!(c.recovery.snapshot_interval, "hourly");
    assert_eq!(c.recovery.max_snapshots, 24);
    assert_eq!(c.security.mode, "normal");
    assert_eq!(c.security.dangerous_patterns, vec![s("rm -rf /"), s("mkfs.*")]);

    let loaded = AIOSConfig::load_or_default(None);
    assert_eq!(loaded.aios.version, "0.1.0");
    let mut custom = AIOSConfig::default();
    custom.aios.version = s("9.9.9");
    let kept = AIOSConfig::load_or_default(Some(custom));
    assert_eq!(kept.aios.version, "9.9.9");
}

#[test]
fn snapshot_bookkeeping() {
    let mgr = RecoveryManager::new(s("/var/lib/aios/snapshots"), 2);
    assert_eq!(mgr.max_snapshots(), 2);
    assert_eq!(mgr.snapshots_dir().as_str(), "/var/lib/aios/snapshots");

    let mut snaps = Vec::new();
    for (id, at) in [("s1", "2024-01-01"), ("s2", "2024-03-01"), ("s3", "2024-02-01")] {
        let mut rec = mgr.snapshot_record("test snapshot");
        rec.id = s(id);
        rec.created_at = s(at);
        snaps.push(rec);
    }
    let sorted = sort_snapshots_desc(snaps);
    let order: Vec<&str> = sorted.iter().map(|x| x.id.as_str()).collect();
    assert_eq!(order, vec!["s2", "s3", "s1"]);

    let excess = mgr.snapshots_to_delete(&sorted);
    assert_eq!(excess.len(), 1);
    assert_eq!(excess[0].id, "s1");

    let fresh = mgr.snapshot_record("described");
    assert_eq!(fresh.description, "described");
    assert_eq!(fresh.id.chars().count(), 26);
}
