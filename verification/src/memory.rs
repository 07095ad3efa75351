//! Audit records: every chat message, tool invocation and system event
//! becomes an immutable `Memory` entry, created once and appended by the
//! surrounding store. The store itself (a database on disk) lives outside
//! this library; what is verified here is the content of each record.

use vstd::prelude::*;
use crate::codec::{JsonValue, JsonVal};
use crate::strutil::str_eq;

verus! {

/// The category of an audit record.
#[derive(Debug, Clone, Copy, PartialEq, Eq, Structural)]
pub enum MemoryType {
    Command,
    Chat,
    System,
    Snapshot,
}

/// The canonical name of a category.
pub open spec fn memory_type_name(t: MemoryType) -> Seq<char> {
    match t {
        MemoryType::Command => "command"@,
        MemoryType::Chat => "chat"@,
        MemoryType::System => "system"@,
        MemoryType::Snapshot => "snapshot"@,
    }
}

/// The category a stored name stands for; unrecognised names fall back to
/// `System`.
pub open spec fn memory_type_of_name(s: Seq<char>) -> MemoryType {
    if s == "command"@ {
        MemoryType::Command
    } else if s == "chat"@ {
        MemoryType::Chat
    } else if s == "system"@ {
        MemoryType::System
    } else if s == "snapshot"@ {
        MemoryType::Snapshot
    } else {
        MemoryType::System
    }
}

impl MemoryType {
    /// The canonical name of the category, as the store writes it.
    pub fn to_string(&self) -> (s: String)
        ensures
            s@ == memory_type_name(*self),
    {
        match self {
            MemoryType::Command => String::from_str("command"),
            MemoryType::Chat => String::from_str("chat"),
            MemoryType::System => String::from_str("system"),
            MemoryType::Snapshot => String::from_str("snapshot"),
        }
    }
}

/// Reads a category back from its stored name.
pub fn memory_type_from_str(s: &str) -> (t: MemoryType)
    ensures
        t == memory_type_of_name(s@),
{
    if str_eq(s, "command") {
        MemoryType::Command
    } else if str_eq(s, "chat") {
        MemoryType::Chat
    } else if str_eq(s, "system") {
        MemoryType::System
    } else if str_eq(s, "snapshot") {
        MemoryType::Snapshot
    } else {
        MemoryType::System
    }
}

/// One immutable audit record.
#[derive(Debug)]
pub struct Memory {
    pub id: String,
    pub content: String,
    pub memory_type: MemoryType,
    pub metadata: JsonValue,
    pub created_at: String,
}

/// Relies on `ulid::Ulid::generate` and its display form: a fresh
/// identifier, 26 characters of Crockford base32.
#[verifier::external_body]
pub(crate) fn fresh_id() -> (r: String)
    ensures
        r@.len() == 26,
{
    ulid::Ulid::generate().to_string()
}

/// Relies on `chrono::Utc::now().to_rfc3339()`: the current instant as a
/// non-empty RFC 3339 timestamp.
#[verifier::external_body]
pub(crate) fn now_rfc3339() -> (r: String)
    ensures
        r@.len() >= 1,
{
    chrono::Utc::now().to_rfc3339()
}

impl Memory {
    /// A fresh audit record with the given content and category, stamped
    /// with a new identifier and the current time.
    pub fn new(content: &str, memory_type: MemoryType) -> (m: Memory)
        ensures
            m.content@ == content@,
            m.memory_type == memory_type,
            m.metadata@ == JsonVal::Obj(Seq::empty()),
            m.id@.len() == 26,
            m.created_at@.len() >= 1,
    {
        let m = Memory {
            id: fresh_id(),
            content: String::from_str(content),
            memory_type,
            metadata: JsonValue::Obj(Vec::new()),
            created_at: now_rfc3339(),
        };
        proof {
            assert(crate::codec::jv_fields(Seq::<(String, JsonValue)>::empty()) =~= Seq::<
                (Seq<char>, JsonVal),
            >::empty());
        }
        m
    }

    /// The same record with its diagnostic payload replaced.
    pub fn with_metadata(self, metadata: JsonValue) -> (m: Memory)
        ensures
            m.id == self.id,
            m.content == self.content,
            m.memory_type == self.memory_type,
            m.created_at == self.created_at,
            m.metadata == metadata,
    {
        Memory { metadata, ..self }
    }
}

} // verus!
