//! The built-in command catalog (`commands.json`, schema_version 1).
//!
//! Runtime parsing stays permissive: unknown fields are tolerated and no
//! JSON-Schema validation happens at runtime. Only `schema_version == 1`
//! and the fields actually used are hard errors. The header check is here;
//! the typed decoding of the entries is serde's, done where the file is
//! read.

use vstd::prelude::*;

use crate::fatal::Fatal;
use crate::json::{JsonValue, get, parse_json, spec_json_text, spec_parse_json, to_json_string};

verus! {

pub struct Catalog {
    pub schema_version: u32,
    /// Compared as text against the `protocol:` line of `herdr api schema`;
    /// a mismatch only produces a warning header.
    pub expected_herdr_protocol: Option<u64>,
    pub commands: Vec<CommandEntry>,
}

pub struct CommandEntry {
    pub id: String,
    pub title: String,
    pub description: Option<String>,
    /// `[group, subcommand]` per the schema; the length is checked at use.
    pub command: Vec<String>,
    pub arguments: Vec<ArgSpec>,
    /// Presence triggers the No/Yes confirmation screen; the text is its
    /// header.
    pub confirm: Option<String>,
    /// Name of the herdr `[keys]` field bound to this operation, if any.
    pub keys_action: Option<String>,
    /// herdr's default binding for that field.
    pub key: Option<String>,
}

/// One argument of a catalog command. Each resolved argument becomes
/// exactly one argv element.
pub enum ArgSpec {
    Literal { value: String },
    Context { key: ContextKey },
    Input {
        prompt: String,
        required: bool,
        default_context: Option<StaticContextKey>,
        validation: Option<Validation>,
        description: Option<String>,
    },
    Select {
        selector: Selector,
        prompt: String,
        exclude_context: Option<StaticContextKey>,
        description: Option<String>,
    },
}

/// The four origin-derived keys, valid where a context value is consumed
/// without a herdr round-trip.
#[derive(Debug, Clone, Copy, PartialEq, Eq, Structural)]
pub enum StaticContextKey {
    PaneId,
    TabId,
    WorkspaceId,
    Cwd,
}

/// Static keys plus the computed ones, which cost a `workspace list` /
/// `tab list` call and wrap around the origin's position.
#[derive(Debug, Clone, Copy, PartialEq, Eq, Structural)]
pub enum ContextKey {
    PaneId,
    TabId,
    WorkspaceId,
    Cwd,
    NextWorkspaceId,
    PreviousWorkspaceId,
    NextTabId,
    PreviousTabId,
}

#[derive(Debug, Clone, Copy, PartialEq, Eq, Structural)]
pub enum Validation {
    Directory,
}

#[derive(Debug, Clone, Copy, PartialEq, Eq, Structural)]
pub enum Selector {
    Workspaces,
    Tabs,
    Agents,
}

/// Whether a `schema_version` value is the integer 1, as serde_json's
/// `Value == 1` decides it.
pub open spec fn is_version_one(v: Option<JsonValue>) -> bool {
    v matches Some(JsonValue::Number(_, Some(n))) && n == 1
}

/// How a rejected `schema_version` is named: a string by its content, any
/// other value by its JSON text, a missing one as `null`.
pub open spec fn shown_version(v: Option<JsonValue>) -> Seq<char> {
    match v {
        Some(JsonValue::Str(s)) => s@,
        Some(other) => spec_json_text(other),
        None => "null"@,
    }
}

/// What the catalog text's header says: not JSON, another schema version,
/// or fine.
pub open spec fn catalog_header(doc: Result<JsonValue, Seq<char>>) -> Result<(), Seq<char>> {
    match doc {
        Err(detail) => Err("command-palette: commands.json is not valid JSON: "@ + detail),
        Ok(v) => {
            let version = get(v, "schema_version"@);
            if is_version_one(version) {
                Ok(())
            } else {
                Err(
                    "command-palette: unsupported commands.json schema_version: "@ + shown_version(
                        version,
                    ) + " (expected 1)"@,
                )
            }
        },
    }
}

/// Checks that a catalog text is JSON written for schema version 1, before
/// its entries are decoded, so that a catalog for another format is
/// reported as such rather than field by field.
pub fn check_catalog_header(data: &str) -> (r: Result<(), Fatal>)
    ensures
        match r {
            Ok(()) => catalog_header(spec_parse_json(data@)) is Ok,
            Err(f) => catalog_header(spec_parse_json(data@)) == Err::<(), Seq<char>>(f.0@),
        },
{
    header_verdict(parse_json(data))
}

/// The parser's outcome as a value: the document, or the error's message.
pub open spec fn doc_view(doc: Result<JsonValue, String>) -> Result<JsonValue, Seq<char>> {
    match doc {
        Ok(v) => Ok(v),
        Err(e) => Err(e@),
    }
}

/// What a parsed catalog's header says, as `catalog_header` defines it.
pub fn header_verdict(doc: Result<JsonValue, String>) -> (r: Result<(), Fatal>)
    ensures
        match r {
            Ok(()) => catalog_header(doc_view(doc)) is Ok,
            Err(f) => catalog_header(doc_view(doc)) == Err::<(), Seq<char>>(f.0@),
        },
{
    let value = match doc {
        Ok(v) => v,
        Err(detail) => {
            let mut message = String::new();
            message.append("command-palette: commands.json is not valid JSON: ");
            message.append(detail.as_str());
            return Err(Fatal(message));
        },
    };
    let version = value.get("schema_version");
    let one = match version {
        Some(JsonValue::Number(_, Some(n))) => *n == 1,
        _ => false,
    };
    if one {
        return Ok(());
    }
    let mut message = String::new();
    message.append("command-palette: unsupported commands.json schema_version: ");
    match version {
        Some(JsonValue::Str(s)) => message.append(s.as_str()),
        Some(other) => {
            let text = to_json_string(other);
            message.append(text.as_str());
        },
        None => message.append("null"),
    }
    message.append(" (expected 1)");
    Err(Fatal(message))
}

} // verus!
