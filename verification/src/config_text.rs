//! The text of an MCP client's configuration file before and after the browser's server
//! entry is added: read with `serde_json` or `toml`, merged by `add_server_entry`, and
//! written back in the crate's pretty form.
//!
//! Between reading and writing, every value below the top-level tables is kept as its
//! compact text, so the merge sees and keeps it untouched.

use vstd::prelude::*;
use vstd::string::StringExecFns;

use crate::client_config::{
    add_server_entry, first_index, is_first_key, keyed, law_upsert_idempotent,
    law_upsert_keeps_others, lemma_first_index_after_upsert, server_entry_added, upserted,
    ConfigMember,
};
use crate::mcp_clients::{
    config_shape_problem, section_key_of, server_entry, server_entry_fields, ConfigSection,
    EntryValue, EntryValueView, McpConfigFormat, SERVER_ENTRY_NAME,
};

verus! {

/// A top-level member of a configuration document, its values as compact text.
pub enum MemberText {
    /// A table: its members' keys and the compact text of their values.
    Table(Seq<(Seq<char>, Seq<char>)>),
    /// Any other value, as compact text.
    Value(Seq<char>),
}

/// Key and value texts of `s`.
pub open spec fn text_values(s: Seq<(Seq<char>, String)>) -> Seq<(Seq<char>, Seq<char>)> {
    s.map_values(|p: (Seq<char>, String)| (p.0, p.1@))
}

/// A member with its texts as plain values.
pub open spec fn member_text(m: ConfigMember<String>) -> MemberText {
    match m {
        ConfigMember::Table(t) => MemberText::Table(text_values(keyed(t@))),
        ConfigMember::Value(v) => MemberText::Value(v@),
    }
}

/// A document's members with their texts as plain values.
pub open spec fn document_text(s: Seq<(String, ConfigMember<String>)>) -> Seq<(Seq<char>, MemberText)> {
    s.map_values(|p: (String, ConfigMember<String>)| (p.0@, member_text(p.1)))
}

/// A read result as plain values.
pub open spec fn read_view(r: Result<Option<Vec<(String, ConfigMember<String>)>>, String>) -> Result<
    Option<Seq<(Seq<char>, MemberText)>>,
    Seq<char>,
> {
    match r {
        Err(m) => Err(m@),
        Ok(None) => Ok(None),
        Ok(Some(v)) => Ok(Some(document_text(v@))),
    }
}

/// A text result as plain values.
pub open spec fn text_result(r: Result<String, String>) -> Result<Seq<char>, Seq<char>> {
    match r {
        Ok(t) => Ok(t@),
        Err(e) => Err(e@),
    }
}

/// The entry fields as plain values.
pub open spec fn fields_view(fields: Seq<(String, EntryValue)>) -> Seq<(Seq<char>, EntryValueView)> {
    fields.map_values(|f: (String, EntryValue)| (f.0@, f.1@))
}

/// How `serde_json::from_str::<serde_json::Value>` reads `text` as a configuration document:
/// `Err` with the parser's message, `Ok(None)` when it is not an object, otherwise its
/// members, objects among them with their members' values as compact JSON text.
pub uninterp spec fn json_config_members(text: Seq<char>) -> Result<
    Option<Seq<(Seq<char>, MemberText)>>,
    Seq<char>,
>;

/// How `toml::from_str::<toml::Value>` reads `text` as a configuration document, in the
/// same form, values as compact TOML text.
pub uninterp spec fn toml_config_members(text: Seq<char>) -> Result<
    Option<Seq<(Seq<char>, MemberText)>>,
    Seq<char>,
>;

/// What `serde_json::to_string_pretty` writes for the document `members` once each value
/// text is read back with `serde_json::from_str` (`Err` when one of them does not read).
pub uninterp spec fn rendered_json_config(members: Seq<(Seq<char>, MemberText)>) -> Result<
    Seq<char>,
    Seq<char>,
>;

/// What `toml::to_string_pretty` writes for the document `members` once each value text is
/// read back as a `toml::Value` (`Err` when one of them does not read).
pub uninterp spec fn rendered_toml_config(members: Seq<(Seq<char>, MemberText)>) -> Result<
    Seq<char>,
    Seq<char>,
>;

/// The compact JSON text (`serde_json::Value::to_string`) of the object with `fields`.
pub uninterp spec fn json_entry_text(fields: Seq<(Seq<char>, EntryValueView)>) -> Seq<char>;

/// The inline TOML text (`toml::Value::to_string`) of the table with `fields`.
pub uninterp spec fn toml_entry_text(fields: Seq<(Seq<char>, EntryValueView)>) -> Seq<char>;

/// Calls `serde_json::from_str::<serde_json::Value>(text)` and lists the members of the
/// object it reads, writing each value below an object member, and each other member, with
/// `to_string()`.
///
/// Claimed: the result is the one named by `json_config_members`, a function of `text` alone.
#[verifier::external_body]
fn read_json_config(text: &str) -> (r: Result<Option<Vec<(String, ConfigMember<String>)>>, String>)
    ensures
        read_view(r) == json_config_members(text@),
{
    let document: serde_json::Value = match serde_json::from_str(text) {
        Ok(document) => document,
        Err(error) => return Err(error.to_string()),
    };
    let serde_json::Value::Object(members) = document else { return Ok(None) };
    Ok(Some(members.into_iter().map(|(key, member)| (key, match member {
        serde_json::Value::Object(t) => ConfigMember::Table(t.into_iter().map(|(k, v)| (k, v.to_string())).collect()),
        other => ConfigMember::Value(other.to_string()),
    })).collect()))
}

/// Calls `toml::from_str::<toml::Value>(text)` and lists the members of the table it reads,
/// writing each value below a table member, and each other member, with `to_string()`.
///
/// Claimed: the result is the one named by `toml_config_members`, a function of `text` alone.
#[verifier::external_body]
fn read_toml_config(text: &str) -> (r: Result<Option<Vec<(String, ConfigMember<String>)>>, String>)
    ensures
        read_view(r) == toml_config_members(text@),
{
    let document: toml::Value = match toml::from_str(text) {
        Ok(document) => document,
        Err(error) => return Err(error.to_string()),
    };
    let toml::Value::Table(members) = document else { return Ok(None) };
    Ok(Some(members.into_iter().map(|(key, member)| (key, match member {
        toml::Value::Table(t) => ConfigMember::Table(t.into_iter().map(|(k, v)| (k, v.to_string())).collect()),
        other => ConfigMember::Value(other.to_string()),
    })).collect()))
}

/// Reads every value text of `members` back with `serde_json::from_str` and writes the
/// document with `serde_json::to_string_pretty`.
///
/// Claimed: the result is the one named by `rendered_json_config`, a function of `members`
/// alone.
#[verifier::external_body]
fn render_json_config(members: Vec<(String, ConfigMember<String>)>) -> (r: Result<String, String>)
    ensures
        text_result(r) == rendered_json_config(document_text(members@)),
{
    let read = |t: String| serde_json::from_str::<serde_json::Value>(&t).map_err(|e| e.to_string());
    let mut document = serde_json::Map::new();
    for (key, member) in members {
        document.insert(key, match member {
            ConfigMember::Table(t) => serde_json::Value::Object(t.into_iter().map(|(k, v)| Ok((k, read(v)?))).collect::<Result<_, String>>()?),
            ConfigMember::Value(v) => read(v)?,
        });
    }
    serde_json::to_string_pretty(&serde_json::Value::Object(document)).map_err(|e| e.to_string())
}

/// Reads every value text of `members` back as a `toml::Value` (`str::parse`) and writes
/// the document with `toml::to_string_pretty`.
///
/// Claimed: the result is the one named by `rendered_toml_config`, a function of `members`
/// alone.
#[verifier::external_body]
fn render_toml_config(members: Vec<(String, ConfigMember<String>)>) -> (r: Result<String, String>)
    ensures
        text_result(r) == rendered_toml_config(document_text(members@)),
{
    let read = |t: String| t.parse::<toml::Value>().map_err(|e| e.to_string());
    let mut document = toml::map::Map::new();
    for (key, member) in members {
        document.insert(key, match member {
            ConfigMember::Table(t) => toml::Value::Table(t.into_iter().map(|(k, v)| Ok((k, read(v)?))).collect::<Result<_, String>>()?),
            ConfigMember::Value(v) => read(v)?,
        });
    }
    toml::to_string_pretty(&toml::Value::Table(document)).map_err(|e| e.to_string())
}

/// Writes the object with `fields` as compact JSON (`serde_json::Value::to_string`).
///
/// Claimed: the text is the one named by `json_entry_text`, a function of `fields` alone.
#[verifier::external_body]
fn write_json_entry(fields: &Vec<(String, EntryValue)>) -> (r: String)
    ensures
        r@ == json_entry_text(fields_view(fields@)),
{
    serde_json::Value::Object(fields.iter().map(|(k, v)| (k.clone(), match v {
        EntryValue::Text(t) => serde_json::Value::String(t.clone()),
        EntryValue::TextList(l) => serde_json::Value::Array(l.iter().cloned().map(serde_json::Value::String).collect()),
        EntryValue::Flag(b) => serde_json::Value::Bool(*b),
    })).collect()).to_string()
}

/// Writes the table with `fields` as inline TOML (`toml::Value::to_string`).
///
/// Claimed: the text is the one named by `toml_entry_text`, a function of `fields` alone.
#[verifier::external_body]
fn write_toml_entry(fields: &Vec<(String, EntryValue)>) -> (r: String)
    ensures
        r@ == toml_entry_text(fields_view(fields@)),
{
    toml::Value::Table(fields.iter().map(|(k, v)| (k.clone(), match v {
        EntryValue::Text(t) => toml::Value::String(t.clone()),
        EntryValue::TextList(l) => toml::Value::Array(l.iter().cloned().map(toml::Value::String).collect()),
        EntryValue::Flag(b) => toml::Value::Boolean(*b),
    })).collect()).to_string()
}

/// What a document holds under `key`.
pub open spec fn text_section_kind(doc: Seq<(Seq<char>, MemberText)>, key: Seq<char>) -> ConfigSection {
    match first_index(doc, key) {
        None => ConfigSection::Absent,
        Some(i) => match doc[i].1 {
            MemberText::Table(_) => ConfigSection::Table,
            MemberText::Value(_) => ConfigSection::Other,
        },
    }
}

/// The server entries a document holds under `key`.
pub open spec fn text_section_entries(doc: Seq<(Seq<char>, MemberText)>, key: Seq<char>) -> Seq<
    (Seq<char>, Seq<char>),
> {
    match first_index(doc, key) {
        Some(i) => match doc[i].1 {
            MemberText::Table(t) => t,
            MemberText::Value(_) => Seq::empty(),
        },
        None => Seq::empty(),
    }
}

/// `doc` with the browser's server entry (text `entry`) set in the table under `key`; every
/// other member, and every other entry of that table, is kept in place.
pub open spec fn merged_members(doc: Seq<(Seq<char>, MemberText)>, key: Seq<char>, entry: Seq<char>) -> Seq<
    (Seq<char>, MemberText),
> {
    upserted(
        doc,
        key,
        MemberText::Table(upserted(text_section_entries(doc, key), SERVER_ENTRY_NAME@, entry)),
    )
}

/// The configuration file text after registering the browser (at `executable`) with a
/// client of layout `format`, given the file's text (`None` when there is no file), or why
/// it cannot be done: the file does not read, its root or its server section is not a table,
/// or the merged document cannot be written. JSON files end with a line break.
pub open spec fn merged_config(existing: Option<Seq<char>>, format: McpConfigFormat, executable: Seq<char>) -> Result<
    Seq<char>,
    Seq<char>,
> {
    let codex = format == McpConfigFormat::CodexToml;
    let read = match existing {
        None => Ok(Some(Seq::empty())),
        Some(text) => if codex {
            toml_config_members(text)
        } else {
            json_config_members(text)
        },
    };
    match read {
        Err(m) => Err(m),
        Ok(None) => Err(config_shape_problem(format, false, ConfigSection::Absent)->0),
        Ok(Some(doc)) => {
            let key = section_key_of(format);
            match config_shape_problem(format, true, text_section_kind(doc, key)) {
                Some(m) => Err(m),
                None => {
                    let fields = server_entry_fields(format, executable);
                    if codex {
                        rendered_toml_config(merged_members(doc, key, toml_entry_text(fields)))
                    } else {
                        match rendered_json_config(
                            merged_members(doc, key, json_entry_text(fields)),
                        ) {
                            Ok(t) => Ok(t + seq!['\n']),
                            Err(e) => Err(e),
                        }
                    }
                },
            }
        },
    }
}

/// The configuration file text after registering the browser, installed at `executable`,
/// with a client of layout `format`, given the file's current text (`None` when there is
/// no file yet). Every other setting and every other server entry is kept.
pub fn merged_config_text(existing: Option<&str>, format: McpConfigFormat, executable: &str) -> (r:
    Result<String, String>)
    ensures
        text_result(r) == merged_config(
            match existing {
                Some(t) => Some(t@),
                None => None,
            },
            format,
            executable@,
        ),
{
    let codex = match format {
        McpConfigFormat::CodexToml => true,
        _ => false,
    };
    let read = match existing {
        None => Ok(Some(Vec::new())),
        Some(text) => if codex {
            read_toml_config(text)
        } else {
            read_json_config(text)
        },
    };
    proof {
        if existing is None {
            assert(document_text(Seq::<(String, ConfigMember<String>)>::empty()) =~= Seq::empty());
        }
    }
    let ghost spec_read = match existing {
        None => Ok(Some(Seq::empty())),
        Some(text) => if codex {
            toml_config_members(text@)
        } else {
            json_config_members(text@)
        },
    };
    assert(read_view(read) == spec_read);
    let root = match read {
        Err(m) => {
            return Err(m);
        },
        Ok(root) => root,
    };
    let ghost before = match &root {
        Some(v) => v@,
        None => Seq::empty(),
    };
    let fields = server_entry(format, executable);
    assert(fields_view(fields@) == server_entry_fields(format, executable@));
    let entry = if codex {
        write_toml_entry(&fields)
    } else {
        write_json_entry(&fields)
    };
    let ghost entry_text = entry@;
    let ghost was_table = root is Some;
    let members = match add_server_entry(root, format, entry) {
        Err(m) => {
            proof {
                if was_table {
                    lemma_section_kind_text(before, section_key_of(format));
                }
            }
            return Err(m);
        },
        Ok(members) => members,
    };
    proof {
        lemma_section_kind_text(before, section_key_of(format));
        lemma_merge_text(before, members@, section_key_of(format), entry_text, entry);
    }
    let rendered = if codex {
        render_toml_config(members)
    } else {
        render_json_config(members)
    };
    match rendered {
        Err(m) => Err(m),
        Ok(text) => {
            if codex {
                Ok(text)
            } else {
                let mut text = text;
                let ghost t0 = text@;
                proof {
                    reveal_strlit("\n");
                }
                text.append("\n");
                assert(text@ =~= t0 + seq!['\n']);
                Ok(text)
            }
        },
    }
}

/// Two sequences with the same keys have the same first position of every key.
proof fn lemma_first_index_same_keys<U, W>(
    s: Seq<(Seq<char>, U)>,
    t: Seq<(Seq<char>, W)>,
    key: Seq<char>,
)
    requires
        s.len() == t.len(),
        forall|i: int| 0 <= i < s.len() ==> #[trigger] s[i].0 == t[i].0,
    ensures
        first_index(s, key) == first_index(t, key),
{
    if exists|i: int| is_first_key(s, key, i) {
        let i = choose|i: int| is_first_key(s, key, i);
        assert(is_first_key(t, key, i)) by {
            assert forall|j: int| 0 <= j < i implies t[j].0 != key by {
                assert(s[j].0 == t[j].0);
            }
            assert(s[i].0 == t[i].0);
        }
        let c = choose|c: int| is_first_key(t, key, c);
        if c < i {
            assert(s[c].0 == t[c].0);
        }
        if i < c {
            assert(s[i].0 == t[i].0);
        }
    } else {
        if exists|i: int| is_first_key(t, key, i) {
            let i = choose|i: int| is_first_key(t, key, i);
            assert(is_first_key(s, key, i)) by {
                assert forall|j: int| 0 <= j < i implies s[j].0 != key by {
                    assert(s[j].0 == t[j].0);
                }
                assert(s[i].0 == t[i].0);
            }
        }
    }
}

/// Reading the texts of the values commutes with setting a key.
proof fn lemma_upserted_text(s: Seq<(Seq<char>, String)>, key: Seq<char>, value: String)
    ensures
        text_values(upserted(s, key, value)) == upserted(text_values(s), key, value@),
{
    lemma_first_index_same_keys(s, text_values(s), key);
    match first_index(s, key) {
        Some(i) => {
            assert(text_values(upserted(s, key, value)) =~= text_values(s).update(i, (key, value@)));
        },
        None => {
            assert(text_values(upserted(s, key, value)) =~= text_values(s).push((key, value@)));
        },
    }
}

/// The document's view has the same keys as its members, so the section is found at the
/// same place and is of the same kind, with the same entries.
proof fn lemma_section_kind_text(members: Seq<(String, ConfigMember<String>)>, key: Seq<char>)
    ensures
        first_index(document_text(members), key) == first_index(keyed(members), key),
        text_section_kind(document_text(members), key) == crate::client_config::section_kind(
            keyed(members),
            key,
        ),
        text_section_entries(document_text(members), key) == text_values(
            crate::client_config::section_entries(keyed(members), key),
        ),
{
    let d = document_text(members);
    let k = keyed(members);
    assert forall|i: int| 0 <= i < d.len() implies #[trigger] d[i].0 == k[i].0 by {}
    lemma_first_index_same_keys(d, k, key);
    match first_index(k, key) {
        Some(i) => {
            assert(d[i].1 == member_text(k[i].1));
        },
        None => {
            assert(text_values(Seq::<(Seq<char>, String)>::empty()) =~= Seq::empty());
        },
    }
}

/// Adding the entry to the members adds its text to the document's view.
proof fn lemma_merge_text(
    before: Seq<(String, ConfigMember<String>)>,
    after: Seq<(String, ConfigMember<String>)>,
    key: Seq<char>,
    entry_text: Seq<char>,
    entry: String,
)
    requires
        entry@ == entry_text,
        server_entry_added(keyed(before), keyed(after), key, entry),
    ensures
        document_text(after) == merged_members(document_text(before), key, entry_text),
{
    let kb = keyed(before);
    let ka = keyed(after);
    let db = document_text(before);
    let da = document_text(after);
    lemma_section_kind_text(before, key);
    lemma_upserted_text(
        crate::client_config::section_entries(kb, key),
        SERVER_ENTRY_NAME@,
        entry,
    );
    let i = match first_index(kb, key) {
        Some(i) => i,
        None => kb.len() as int,
    };
    let new_member = MemberText::Table(
        upserted(text_section_entries(db, key), SERVER_ENTRY_NAME@, entry_text),
    );
    assert(ka[i].0 == key);
    match ka[i].1 {
        ConfigMember::Table(t) => {
            assert(da[i] == (key, new_member));
        },
        ConfigMember::Value(_) => {},
    }
    assert forall|j: int| 0 <= j < db.len() && j != i implies #[trigger] da[j] == db[j] by {
        assert(ka[j] == kb[j]);
    }
    match first_index(db, key) {
        Some(c) => {
            assert(da =~= db.update(i, (key, new_member)));
        },
        None => {
            assert(da =~= db.push((key, new_member)));
        },
    }
}

/// Registering keeps the rest of the configuration: every member under another key stays
/// in place, every other entry of the server table stays in place, and the table then holds
/// the browser's entry.
pub proof fn law_merge_keeps_other_settings(
    doc: Seq<(Seq<char>, MemberText)>,
    key: Seq<char>,
    entry: Seq<char>,
)
    ensures
        forall|j: int|
            0 <= j < doc.len() && doc[j].0 != key ==> #[trigger] merged_members(doc, key, entry)[j]
                == doc[j],
        forall|j: int|
            0 <= j < text_section_entries(doc, key).len() && text_section_entries(doc, key)[j].0
                != SERVER_ENTRY_NAME@ ==> #[trigger] text_section_entries(
                merged_members(doc, key, entry),
                key,
            )[j] == text_section_entries(doc, key)[j],
        first_index(text_section_entries(merged_members(doc, key, entry), key), SERVER_ENTRY_NAME@)
            matches Some(i) && text_section_entries(merged_members(doc, key, entry), key)[i].1
            == entry,
{
    lemma_merged_section(doc, key, entry);
    let s = text_section_entries(doc, key);
    let table = MemberText::Table(upserted(s, SERVER_ENTRY_NAME@, entry));
    law_upsert_keeps_others(doc, key, table);
    law_upsert_keeps_others(s, SERVER_ENTRY_NAME@, entry);
}

/// Registering a second time with the same entry gives the same document as registering once.
pub proof fn law_merge_twice_is_merge_once(
    doc: Seq<(Seq<char>, MemberText)>,
    key: Seq<char>,
    entry: Seq<char>,
)
    ensures
        merged_members(merged_members(doc, key, entry), key, entry) == merged_members(doc, key, entry),
{
    lemma_merged_section(doc, key, entry);
    let s = text_section_entries(doc, key);
    let once = merged_members(doc, key, entry);
    let table = MemberText::Table(upserted(s, SERVER_ENTRY_NAME@, entry));
    law_upsert_idempotent(s, SERVER_ENTRY_NAME@, entry);
    lemma_first_index_after_upsert(doc, key, table);
    let i = first_index(once, key)->0;
    assert(once[i] == (key, table));
    assert(once.update(i, (key, table)) =~= once);
}

/// After the merge, the server table sits at the first position of `key` and holds the
/// old entries with the browser's entry set.
proof fn lemma_merged_section(doc: Seq<(Seq<char>, MemberText)>, key: Seq<char>, entry: Seq<char>)
    ensures
        text_section_entries(merged_members(doc, key, entry), key) == upserted(
            text_section_entries(doc, key),
            SERVER_ENTRY_NAME@,
            entry,
        ),
{
    let s = text_section_entries(doc, key);
    let table = MemberText::Table(upserted(s, SERVER_ENTRY_NAME@, entry));
    lemma_first_index_after_upsert(doc, key, table);
}

} // verus!
