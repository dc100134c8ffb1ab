//! Adding the browser's server entry to an MCP client's configuration while keeping every
//! other setting and every other server entry.
//!
//! A configuration document is seen as its top-level members; the document's own value
//! type `T` (a JSON value, a TOML value) is carried through untouched.

use vstd::prelude::*;

use crate::mcp_clients::{
    config_shape_error, config_shape_problem, section_key_of, ConfigSection, McpConfigFormat,
    SERVER_ENTRY_NAME,
};
use crate::text::str_eq;

verus! {

/// A top-level member of a configuration document: a table (a JSON object, a TOML table)
/// with its members in order, or any other value.
pub enum ConfigMember<T> {
    Table(Vec<(String, T)>),
    Value(T),
}

/// Members with their keys as plain text.
pub open spec fn keyed<U>(members: Seq<(String, U)>) -> Seq<(Seq<char>, U)> {
    members.map_values(|p: (String, U)| (p.0@, p.1))
}

/// `i` is the first position of `key` among the keys of `s`.
pub open spec fn is_first_key<U>(s: Seq<(Seq<char>, U)>, key: Seq<char>, i: int) -> bool {
    &&& 0 <= i < s.len()
    &&& s[i].0 == key
    &&& forall|j: int| 0 <= j < i ==> s[j].0 != key
}

/// The first position of `key` among the keys of `s`, if it occurs.
pub open spec fn first_index<U>(s: Seq<(Seq<char>, U)>, key: Seq<char>) -> Option<int> {
    if exists|i: int| is_first_key(s, key, i) {
        Some(choose|i: int| is_first_key(s, key, i))
    } else {
        None
    }
}

/// `s` with `key` set to `value`: its first occurrence takes the value in place, or the
/// pair is appended when the key is new (how inserting into a JSON object or TOML table
/// behaves).
pub open spec fn upserted<U>(s: Seq<(Seq<char>, U)>, key: Seq<char>, value: U) -> Seq<
    (Seq<char>, U),
> {
    match first_index(s, key) {
        Some(i) => s.update(i, (key, value)),
        None => s.push((key, value)),
    }
}

/// What the document holds under `key`.
pub open spec fn section_kind<T>(root: Seq<(Seq<char>, ConfigMember<T>)>, key: Seq<char>) -> ConfigSection {
    match first_index(root, key) {
        None => ConfigSection::Absent,
        Some(i) => match root[i].1 {
            ConfigMember::Table(_) => ConfigSection::Table,
            ConfigMember::Value(_) => ConfigSection::Other,
        },
    }
}

/// The server entries the document holds under `key` (none when the key is absent).
pub open spec fn section_entries<T>(root: Seq<(Seq<char>, ConfigMember<T>)>, key: Seq<char>) -> Seq<
    (Seq<char>, T),
> {
    match first_index(root, key) {
        Some(i) => match root[i].1 {
            ConfigMember::Table(t) => keyed(t@),
            ConfigMember::Value(_) => Seq::empty(),
        },
        None => Seq::empty(),
    }
}

/// `after` is `before` with the browser's server `entry` set in the table under `key`: the
/// table keeps its place (or is appended when new), every other top-level member is kept,
/// and inside the table every other entry is kept.
pub open spec fn server_entry_added<T>(
    before: Seq<(Seq<char>, ConfigMember<T>)>,
    after: Seq<(Seq<char>, ConfigMember<T>)>,
    key: Seq<char>,
    entry: T,
) -> bool {
    let i = match first_index(before, key) {
        Some(i) => i,
        None => before.len() as int,
    };
    &&& after.len() == if first_index(before, key) is Some {
        before.len()
    } else {
        before.len() + 1
    }
    &&& forall|j: int| 0 <= j < before.len() && j != i ==> #[trigger] after[j] == before[j]
    &&& after[i].0 == key
    &&& match after[i].1 {
        ConfigMember::Table(t) => keyed(t@) == upserted(
            section_entries(before, key),
            SERVER_ENTRY_NAME@,
            entry,
        ),
        ConfigMember::Value(_) => false,
    }
}

/// Finds the first position of `key`.
fn find_key<U>(members: &Vec<(String, U)>, key: &str) -> (r: Option<usize>)
    ensures
        match r {
            Some(i) => first_index(keyed(members@), key@) == Some(i as int),
            None => first_index(keyed(members@), key@) is None,
        },
{
    let ghost s = keyed(members@);
    let n = members.len();
    let mut i: usize = 0;
    while i < n
        invariant
            n == members@.len(),
            s == keyed(members@),
            i <= n,
            forall|j: int| 0 <= j < i ==> s[j].0 != key@,
        decreases n - i,
    {
        assert(s[i as int].0 == members@[i as int].0@);
        if str_eq(members[i].0.as_str(), key) {
            assert(is_first_key(s, key@, i as int));
            proof {
                let c = choose|c: int| is_first_key(s, key@, c);
                if c < i {
                    assert(s[c].0 != key@);
                }
                if i < c {
                    assert(s[i as int].0 != key@);
                }
            }
            return Some(i);
        }
        i = i + 1;
    }
    proof {
        if exists|c: int| is_first_key(s, key@, c) {
            let c = choose|c: int| is_first_key(s, key@, c);
            assert(s[c].0 != key@);
        }
    }
    None
}

/// Sets `key` to `value` among `members`.
fn upsert<U>(members: &mut Vec<(String, U)>, key: &str, value: U)
    ensures
        keyed(final(members)@) == upserted(keyed(old(members)@), key@, value),
{
    match find_key(members, key) {
        Some(i) => {
            let _ = members.remove(i);
            members.insert(i, (key.to_owned(), value));
            assert(keyed(members@) =~= keyed(old(members)@).update(i as int, (key@, value)));
        },
        None => {
            members.push((key.to_owned(), value));
            assert(keyed(members@) =~= keyed(old(members)@).push((key@, value)));
        },
    }
}

/// Adds the browser's server `entry` to a configuration document whose top-level members
/// are `root` (`None` when the document is not a table at all), in the layout of `format`.
///
/// Fails, with the message `config_shape_error` gives, when the document or the member
/// under the section key is not a table; otherwise every other setting and every other
/// server entry is kept.
pub fn add_server_entry<T>(
    root: Option<Vec<(String, ConfigMember<T>)>>,
    format: McpConfigFormat,
    entry: T,
) -> (r: Result<Vec<(String, ConfigMember<T>)>, String>)
    ensures
        root is None ==> (r matches Err(m) && config_shape_problem(
            format,
            false,
            ConfigSection::Absent,
        ) == Some(m@)),
        root matches Some(members) ==> {
            let before = keyed(members@);
            let key = section_key_of(format);
            match config_shape_problem(format, true, section_kind(before, key)) {
                Some(m) => (r matches Err(e) && e@ == m),
                None => (r matches Ok(out) && server_entry_added(before, keyed(out@), key, entry)),
            }
        },
{
    let mut members = match root {
        Some(members) => members,
        None => {
            return match config_shape_error(format, false, ConfigSection::Absent) {
                Some(message) => Err(message),
                None => {
                    proof {
                        assert(false);
                    }
                    Err(String::new())
                },
            };
        },
    };
    let ghost before = keyed(members@);
    let key = format.section_key();
    let found = find_key(&members, key);
    let kind = match found {
        None => ConfigSection::Absent,
        Some(i) => match &members[i].1 {
            ConfigMember::Table(_) => ConfigSection::Table,
            ConfigMember::Value(_) => ConfigSection::Other,
        },
    };
    assert(kind == section_kind(before, key@));
    match config_shape_error(format, true, kind) {
        Some(message) => {
            return Err(message);
        },
        None => {},
    }
    match found {
        Some(i) => {
            let ghost m0 = members@;
            let (name, member) = members.remove(i);
            let mut table = match member {
                ConfigMember::Table(table) => table,
                ConfigMember::Value(_) => {
                    proof {
                        assert(false);
                    }
                    Vec::new()
                },
            };
            assert(keyed(table@) == section_entries(before, key@));
            upsert(&mut table, SERVER_ENTRY_NAME, entry);
            members.insert(i, (name, ConfigMember::Table(table)));
            assert(members@ =~= m0.update(i as int, members@[i as int]));
            assert(keyed(members@)[i as int].0 == key@);
        },
        None => {
            let mut table: Vec<(String, T)> = Vec::new();
            assert(keyed(table@) =~= section_entries(before, key@));
            upsert(&mut table, SERVER_ENTRY_NAME, entry);
            members.push((key.to_owned(), ConfigMember::Table(table)));
        },
    }
    Ok(members)
}

/// Setting a key keeps every other member in its place, and the key then reads back the
/// value just set.
pub proof fn law_upsert_keeps_others<U>(s: Seq<(Seq<char>, U)>, key: Seq<char>, value: U)
    ensures
        forall|j: int|
            0 <= j < s.len() && s[j].0 != key ==> #[trigger] upserted(s, key, value)[j] == s[j],
        first_index(upserted(s, key, value), key) matches Some(i) && upserted(s, key, value)[i].1
            == value,
{
    lemma_first_index_after_upsert(s, key, value);
}

/// Setting the same key to the same value twice is the same as setting it once.
pub proof fn law_upsert_idempotent<U>(s: Seq<(Seq<char>, U)>, key: Seq<char>, value: U)
    ensures
        upserted(upserted(s, key, value), key, value) == upserted(s, key, value),
{
    lemma_first_index_after_upsert(s, key, value);
    let t = upserted(s, key, value);
    let i = first_index(t, key)->0;
    assert(t[i] == (key, value));
    assert(t.update(i, (key, value)) =~= t);
}

/// After a key is set, its first occurrence is where the value went.
pub proof fn lemma_first_index_after_upsert<U>(s: Seq<(Seq<char>, U)>, key: Seq<char>, value: U)
    ensures
        first_index(upserted(s, key, value), key) == Some(
            match first_index(s, key) {
                Some(i) => i,
                None => s.len() as int,
            },
        ),
        upserted(s, key, value)[match first_index(s, key) {
            Some(i) => i,
            None => s.len() as int,
        }] == (key, value),
{
    let t = upserted(s, key, value);
    let i = match first_index(s, key) {
        Some(i) => i,
        None => s.len() as int,
    };
    match first_index(s, key) {
        Some(c) => {
            assert(is_first_key(s, key, c));
        },
        None => {
            assert forall|j: int| 0 <= j < s.len() implies s[j].0 != key by {
                if s[j].0 == key {
                    lemma_some_first(s, key, j);
                }
            }
        },
    }
    assert(is_first_key(t, key, i));
    let c = choose|c: int| is_first_key(t, key, c);
    if c < i {
        assert(t[c].0 != key);
    }
    if i < c {
        assert(t[i].0 != key);
    }
}

/// A key that occurs somewhere has a first occurrence.
proof fn lemma_some_first<U>(s: Seq<(Seq<char>, U)>, key: Seq<char>, j: int)
    requires
        0 <= j < s.len(),
        s[j].0 == key,
    ensures
        first_index(s, key) is Some,
    decreases j,
{
    if forall|k: int| 0 <= k < j ==> s[k].0 != key {
        assert(is_first_key(s, key, j));
    } else {
        let k = choose|k: int| 0 <= k < j && s[k].0 == key;
        lemma_some_first(s, key, k);
    }
}

/// Registering keeps every other setting and every other server: top-level members under
/// other keys stay in place, the other entries of the server table stay in place, and the
/// table then holds the browser's entry.
pub proof fn law_registration_keeps_other_settings<T>(
    before: Seq<(Seq<char>, ConfigMember<T>)>,
    after: Seq<(Seq<char>, ConfigMember<T>)>,
    key: Seq<char>,
    entry: T,
)
    requires
        server_entry_added(before, after, key, entry),
    ensures
        forall|j: int| 0 <= j < before.len() && before[j].0 != key ==> #[trigger] after[j] == before[j],
        forall|j: int|
            0 <= j < section_entries(before, key).len() && section_entries(before, key)[j].0
                != SERVER_ENTRY_NAME@ ==> #[trigger] section_entries(after, key)[j]
                == section_entries(before, key)[j],
        first_index(section_entries(after, key), SERVER_ENTRY_NAME@) matches Some(i)
            && section_entries(after, key)[i].1 == entry,
{
    lemma_table_is_first(before, after, key, entry);
    law_upsert_keeps_others(section_entries(before, key), SERVER_ENTRY_NAME@, entry);
}

/// Registering a second time with the same entry changes nothing more.
pub proof fn law_registering_twice_is_registering_once<T>(
    before: Seq<(Seq<char>, ConfigMember<T>)>,
    once: Seq<(Seq<char>, ConfigMember<T>)>,
    twice: Seq<(Seq<char>, ConfigMember<T>)>,
    key: Seq<char>,
    entry: T,
)
    requires
        server_entry_added(before, once, key, entry),
        server_entry_added(once, twice, key, entry),
    ensures
        twice.len() == once.len(),
        forall|j: int| 0 <= j < once.len() && once[j].0 != key ==> #[trigger] twice[j] == once[j],
        section_entries(twice, key) == section_entries(once, key),
{
    lemma_table_is_first(before, once, key, entry);
    lemma_table_is_first(once, twice, key, entry);
    law_upsert_idempotent(section_entries(before, key), SERVER_ENTRY_NAME@, entry);
}

/// After the entry is added, the table under `key` sits where the first occurrence of
/// `key` was (or at the end), and it is the first occurrence there too.
proof fn lemma_table_is_first<T>(
    before: Seq<(Seq<char>, ConfigMember<T>)>,
    after: Seq<(Seq<char>, ConfigMember<T>)>,
    key: Seq<char>,
    entry: T,
)
    requires
        server_entry_added(before, after, key, entry),
    ensures
        first_index(after, key) == Some(
            match first_index(before, key) {
                Some(i) => i,
                None => before.len() as int,
            },
        ),
        section_entries(after, key) == upserted(
            section_entries(before, key),
            SERVER_ENTRY_NAME@,
            entry,
        ),
{
    let i = match first_index(before, key) {
        Some(i) => i,
        None => before.len() as int,
    };
    match first_index(before, key) {
        Some(c) => {
            assert(is_first_key(before, key, c));
        },
        None => {
            assert forall|j: int| 0 <= j < before.len() implies before[j].0 != key by {
                if before[j].0 == key {
                    lemma_some_first(before, key, j);
                }
            }
        },
    }
    assert forall|j: int| 0 <= j < i implies after[j].0 != key by {
        assert(after[j] == before[j]);
    }
    assert(is_first_key(after, key, i));
    let c = choose|c: int| is_first_key(after, key, c);
    if c < i {
        assert(after[c].0 != key);
    }
    if i < c {
        assert(after[i].0 != key);
    }
}

} // verus!
