//! Decoding what a page sends back after running a tool's script.
//!
//! The injected script answers with a JSON envelope `{"ok": true, "value": ...}` or
//! `{"ok": false, "error": "..."}`.

use vstd::prelude::*;
use vstd::string::StringExecFns;

use crate::text::str_eq;

verus! {

/// A member value of a JSON object, as far as decoding replies needs to see it.
#[derive(Clone, Debug, PartialEq, Eq)]
pub enum JsonMember {
    /// A JSON boolean.
    Bool(bool),
    /// A JSON string, unescaped.
    Text(String),
    /// Any other JSON value, in its compact JSON form.
    Other(String),
}

/// [`JsonMember`] as a plain value.
pub enum JsonMemberView {
    Bool(bool),
    Text(Seq<char>),
    Other(Seq<char>),
}

impl View for JsonMember {
    type V = JsonMemberView;

    open spec fn view(&self) -> JsonMemberView {
        match self {
            JsonMember::Bool(b) => JsonMemberView::Bool(*b),
            JsonMember::Text(s) => JsonMemberView::Text(s@),
            JsonMember::Other(s) => JsonMemberView::Other(s@),
        }
    }
}

/// The members of the top-level JSON object in `raw`, as `serde_json::from_str::<Value>`
/// reads it: `Err` with the parser's message when `raw` is not JSON, `Ok(None)` when it is
/// not an object, otherwise each member's key and value.
pub uninterp spec fn json_object_members(raw: Seq<char>) -> Result<
    Option<Seq<(Seq<char>, JsonMemberView)>>,
    Seq<char>,
>;

/// A parse result as plain values.
pub open spec fn members_view(r: Result<Option<Vec<(String, JsonMember)>>, String>) -> Result<
    Option<Seq<(Seq<char>, JsonMemberView)>>,
    Seq<char>,
> {
    match r {
        Err(m) => Err(m@),
        Ok(None) => Ok(None),
        Ok(Some(v)) => Ok(Some(v@.map_values(|p: (String, JsonMember)| (p.0@, p.1@)))),
    }
}

/// Calls `serde_json::from_str::<serde_json::Value>(raw)`; on success and an object, lists
/// its members, telling booleans and strings apart and writing any other value with
/// `to_string()`.
///
/// Claimed: the result is the one named by `json_object_members`, a function of `raw` alone.
#[verifier::external_body]
fn parse_json_object_members(raw: &str) -> (r: Result<Option<Vec<(String, JsonMember)>>, String>)
    ensures
        members_view(r) == json_object_members(raw@),
{
    let value: serde_json::Value = match serde_json::from_str(raw) {
        Ok(value) => value,
        Err(error) => return Err(error.to_string()),
    };
    let serde_json::Value::Object(members) = value else {
        return Ok(None);
    };
    Ok(Some(members.into_iter().map(|(key, member)| (key, match member {
        serde_json::Value::Bool(b) => JsonMember::Bool(b),
        serde_json::Value::String(s) => JsonMember::Text(s),
        other => JsonMember::Other(other.to_string()),
    })).collect()))
}

/// The value of the first member named `key`.
pub open spec fn member(members: Seq<(Seq<char>, JsonMemberView)>, key: Seq<char>) -> Option<
    JsonMemberView,
> {
    if exists|i: int| 0 <= i < members.len() && members[i].0 == key {
        let i = choose|i: int|
            0 <= i < members.len() && members[i].0 == key && forall|j: int|
                0 <= j < i ==> members[j].0 != key;
        Some(members[i].1)
    } else {
        None
    }
}

/// How a successful reply's value reads as text: strings as they are, anything else (and a
/// missing value, read as `null`) in JSON form.
pub open spec fn value_text(v: Option<JsonMemberView>) -> Seq<char> {
    match v {
        Some(JsonMemberView::Text(s)) => s,
        Some(JsonMemberView::Bool(b)) => if b {
            "true"@
        } else {
            "false"@
        },
        Some(JsonMemberView::Other(s)) => s,
        None => "null"@,
    }
}

/// What a reply means, given how its JSON was read (`parsed`, as `json_object_members`
/// describes it): the value on success, otherwise the page's error message, or a
/// description of why the reply could not be read.
pub open spec fn reply_outcome(
    parsed: Result<Option<Seq<(Seq<char>, JsonMemberView)>>, Seq<char>>,
) -> Result<Seq<char>, Seq<char>> {
    match parsed {
        Err(m) => Err("invalid evaluation result: "@ + m),
        Ok(None) => Err("invalid evaluation result: expected an object"@),
        Ok(Some(members)) => match member(members, "ok"@) {
            Some(JsonMemberView::Bool(true)) => Ok(value_text(member(members, "value"@))),
            Some(JsonMemberView::Bool(false)) => match member(members, "error"@) {
                Some(JsonMemberView::Text(m)) => Err(m),
                _ => Err("evaluation failed without an error message"@),
            },
            _ => Err("invalid evaluation result: missing `ok`"@),
        },
    }
}

/// What the reply text `raw` means.
pub open spec fn eval_outcome(raw: Seq<char>) -> Result<Seq<char>, Seq<char>> {
    reply_outcome(json_object_members(raw))
}

/// Finds the first member named `key`.
fn find_member<'a>(members: &'a Vec<(String, JsonMember)>, key: &str) -> (r: Option<&'a JsonMember>)
    ensures
        match r {
            Some(m) => member(members@.map_values(|p: (String, JsonMember)| (p.0@, p.1@)), key@)
                == Some(m@),
            None => member(members@.map_values(|p: (String, JsonMember)| (p.0@, p.1@)), key@)
                is None,
        },
{
    let ghost ms = members@.map_values(|p: (String, JsonMember)| (p.0@, p.1@));
    let n = members.len();
    let mut i: usize = 0;
    while i < n
        invariant
            n == members@.len(),
            ms == members@.map_values(|p: (String, JsonMember)| (p.0@, p.1@)),
            i <= n,
            forall|j: int| 0 <= j < i ==> ms[j].0 != key@,
        decreases n - i,
    {
        let entry = &members[i];
        assert(ms[i as int] == (entry.0@, entry.1@));
        if str_eq(entry.0.as_str(), key) {
            proof {
                let c = choose|c: int|
                    0 <= c < ms.len() && ms[c].0 == key@ && forall|j: int|
                        0 <= j < c ==> ms[j].0 != key@;
                if c < i {
                    assert(ms[c].0 != key@);
                }
                if i < c {
                    assert(ms[i as int].0 != key@);
                }
            }
            return Some(&entry.1);
        }
        i = i + 1;
    }
    proof {
        if exists|c: int| 0 <= c < ms.len() && ms[c].0 == key@ {
            let c = choose|c: int| 0 <= c < ms.len() && ms[c].0 == key@;
            assert(ms[c].0 != key@);
        }
    }
    None
}

/// Decodes a reply whose JSON has been read into `parsed`.
pub fn decode_reply(parsed: &Result<Option<Vec<(String, JsonMember)>>, String>) -> (r: Result<
    String,
    String,
>)
    ensures
        match r {
            Ok(v) => reply_outcome(members_view(*parsed)) == Ok::<Seq<char>, Seq<char>>(v@),
            Err(e) => reply_outcome(members_view(*parsed)) == Err::<Seq<char>, Seq<char>>(e@),
        },
{
    let members = match parsed {
        Err(message) => {
            let mut text = "invalid evaluation result: ".to_owned();
            text.append(message.as_str());
            return Err(text);
        },
        Ok(None) => {
            return Err("invalid evaluation result: expected an object".to_owned());
        },
        Ok(Some(members)) => members,
    };
    let ghost ms = members@.map_values(|p: (String, JsonMember)| (p.0@, p.1@));
    assert(members_view(*parsed) == Ok::<Option<Seq<(Seq<char>, JsonMemberView)>>, Seq<char>>(
        Some(ms),
    ));
    assert(reply_outcome(members_view(*parsed)) == match member(ms, "ok"@) {
        Some(JsonMemberView::Bool(true)) => Ok(value_text(member(ms, "value"@))),
        Some(JsonMemberView::Bool(false)) => match member(ms, "error"@) {
            Some(JsonMemberView::Text(m)) => Err(m),
            _ => Err("evaluation failed without an error message"@),
        },
        _ => Err::<Seq<char>, Seq<char>>("invalid evaluation result: missing `ok`"@),
    });
    let ok = match find_member(members, "ok") {
        Some(JsonMember::Bool(ok)) => *ok,
        _ => {
            return Err("invalid evaluation result: missing `ok`".to_owned());
        },
    };
    if ok {
        match find_member(members, "value") {
            Some(JsonMember::Text(s)) => Ok(s.clone()),
            Some(JsonMember::Bool(b)) => Ok(
                if *b {
                    "true".to_owned()
                } else {
                    "false".to_owned()
                },
            ),
            Some(JsonMember::Other(s)) => Ok(s.clone()),
            None => Ok("null".to_owned()),
        }
    } else {
        match find_member(members, "error") {
            Some(JsonMember::Text(s)) => Err(s.clone()),
            _ => Err("evaluation failed without an error message".to_owned()),
        }
    }
}

/// Decodes the reply of a tool script.
pub fn eval_result(raw: &str) -> (r: Result<String, String>)
    ensures
        match r {
            Ok(v) => eval_outcome(raw@) == Ok::<Seq<char>, Seq<char>>(v@),
            Err(e) => eval_outcome(raw@) == Err::<Seq<char>, Seq<char>>(e@),
        },
{
    let parsed = parse_json_object_members(raw);
    decode_reply(&parsed)
}

/// A successful reply hands back its value as text: a JSON string as the string itself, the
/// booleans as `true` and `false`, any other JSON value in its JSON form, and a missing value
/// as `null`. A failed reply hands back the page's error message.
pub proof fn law_reply_value_as_text(members: Seq<(Seq<char>, JsonMemberView)>)
    ensures
        member(members, "ok"@) == Some(JsonMemberView::Bool(true)) ==> {
            &&& member(members, "value"@) == Some(JsonMemberView::Bool(true)) ==> reply_outcome(
                Ok(Some(members)),
            ) == Ok::<Seq<char>, Seq<char>>("true"@)
            &&& member(members, "value"@) == Some(JsonMemberView::Bool(false)) ==> reply_outcome(
                Ok(Some(members)),
            ) == Ok::<Seq<char>, Seq<char>>("false"@)
            &&& forall|s: Seq<char>|
                member(members, "value"@) == Some(JsonMemberView::Text(s)) ==> reply_outcome(
                    Ok(Some(members)),
                ) == Ok::<Seq<char>, Seq<char>>(s)
            &&& forall|s: Seq<char>|
                member(members, "value"@) == Some(JsonMemberView::Other(s)) ==> reply_outcome(
                    Ok(Some(members)),
                ) == Ok::<Seq<char>, Seq<char>>(s)
            &&& member(members, "value"@) is None ==> reply_outcome(Ok(Some(members))) == Ok::<
                Seq<char>,
                Seq<char>,
            >("null"@)
        },
        member(members, "ok"@) == Some(JsonMemberView::Bool(false)) ==> forall|m: Seq<char>|
            member(members, "error"@) == Some(JsonMemberView::Text(m)) ==> reply_outcome(
                Ok(Some(members)),
            ) == Err::<Seq<char>, Seq<char>>(m),
{
}

} // verus!
