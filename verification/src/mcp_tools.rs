//! What the MCP tools send to the browser: tab listings, error reports and the scripts that
//! the page-level tools run inside a tab.

use vstd::prelude::*;
use vstd::string::StringExecFns;

use crate::navigation::{has_tab_with_raw_id, resolve_tab_id};
use crate::tabs::{TabId, TabManager};

verus! {

/// Browser tab metadata returned by `list_tabs`.
#[derive(Clone, Debug, PartialEq, Eq)]
pub struct TabInfo {
    pub id: u64,
    pub url: String,
    pub title: String,
    pub active: bool,
}

/// The listing of `tabs`: one entry per tab, in key order, marking the selected one.
pub fn tab_infos(tabs: &TabManager) -> (r: Vec<TabInfo>)
    ensures
        r@.len() == tabs.tab_list().len(),
        forall|i: int|
            0 <= i < r@.len() ==> {
                let t = tabs.tab_list()[i];
                &&& (#[trigger] r@[i]).id == t.id.value()
                &&& r@[i].url@ == t.url@
                &&& r@[i].title@ == t.title@
                &&& r@[i].active == (tabs.current_key() == Some(t.id.value()))
            },
{
    let current = tabs.current_id();
    let list = tabs.tabs();
    let n = list.len();
    let mut out: Vec<TabInfo> = Vec::new();
    let mut i: usize = 0;
    while i < n
        invariant
            n == list@.len(),
            list@ == tabs.tab_list(),
            current is None <==> tabs.current_key() is None,
            current matches Some(c) ==> tabs.current_key() == Some(c.value()),
            i <= n,
            out@.len() == i,
            forall|j: int|
                0 <= j < i ==> {
                    let t = tabs.tab_list()[j];
                    &&& (#[trigger] out@[j]).id == t.id.value()
                    &&& out@[j].url@ == t.url@
                    &&& out@[j].title@ == t.title@
                    &&& out@[j].active == (tabs.current_key() == Some(t.id.value()))
                },
        decreases n - i,
    {
        let tab = &list[i];
        let id = tab.id.get();
        let active = match current {
            Some(c) => c.get() == id,
            None => false,
        };
        out.push(TabInfo { id, url: tab.url.clone(), title: tab.title.clone(), active });
        i = i + 1;
    }
    out
}

/// The browser event loop is no longer accepting requests.
#[derive(Clone, Copy, Debug, PartialEq, Eq, Structural)]
pub enum DispatchError {
    LoopClosed,
}

impl DispatchError {
    /// The text shown for this error.
    pub fn message(&self) -> (r: &'static str)
        ensures
            r@ == "browser event loop is closed"@,
    {
        "browser event loop is closed"
    }
}

/// Why a request to the browser's event loop brought no answer.
#[derive(Clone, Copy, Debug, PartialEq, Eq, Structural)]
pub enum RequestFailure {
    /// The request could not be handed to the event loop.
    Dispatch(DispatchError),
    /// The event loop did not answer in time.
    TimedOut,
    /// The event loop dropped the request without answering.
    Dropped,
}

/// The text a tool reports for `failure`.
pub open spec fn failure_text(failure: RequestFailure) -> Seq<char> {
    match failure {
        RequestFailure::Dispatch(_) => "browser event loop is closed"@,
        RequestFailure::TimedOut => "browser request timed out"@,
        RequestFailure::Dropped => "browser dropped the response"@,
    }
}

impl RequestFailure {
    /// The text a tool reports for this failure.
    pub fn message(&self) -> (r: &'static str)
        ensures
            r@ == failure_text(*self),
    {
        match self {
            RequestFailure::Dispatch(error) => error.message(),
            RequestFailure::TimedOut => "browser request timed out",
            RequestFailure::Dropped => "browser dropped the response",
        }
    }
}

/// Which tab a script request runs in: the named tab when `target` is given (an error when
/// there is none), otherwise the selected tab (an error when nothing is selected).
pub fn resolve_eval_target(tabs: &TabManager, target: Option<u64>) -> (r: Result<
    TabId,
    &'static str,
>)
    ensures
        match target {
            Some(raw) => match r {
                Ok(id) => has_tab_with_raw_id(tabs.tab_list(), raw) && id.value() == raw,
                Err(m) => !has_tab_with_raw_id(tabs.tab_list(), raw) && m@
                    == "target tab not found"@,
            },
            None => match r {
                Ok(id) => tabs.current_key() == Some(id.value()),
                Err(m) => tabs.current_key() is None && m@ == "no active tab"@,
            },
        },
{
    match target {
        Some(raw) => match resolve_tab_id(tabs, raw) {
            Some(id) => Ok(id),
            None => Err("target tab not found"),
        },
        None => match tabs.current_id() {
            Some(id) => Ok(id),
            None => Err("no active tab"),
        },
    }
}

/// A lower-case hexadecimal digit.
pub open spec fn hex_lower(d: int) -> char {
    if d < 10 {
        (d + 48) as char
    } else {
        (d + 87) as char
    }
}

/// How a JSON string literal writes one character: quote, backslash and control characters
/// are escaped (the common ones by letter, the rest as `\u00XX`), everything else is kept.
pub open spec fn json_escaped_char(c: char) -> Seq<char> {
    let v = c as u32;
    if c == '"' {
        seq!['\\', '"']
    } else if c == '\\' {
        seq!['\\', '\\']
    } else if v == 0x08 {
        seq!['\\', 'b']
    } else if v == 0x0C {
        seq!['\\', 'f']
    } else if c == '\n' {
        seq!['\\', 'n']
    } else if c == '\r' {
        seq!['\\', 'r']
    } else if c == '\t' {
        seq!['\\', 't']
    } else if v < 0x20 {
        seq!['\\', 'u', '0', '0', hex_lower(v as int / 16), hex_lower(v as int % 16)]
    } else {
        seq![c]
    }
}

/// The escaped characters of `s`.
pub open spec fn json_escaped(s: Seq<char>) -> Seq<char>
    decreases s.len(),
{
    if s.len() == 0 {
        Seq::empty()
    } else {
        json_escaped_char(s[0]) + json_escaped(s.drop_first())
    }
}

/// `s` as a JSON (and JavaScript) string literal.
pub open spec fn json_quoted(s: Seq<char>) -> Seq<char> {
    seq!['"'] + json_escaped(s) + seq!['"']
}

/// Calls `serde_json::to_string(value)` on a string.
///
/// Claimed: serialising a `str` into memory cannot fail (the writer is a `Vec<u8>`), and the
/// text is `value` between double quotes with `json_escaped_char` applied to every
/// character, as the crate's string formatter writes it.
#[verifier::external_body]
fn serde_json_quote(value: &str) -> (r: Result<String, String>)
    ensures
        r is Ok,
        r matches Ok(s) ==> s@ == json_quoted(value@),
{
    match serde_json::to_string(value) {
        Ok(text) => Ok(text),
        Err(error) => Err(error.to_string()),
    }
}

/// `value` as a JavaScript string literal.
pub fn js_string(value: &str) -> (r: String)
    ensures
        r@ == json_quoted(value@),
{
    match serde_json_quote(value) {
        Ok(text) => text,
        Err(_) => {
            proof {
                assert(false);
            }
            String::new()
        },
    }
}

/// `body` wrapped so that it runs as an async function and reports a thrown error as a
/// string starting with `ERR:`.
pub open spec fn wrapped(body: Seq<char>) -> Seq<char> {
    "(async()=>{try{"@ + body + "}catch(e){return 'ERR:'+(e?.message??String(e));}})()"@
}

/// Wraps a script body so that errors come back as `ERR:` strings.
pub fn wrapped_script(body: &str) -> (r: String)
    ensures
        r@ == wrapped(body@),
{
    let mut s = "(async()=>{try{".to_owned();
    s.append(body);
    s.append("}catch(e){return 'ERR:'+(e?.message??String(e));}})()");
    s
}

/// The start of every element script: find the element or fail.
pub open spec fn find_element(selector_literal: Seq<char>) -> Seq<char> {
    "const el=document.querySelector("@ + selector_literal
        + ");if(!el) throw new Error('element not found');"@
}

fn find_element_code(selector: &str) -> (r: String)
    ensures
        r@ == find_element(json_quoted(selector@)),
{
    let mut s = "const el=document.querySelector(".to_owned();
    let literal = js_string(selector);
    s.append(literal.as_str());
    s.append(");if(!el) throw new Error('element not found');");
    s
}

/// The script behind `get_dom`: the outer HTML of the element `selector` picks
/// (`html` when no selector is given).
pub fn get_dom_script(selector: Option<&str>) -> (r: String)
    ensures
        r@ == wrapped(
            find_element(
                json_quoted(
                    match selector {
                        Some(s) => s@,
                        None => "html"@,
                    },
                ),
            ) + "return el.outerHTML;"@,
        ),
{
    let chosen = match selector {
        Some(s) => s,
        None => "html",
    };
    let mut body = find_element_code(chosen);
    body.append("return el.outerHTML;");
    wrapped_script(body.as_str())
}

/// The script behind `get_text`: the rendered text of the element `selector` picks
/// (`body` when no selector is given).
pub fn get_text_script(selector: Option<&str>) -> (r: String)
    ensures
        r@ == wrapped(
            find_element(
                json_quoted(
                    match selector {
                        Some(s) => s@,
                        None => "body"@,
                    },
                ),
            ) + "return el.innerText;"@,
        ),
{
    let chosen = match selector {
        Some(s) => s,
        None => "body",
    };
    let mut body = find_element_code(chosen);
    body.append("return el.innerText;");
    wrapped_script(body.as_str())
}

/// The script behind `evaluate`: the value of `source`, evaluated (and awaited) in the page.
pub fn evaluate_script(source: &str) -> (r: String)
    ensures
        r@ == wrapped("return await eval("@ + json_quoted(source@) + ");"@),
{
    let mut body = "return await eval(".to_owned();
    let literal = js_string(source);
    body.append(literal.as_str());
    body.append(");");
    wrapped_script(body.as_str())
}

/// The script behind `click`: clicks the element `selector` picks.
pub fn click_script(selector: &str) -> (r: String)
    ensures
        r@ == wrapped(find_element(json_quoted(selector@)) + "el.click(); return 'ok';"@),
{
    let mut body = find_element_code(selector);
    body.append("el.click(); return 'ok';");
    wrapped_script(body.as_str())
}

/// The script behind `type`: focuses the element `selector` picks, replaces its value with
/// `text`, and fires `input` and `change` events.
pub fn type_script(selector: &str, text: &str) -> (r: String)
    ensures
        r@ == wrapped(
            find_element(json_quoted(selector@)) + "el.focus(); el.value="@ + json_quoted(text@)
                + ";el.dispatchEvent(new Event('input',{bubbles:true}));el.dispatchEvent(new Event('change',{bubbles:true}));return 'ok';"@,
        ),
{
    let mut body = find_element_code(selector);
    body.append("el.focus(); el.value=");
    let literal = js_string(text);
    body.append(literal.as_str());
    body.append(
        ";el.dispatchEvent(new Event('input',{bubbles:true}));el.dispatchEvent(new Event('change',{bubbles:true}));return 'ok';",
    );
    wrapped_script(body.as_str())
}

} // verus!
