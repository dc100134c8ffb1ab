//! Registering the browser's MCP server with the configuration files of MCP clients.
//!
//! Reading, merging and writing the files is left to the caller; this module decides which
//! file and which layout belong to each client, and assembles the report.

use vstd::prelude::*;
use vstd::string::StringExecFns;

use crate::text::str_eq;

verus! {

/// Where a supported client keeps its configuration, relative to the home directory.
pub open spec fn client_config_relative_path(client: Seq<char>) -> Option<Seq<char>> {
    if client == "cursor"@ {
        Some(".cursor/mcp.json"@)
    } else if client == "windsurf"@ {
        Some(".codeium/windsurf/mcp_config.json"@)
    } else if client == "antigravity"@ {
        Some(".gemini/config/mcp_config.json"@)
    } else if client == "zed"@ {
        Some(".config/zed/settings.json"@)
    } else if client == "codex"@ {
        Some(".codex/config.toml"@)
    } else if client == "opencode"@ {
        Some(".config/opencode/opencode.json"@)
    } else {
        None
    }
}

/// `base` with the relative path `rel` appended, a `/` put between them unless `base` is
/// empty or already ends with one (how a relative path is pushed onto a Unix path).
pub open spec fn join_path(base: Seq<char>, rel: Seq<char>) -> Seq<char> {
    if base.len() == 0 {
        rel
    } else if base.last() == '/' {
        base + rel
    } else {
        base + seq!['/'] + rel
    }
}

/// The relative configuration path of `client`, if it is supported.
fn relative_config_path(client: &str) -> (r: Option<&'static str>)
    ensures
        r matches Some(p) ==> client_config_relative_path(client@) == Some(p@),
        r is None ==> client_config_relative_path(client@) is None,
{
    if str_eq(client, "cursor") {
        Some(".cursor/mcp.json")
    } else if str_eq(client, "windsurf") {
        Some(".codeium/windsurf/mcp_config.json")
    } else if str_eq(client, "antigravity") {
        Some(".gemini/config/mcp_config.json")
    } else if str_eq(client, "zed") {
        Some(".config/zed/settings.json")
    } else if str_eq(client, "codex") {
        Some(".codex/config.toml")
    } else if str_eq(client, "opencode") {
        Some(".config/opencode/opencode.json")
    } else {
        None
    }
}

/// The configuration file of `client` under the home directory `home`, if the client is
/// supported.
pub fn mcp_client_config_path(home: &str, client: &str) -> (r: Option<String>)
    ensures
        r is None <==> client_config_relative_path(client@) is None,
        r matches Some(p) ==> p@ == join_path(home@, client_config_relative_path(client@)->0),
{
    let rel = match relative_config_path(client) {
        Some(rel) => rel,
        None => {
            return None;
        },
    };
    let n = home.unicode_len();
    let mut path = home.to_owned();
    if n > 0 && home.get_char(n - 1) != '/' {
        path.append("/");
        proof {
            reveal_strlit("/");
        }
    }
    path.append(rel);
    proof {
        if n > 0 {
            assert(home@.last() == home@[n - 1]);
        }
    }
    Some(path)
}

/// The layout in which a client expects the server entry.
#[derive(Clone, Copy, Debug, PartialEq, Eq, Structural)]
pub enum McpConfigFormat {
    /// JSON with the entry under `mcpServers`.
    McpServersJson,
    /// Zed's JSON settings, with the entry under `context_servers`.
    ZedContextServers,
    /// Codex's TOML, with the entry under `mcp_servers`.
    CodexToml,
    /// OpenCode's JSON, with the entry under `mcp`.
    OpencodeMcp,
}

/// The layout used for `client`.
pub open spec fn config_format_of(client: Seq<char>) -> McpConfigFormat {
    if client == "zed"@ {
        McpConfigFormat::ZedContextServers
    } else if client == "codex"@ {
        McpConfigFormat::CodexToml
    } else if client == "opencode"@ {
        McpConfigFormat::OpencodeMcp
    } else {
        McpConfigFormat::McpServersJson
    }
}

/// The layout in which `client` expects the server entry.
pub fn mcp_config_format(client: &str) -> (r: McpConfigFormat)
    ensures
        r == config_format_of(client@),
{
    if str_eq(client, "zed") {
        McpConfigFormat::ZedContextServers
    } else if str_eq(client, "codex") {
        McpConfigFormat::CodexToml
    } else if str_eq(client, "opencode") {
        McpConfigFormat::OpencodeMcp
    } else {
        McpConfigFormat::McpServersJson
    }
}

/// The name under which the browser's server is entered in every client configuration.
pub const SERVER_ENTRY_NAME: &'static str = "rab-browser";

/// The key of the section that holds server entries in each layout.
pub open spec fn section_key_of(format: McpConfigFormat) -> Seq<char> {
    match format {
        McpConfigFormat::McpServersJson => "mcpServers"@,
        McpConfigFormat::ZedContextServers => "context_servers"@,
        McpConfigFormat::CodexToml => "mcp_servers"@,
        McpConfigFormat::OpencodeMcp => "mcp"@,
    }
}

impl McpConfigFormat {
    /// The key of the section that holds server entries.
    pub fn section_key(self) -> (r: &'static str)
        ensures
            r@ == section_key_of(self),
    {
        match self {
            McpConfigFormat::McpServersJson => "mcpServers",
            McpConfigFormat::ZedContextServers => "context_servers",
            McpConfigFormat::CodexToml => "mcp_servers",
            McpConfigFormat::OpencodeMcp => "mcp",
        }
    }
}

/// What an existing configuration holds under the section key.
#[derive(Clone, Copy, Debug, PartialEq, Eq, Structural)]
pub enum ConfigSection {
    /// No such key: the section is created empty.
    Absent,
    /// A JSON object or TOML table: the entry is added to it.
    Table,
    /// Some other value: the configuration cannot be merged.
    Other,
}

/// Why a configuration cannot take the server entry, if it cannot: its root is not a
/// JSON object (TOML table for Codex), or its section is not one.
pub open spec fn config_shape_problem(
    format: McpConfigFormat,
    root_is_table: bool,
    section: ConfigSection,
) -> Option<Seq<char>> {
    let codex = format == McpConfigFormat::CodexToml;
    if !root_is_table {
        Some(
            if codex {
                "configuration root must be a TOML table"@
            } else {
                "configuration root must be a JSON object"@
            },
        )
    } else if section == ConfigSection::Other {
        Some(
            section_key_of(format) + if codex {
                " must be a TOML table"@
            } else {
                " must be a JSON object"@
            },
        )
    } else {
        None
    }
}

/// Checks that a configuration can take the server entry.
pub fn config_shape_error(format: McpConfigFormat, root_is_table: bool, section: ConfigSection) -> (r:
    Option<String>)
    ensures
        match r {
            Some(m) => config_shape_problem(format, root_is_table, section) == Some(m@),
            None => config_shape_problem(format, root_is_table, section) is None,
        },
{
    let codex = match format {
        McpConfigFormat::CodexToml => true,
        _ => false,
    };
    if !root_is_table {
        return Some(
            if codex {
                "configuration root must be a TOML table".to_owned()
            } else {
                "configuration root must be a JSON object".to_owned()
            },
        );
    }
    match section {
        ConfigSection::Other => {
            let mut message = format.section_key().to_owned();
            message.append(
                if codex {
                    " must be a TOML table"
                } else {
                    " must be a JSON object"
                },
            );
            Some(message)
        },
        _ => None,
    }
}

/// A value inside the server entry.
#[derive(Clone, Debug, PartialEq, Eq)]
pub enum EntryValue {
    Text(String),
    TextList(Vec<String>),
    Flag(bool),
}

/// [`EntryValue`] as a plain value.
pub enum EntryValueView {
    Text(Seq<char>),
    TextList(Seq<Seq<char>>),
    Flag(bool),
}

impl View for EntryValue {
    type V = EntryValueView;

    open spec fn view(&self) -> EntryValueView {
        match self {
            EntryValue::Text(s) => EntryValueView::Text(s@),
            EntryValue::TextList(v) => EntryValueView::TextList(v@.map_values(|s: String| s@)),
            EntryValue::Flag(b) => EntryValueView::Flag(*b),
        }
    }
}

/// The fields of the server entry for `format`, in order, starting the browser at
/// `executable` with `--mcp`.
pub open spec fn server_entry_fields(format: McpConfigFormat, executable: Seq<char>) -> Seq<
    (Seq<char>, EntryValueView),
> {
    match format {
        McpConfigFormat::ZedContextServers => seq![
            ("source"@, EntryValueView::Text("custom"@)),
            ("command"@, EntryValueView::Text(executable)),
            ("args"@, EntryValueView::TextList(seq!["--mcp"@])),
        ],
        McpConfigFormat::OpencodeMcp => seq![
            ("type"@, EntryValueView::Text("local"@)),
            ("command"@, EntryValueView::TextList(seq![executable, "--mcp"@])),
            ("enabled"@, EntryValueView::Flag(true)),
        ],
        _ => seq![
            ("command"@, EntryValueView::Text(executable)),
            ("args"@, EntryValueView::TextList(seq!["--mcp"@])),
        ],
    }
}

/// A list of texts: `first`, then `--mcp`, or just `--mcp`.
fn args_list(first: Option<&str>) -> (r: EntryValue)
    ensures
        r@ == EntryValueView::TextList(
            match first {
                Some(f) => seq![f@, "--mcp"@],
                None => seq!["--mcp"@],
            },
        ),
{
    let mut out: Vec<String> = Vec::new();
    match first {
        Some(f) => {
            out.push(f.to_owned());
        },
        None => {},
    }
    out.push("--mcp".to_owned());
    let r = EntryValue::TextList(out);
    assert(out@.map_values(|s: String| s@) =~= match first {
        Some(f) => seq![f@, "--mcp"@],
        None => seq!["--mcp"@],
    });
    r
}

/// One field of the server entry.
fn field(name: &str, value: EntryValue) -> (r: (String, EntryValue))
    ensures
        r.0@ == name@,
        r.1 == value,
{
    (name.to_owned(), value)
}

/// The server entry a client configuration gets.
pub fn server_entry(format: McpConfigFormat, executable: &str) -> (r: Vec<(String, EntryValue)>)
    ensures
        r@.map_values(|f: (String, EntryValue)| (f.0@, f.1@)) == server_entry_fields(
            format,
            executable@,
        ),
{
    let mut fields: Vec<(String, EntryValue)> = Vec::new();
    match format {
        McpConfigFormat::ZedContextServers => {
            fields.push(field("source", EntryValue::Text("custom".to_owned())));
            fields.push(field("command", EntryValue::Text(executable.to_owned())));
            fields.push(field("args", args_list(None)));
        },
        McpConfigFormat::OpencodeMcp => {
            fields.push(field("type", EntryValue::Text("local".to_owned())));
            fields.push(field("command", args_list(Some(executable))));
            fields.push(field("enabled", EntryValue::Flag(true)));
        },
        _ => {
            fields.push(field("command", EntryValue::Text(executable.to_owned())));
            fields.push(field("args", args_list(None)));
        },
    }
    assert(fields@.map_values(|f: (String, EntryValue)| (f.0@, f.1@)) =~= server_entry_fields(
        format,
        executable@,
    ));
    fields
}

/// A client whose registration failed, and why.
#[derive(Clone, Debug, PartialEq, Eq)]
pub struct McpRegistrationError {
    pub client: String,
    pub message: String,
}

/// The outcome of registering with a list of clients.
#[derive(Clone, Debug, PartialEq, Eq)]
pub struct McpRegistrationState {
    pub registered: Vec<String>,
    pub errors: Vec<McpRegistrationError>,
}

/// The outcome of writing one client's configuration: not attempted, written, or failed
/// with a message.
pub open spec fn outcome_view(o: Option<Result<(), String>>) -> Option<Result<(), Seq<char>>> {
    match o {
        None => None,
        Some(Ok(())) => Some(Ok(())),
        Some(Err(m)) => Some(Err(m@)),
    }
}

/// The report for `clients` given the outcome of each attempted write: a client without a
/// known configuration file is reported as unsupported; the others are reported registered
/// or failed with the write's message, in the order of `clients`.
pub open spec fn registration_report(
    clients: Seq<Seq<char>>,
    outcomes: Seq<Option<Result<(), Seq<char>>>>,
) -> (Seq<Seq<char>>, Seq<(Seq<char>, Seq<char>)>)
    decreases clients.len(),
{
    if clients.len() == 0 {
        (Seq::empty(), Seq::empty())
    } else {
        let (registered, errors) = registration_report(clients.drop_last(), outcomes.drop_last());
        let client = clients.last();
        if client_config_relative_path(client) is None {
            (registered, errors.push((client, "unsupported MCP client"@)))
        } else {
            match outcomes.last() {
                Some(Ok(())) => (registered.push(client), errors),
                Some(Err(m)) => (registered, errors.push((client, m))),
                None => (registered, errors),
            }
        }
    }
}

impl McpRegistrationState {
    /// The registered clients and the failures, as plain values.
    pub open spec fn report(&self) -> (Seq<Seq<char>>, Seq<(Seq<char>, Seq<char>)>) {
        (
            self.registered@.map_values(|c: String| c@),
            self.errors@.map_values(|e: McpRegistrationError| (e.client@, e.message@)),
        )
    }
}

/// Assembles the registration report for `clients`, given for each supported client the
/// outcome of writing its configuration file (`None` for clients that were not attempted).
pub fn register_mcp_clients(
    clients: &[String],
    outcomes: &[Option<Result<(), String>>],
) -> (r: McpRegistrationState)
    requires
        outcomes@.len() == clients@.len(),
        forall|i: int|
            0 <= i < clients@.len() && #[trigger] client_config_relative_path(clients@[i]@)
                is Some ==> outcomes@[i] is Some,
    ensures
        r.report() == registration_report(
            clients@.map_values(|c: String| c@),
            outcomes@.map_values(|o: Option<Result<(), String>>| outcome_view(o)),
        ),
{
    let ghost cs = clients@.map_values(|c: String| c@);
    let ghost os = outcomes@.map_values(|o: Option<Result<(), String>>| outcome_view(o));
    let mut result = McpRegistrationState { registered: Vec::new(), errors: Vec::new() };
    let n = clients.len();
    let mut i: usize = 0;
    assert(result.report().0 =~= registration_report(cs.take(0), os.take(0)).0);
    assert(result.report().1 =~= registration_report(cs.take(0), os.take(0)).1);
    while i < n
        invariant
            n == clients@.len(),
            n == outcomes@.len(),
            i <= n,
            cs == clients@.map_values(|c: String| c@),
            os == outcomes@.map_values(|o: Option<Result<(), String>>| outcome_view(o)),
            result.report() == registration_report(cs.take(i as int), os.take(i as int)),
        decreases n - i,
    {
        let client = &clients[i];
        assert(cs.take(i + 1).drop_last() =~= cs.take(i as int));
        assert(os.take(i + 1).drop_last() =~= os.take(i as int));
        assert(cs.take(i + 1).last() == client@);
        assert(os.take(i + 1).last() == outcome_view(outcomes@[i as int]));
        let ghost before = result.report();
        match relative_config_path(client.as_str()) {
            None => {
                result.errors.push(
                    McpRegistrationError {
                        client: client.clone(),
                        message: "unsupported MCP client".to_owned(),
                    },
                );
                assert(result.report().0 =~= before.0);
                assert(result.report().1 =~= before.1.push((client@, "unsupported MCP client"@)));
            },
            Some(_) => {
                match &outcomes[i] {
                    Some(Ok(())) => {
                        result.registered.push(client.clone());
                        assert(result.report().0 =~= before.0.push(client@));
                        assert(result.report().1 =~= before.1);
                    },
                    Some(Err(message)) => {
                        result.errors.push(
                            McpRegistrationError { client: client.clone(), message: message.clone() },
                        );
                        assert(result.report().0 =~= before.0);
                        assert(result.report().1 =~= before.1.push((client@, message@)));
                    },
                    None => {},
                }
            },
        }
        i = i + 1;
    }
    assert(cs.take(n as int) =~= cs);
    assert(os.take(n as int) =~= os);
    result
}

/// Every client appears in the report exactly once: either registered or among the errors.
pub proof fn law_each_client_reported_once(
    clients: Seq<Seq<char>>,
    outcomes: Seq<Option<Result<(), Seq<char>>>>,
)
    requires
        outcomes.len() == clients.len(),
        forall|i: int|
            0 <= i < clients.len() && #[trigger] client_config_relative_path(clients[i]) is Some
                ==> outcomes[i] is Some,
    ensures
        registration_report(clients, outcomes).0.len() + registration_report(clients, outcomes).1.len()
            == clients.len(),
    decreases clients.len(),
{
    if clients.len() > 0 {
        let cs = clients.drop_last();
        let os = outcomes.drop_last();
        assert forall|i: int|
            0 <= i < cs.len() && #[trigger] client_config_relative_path(cs[i]) is Some implies os[i] is Some by {
            assert(cs[i] == clients[i]);
            assert(client_config_relative_path(clients[i]) is Some);
        }
        law_each_client_reported_once(cs, os);
        let last = clients.len() - 1;
        assert(clients.last() == clients[last]);
        if client_config_relative_path(clients[last]) is Some {
            assert(outcomes[last] is Some);
        }
    }
}

} // verus!
