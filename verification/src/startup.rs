//! How the browser reads its command line and environment at start-up.

use vstd::prelude::*;

use crate::navigation::NEW_TAB_URL;
use crate::text::{ascii_case_insensitive_eq, chars_of, eq_ignore_ascii_case, str_eq, trim, trimmed};

verus! {

/// A switch variable is on unless, trimmed and compared without ASCII case, it is empty,
/// `0`, `false`, `no` or `off`.
pub open spec fn flag_value_enabled(value: Seq<char>) -> bool {
    let t = trimmed(value);
    !(t.len() == 0 || ascii_case_insensitive_eq(t, "0"@) || ascii_case_insensitive_eq(t, "false"@)
        || ascii_case_insensitive_eq(t, "no"@) || ascii_case_insensitive_eq(t, "off"@))
}

/// Whether the value of a switch variable (such as `RAB_MCP`) turns the switch on.
pub fn env_flag_enabled(value: &str) -> (r: bool)
    ensures
        r == flag_value_enabled(value@),
{
    let t = chars_of(trim(value));
    !(t.len() == 0 || eq_ignore_ascii_case(&t, "0") || eq_ignore_ascii_case(&t, "false")
        || eq_ignore_ascii_case(&t, "no") || eq_ignore_ascii_case(&t, "off"))
}

/// Some argument is the `--mcp` switch.
pub open spec fn has_mcp_switch(args: Seq<Seq<char>>) -> bool {
    exists|i: int| 0 <= i < args.len() && args[i] == "--mcp"@
}

/// `i` is the first argument that is not the `--mcp` switch.
pub open spec fn is_first_url_arg(args: Seq<Seq<char>>, i: int) -> bool {
    &&& 0 <= i < args.len()
    &&& args[i] != "--mcp"@
    &&& forall|j: int| 0 <= j < i ==> args[j] == "--mcp"@
}

/// The page to open first: the first argument that is not `--mcp`, else the new-tab page.
pub open spec fn initial_url_of(args: Seq<Seq<char>>) -> Seq<char> {
    if exists|i: int| is_first_url_arg(args, i) {
        args[choose|i: int| is_first_url_arg(args, i)]
    } else {
        NEW_TAB_URL@
    }
}

/// Reads the command-line arguments (program name excluded): whether the MCP server is
/// wanted (`--mcp`, or already switched on by the environment) and the page to open first.
pub fn parse_startup_args(env_enabled: bool, args: &[String]) -> (r: (bool, String))
    ensures
        r.0 == (env_enabled || has_mcp_switch(args@.map_values(|a: String| a@))),
        r.1@ == initial_url_of(args@.map_values(|a: String| a@)),
{
    let ghost views = args@.map_values(|a: String| a@);
    let mut mcp_enabled = env_enabled;
    let mut initial_url: Option<String> = None;
    let n = args.len();
    let mut i: usize = 0;
    while i < n
        invariant
            n == args@.len(),
            views == args@.map_values(|a: String| a@),
            i <= n,
            mcp_enabled == (env_enabled || exists|j: int| 0 <= j < i && views[j] == "--mcp"@),
            initial_url is None ==> forall|j: int| 0 <= j < i ==> views[j] == "--mcp"@,
            initial_url matches Some(u) ==> exists|j: int|
                is_first_url_arg(views, j) && j < i && views[j] == u@,
        decreases n - i,
    {
        let argument = &args[i];
        assert(views[i as int] == argument@);
        if str_eq(argument.as_str(), "--mcp") {
            mcp_enabled = true;
        } else if initial_url.is_none() {
            initial_url = Some(argument.clone());
            assert(is_first_url_arg(views, i as int));
        }
        i = i + 1;
    }
    proof {
        if exists|j: int| is_first_url_arg(views, j) {
            let c = choose|j: int| is_first_url_arg(views, j);
            if let Some(u) = &initial_url {
                let j = choose|j: int| is_first_url_arg(views, j) && j < i && views[j] == u@;
                if c < j {
                    assert(views[c] == "--mcp"@);
                }
                if j < c {
                    assert(views[j] == "--mcp"@);
                }
            } else {
                assert(views[c] == "--mcp"@);
            }
        }
    }
    let url = match initial_url {
        Some(u) => u,
        None => NEW_TAB_URL.to_owned(),
    };
    (mcp_enabled, url)
}

} // verus!
