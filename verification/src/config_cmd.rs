//! The `config` commands: each takes a configuration, may change it, and returns
//! what it prints. Reading and writing the files is the caller's matter.

use vstd::prelude::*;
use vstd::utf8::encode_utf8;
use crate::client_config::{lists_name, ClientMcpConfig, McpServerConfig};
#[allow(unused_imports)]
use crate::client_config::{
    defines, disabled_of, enabled_of, other_servers, resolves, server_place, switched, without,
};
use crate::text::{cat2, cat3, cat4, cat5, decimal, join, repeat, same, to_lower, trim};
#[allow(unused_imports)]
use crate::text::{
    digits, holds_text, joined, law_held_text_is_held, law_repeated_are_copies, law_text_is_held,
    law_trimmed_has_no_outer_space, lowered, opt_str, opt_text, repeated, texts, trimmed,
};

verus! {

/// The surface of this client.
pub const DEFAULT_SURFACE: &'static str = "tui";

/// The setting that shares device information with the assistant.
pub const SHARE_CLIENT_CONTEXT_KEY: &'static str = "share-client-context";

/// A compiled-in server: its name and how many tools it has.
#[derive(Debug, PartialEq, Eq)]
pub struct BuiltinInfo {
    pub name: String,
    pub tool_count: usize,
}

impl BuiltinInfo {
    pub fn new(name: &str, tool_count: usize) -> (info: BuiltinInfo)
        ensures
            info.name@ == name@,
            info.tool_count == tool_count,
    {
        BuiltinInfo { name: name.to_owned(), tool_count }
    }
}

/// The client's own preferences.
#[derive(Debug, Clone, Copy, PartialEq, Eq, Structural)]
pub struct Settings {
    pub show_debug: bool,
    pub share_client_context: bool,
}

/// Lines of output, each with its line feed.
pub open spec fn printed(lines: Seq<Seq<char>>) -> Seq<char>
    decreases lines.len(),
{
    if lines.len() == 0 {
        Seq::<char>::empty()
    } else {
        printed(lines.take(lines.len() - 1)) + lines[lines.len() - 1] + "\n"@
    }
}

fn print(lines: &Vec<String>) -> (s: String)
    ensures
        s@ == printed(texts(lines@)),
{
    let ghost all = texts(lines@);
    let mut s = String::new();
    let mut i: usize = 0;
    while i < lines.len()
        invariant
            i <= lines@.len(),
            all == texts(lines@),
            s@ == printed(all.take(i as int)),
        decreases lines@.len() - i,
    {
        let ghost t = all.take(i + 1);
        assert(t.take(t.len() - 1) =~= all.take(i as int));
        s.append(lines[i].as_str());
        s.append("\n");
        i += 1;
    }
    assert(all.take(i as int) =~= all);
    s
}

fn push_text(lines: &mut Vec<String>, text: String)
    ensures
        texts(final(lines)@) == texts(old(lines)@).push(text@),
{
    let ghost before = texts(lines@);
    lines.push(text);
    assert(texts(lines@) =~= before.push(text@));
}

/// `s` filled up with blanks to at least `width` characters.
pub open spec fn padded(s: Seq<char>, width: nat) -> Seq<char> {
    if s.len() < width {
        s + repeated(" "@, (width - s.len()) as nat)
    } else {
        s
    }
}

fn pad(s: &str, width: usize) -> (r: String)
    ensures
        r@ == padded(s@, width as nat),
{
    let n: usize = s.unicode_len();
    if n < width {
        let blanks = repeat(" ", width - n);
        cat2(s, blanks.as_str())
    } else {
        s.to_owned()
    }
}

/// Where the configuration is.
pub fn config_path(path: &str) -> (out: String)
    ensures
        out@ == printed(
            seq![
                "Client-MCP config: "@ + path@,
                "  (shared per machine; each client surface selects its own subset)"@,
            ],
        ),
{
    let mut lines: Vec<String> = Vec::new();
    push_text(&mut lines, cat2("Client-MCP config: ", path));
    push_text(
        &mut lines,
        "  (shared per machine; each client surface selects its own subset)".to_owned(),
    );
    assert(texts(lines@) =~= seq![
        "Client-MCP config: "@ + path@,
        "  (shared per machine; each client surface selects its own subset)"@,
    ]);
    print(&lines)
}

/// The configuration as the clients see it. `toml` is the configuration as TOML;
/// there is none where the file does not exist.
pub fn config_show(path: &str, section: Option<&str>, cfg: &ClientMcpConfig, toml: Option<&str>) -> (r:
    Result<String, String>)
    ensures
        match opt_str(section) {
            Some(name) if name != "mcp"@ => r matches Err(e) && e@ == "unknown config section '"@
                + name + "'; only 'mcp' is supported"@,
            _ => r matches Ok(out) && out@ == (match opt_str(toml) {
                None => printed(
                    seq![
                        "Client-MCP config: "@ + path@,
                        "  (file does not exist — no client-hosted MCP servers configured)"@,
                    ],
                ),
                Some(text) => printed(
                    if cfg.servers@.len() == 0 {
                        seq![
                            "Client-MCP config: "@ + path@,
                            "  (no client-MCP servers defined)"@,
                        ]
                    } else {
                        seq!["Client-MCP config: "@ + path@]
                    },
                ) + text,
            }),
        },
{
    match section {
        Some(name) => if !same(name, "mcp") {
            return Err(
                cat3("unknown config section '", name, "'; only 'mcp' is supported"),
            );
        },
        None => {},
    }
    let mut lines: Vec<String> = Vec::new();
    push_text(&mut lines, cat2("Client-MCP config: ", path));
    let ghost head = seq!["Client-MCP config: "@ + path@];
    assert(texts(lines@) =~= head);
    match toml {
        None => {
            push_text(
                &mut lines,
                "  (file does not exist — no client-hosted MCP servers configured)".to_owned(),
            );
            assert(texts(lines@) =~= seq![
                "Client-MCP config: "@ + path@,
                "  (file does not exist — no client-hosted MCP servers configured)"@,
            ]);
            Ok(print(&lines))
        },
        Some(text) => {
            if cfg.servers.len() == 0 {
                push_text(&mut lines, "  (no client-MCP servers defined)".to_owned());
                assert(texts(lines@) =~= seq![
                    "Client-MCP config: "@ + path@,
                    "  (no client-MCP servers defined)"@,
                ]);
            }
            let shown = print(&lines);
            Ok(cat2(shown.as_str(), text))
        },
    }
}

/// The length of a name in bytes.
pub open spec fn name_bytes(name: Seq<char>) -> usize {
    encode_utf8(name).len() as usize
}

/// The length of the longest server name, in bytes.
pub open spec fn longest_server(servers: Seq<McpServerConfig>) -> usize
    decreases servers.len(),
{
    if servers.len() == 0 {
        0
    } else {
        let before = longest_server(servers.take(servers.len() - 1));
        let n = name_bytes(servers[servers.len() - 1].name@);
        if n > before {
            n
        } else {
            before
        }
    }
}

/// The length of the longest compiled-in name, in bytes.
pub open spec fn longest_builtin(builtins: Seq<BuiltinInfo>) -> usize
    decreases builtins.len(),
{
    if builtins.len() == 0 {
        0
    } else {
        let before = longest_builtin(builtins.take(builtins.len() - 1));
        let n = name_bytes(builtins[builtins.len() - 1].name@);
        if n > before {
            n
        } else {
            before
        }
    }
}

/// The width of the name column: that of the longest name, and at least that of
/// its heading.
pub open spec fn name_width(servers: Seq<McpServerConfig>, builtins: Seq<BuiltinInfo>) -> nat {
    let a = longest_server(servers);
    let b = longest_builtin(builtins);
    let longest = if a > b {
        a
    } else {
        b
    };
    if longest > 4 {
        longest as nat
    } else {
        4
    }
}

fn measure_names(servers: &Vec<McpServerConfig>, builtins: &Vec<BuiltinInfo>) -> (w: usize)
    ensures
        w == name_width(servers@, builtins@),
{
    let mut a: usize = 0;
    let mut i: usize = 0;
    while i < servers.len()
        invariant
            i <= servers@.len(),
            a == longest_server(servers@.take(i as int)),
        decreases servers@.len() - i,
    {
        let ghost t = servers@.take(i + 1);
        assert(t.take(t.len() - 1) =~= servers@.take(i as int));
        let n: usize = servers[i].name.as_str().len();
        if n > a {
            a = n;
        }
        i += 1;
    }
    assert(servers@.take(i as int) =~= servers@);
    let mut b: usize = 0;
    let mut k: usize = 0;
    while k < builtins.len()
        invariant
            k <= builtins@.len(),
            b == longest_builtin(builtins@.take(k as int)),
        decreases builtins@.len() - k,
    {
        let ghost t = builtins@.take(k + 1);
        assert(t.take(t.len() - 1) =~= builtins@.take(k as int));
        let n: usize = builtins[k].name.as_str().len();
        if n > b {
            b = n;
        }
        k += 1;
    }
    assert(builtins@.take(k as int) =~= builtins@);
    let longest: usize = if a > b {
        a
    } else {
        b
    };
    if longest > 4 {
        longest
    } else {
        4
    }
}

/// How a server is started.
pub open spec fn target(server: McpServerConfig) -> Seq<char> {
    if server.command@.len() == 0 {
        "(remote/http)"@
    } else if server.args@.len() == 0 {
        server.command@
    } else {
        server.command@ + " "@ + joined(texts(server.args@), " "@)
    }
}

/// A row of the list: a name, a word filled up to its column, and the rest.
pub open spec fn row(name: Seq<char>, width: nat, word: Seq<char>, column: nat, rest: Seq<char>) -> Seq<
    char,
> {
    "  "@ + padded(name, width) + "  "@ + padded(word, column) + ("  "@ + rest)
}

fn make_row(name: &str, width: usize, word: &str, column: usize, rest: &str) -> (s: String)
    ensures
        s@ == row(name@, width as nat, word@, column as nat, rest@),
{
    let a = pad(name, width);
    let b = pad(word, column);
    let tail = cat2("  ", rest);
    cat5("  ", a.as_str(), "  ", b.as_str(), tail.as_str())
}

/// The row of a server.
pub open spec fn server_row(server: McpServerConfig, enabled: Seq<Seq<char>>, width: nat) -> Seq<
    char,
> {
    row(
        server.name@,
        width,
        if enabled.contains(server.name@) {
            "enabled"@
        } else {
            "disabled"@
        },
        9,
        target(server),
    )
}

/// The state of a compiled-in server: turned off, replaced by a configured server
/// of its name, or running.
pub open spec fn builtin_state(cfg: ClientMcpConfig, surface: Seq<char>, name: Seq<char>) -> Seq<
    char,
> {
    if disabled_of(cfg.surfaces@, surface).contains(name) {
        "disabled (config)"@
    } else if resolves(cfg, surface, name) {
        "overridden by client-MCP '"@ + name + "'"@
    } else {
        "active"@
    }
}

/// The row of a compiled-in server.
pub open spec fn builtin_row(
    cfg: ClientMcpConfig,
    surface: Seq<char>,
    builtin: BuiltinInfo,
    width: nat,
) -> Seq<char> {
    row(
        builtin.name@,
        width,
        digits(builtin.tool_count as nat),
        5,
        builtin_state(cfg, surface, builtin.name@),
    )
}

/// The servers, with their heading.
pub open spec fn server_lines(cfg: ClientMcpConfig, surface: Seq<char>, width: nat) -> Seq<
    Seq<char>,
> {
    if cfg.servers@.len() == 0 {
        seq!["  (none defined — add one with `config mcp add-server`)"@]
    } else {
        seq![row("NAME"@, width, "STATUS"@, 9, "COMMAND"@)] + Seq::new(
            cfg.servers@.len(),
            |i: int| server_row(cfg.servers@[i], enabled_of(cfg.surfaces@, surface), width),
        )
    }
}

/// The compiled-in servers, with their heading.
pub open spec fn builtin_lines(
    cfg: ClientMcpConfig,
    builtins: Seq<BuiltinInfo>,
    surface: Seq<char>,
    width: nat,
) -> Seq<Seq<char>> {
    if builtins.len() == 0 {
        seq!["  (none compiled in)"@]
    } else {
        seq![row("NAME"@, width, "TOOLS"@, 5, "STATUS"@)] + Seq::new(
            builtins.len(),
            |i: int| builtin_row(cfg, surface, builtins[i], width),
        )
    }
}

/// The whole list.
pub open spec fn list_lines(
    cfg: ClientMcpConfig,
    builtins: Seq<BuiltinInfo>,
    surface: Seq<char>,
) -> Seq<Seq<char>> {
    let width = name_width(cfg.servers@, builtins);
    seq!["Client-hosted MCP servers (surface: "@ + surface + ")"@] + server_lines(
        cfg,
        surface,
        width,
    ) + seq![""@, "Built-in (in-process) servers"@] + builtin_lines(cfg, builtins, surface, width)
        + seq![
        ""@,
        "Note: daemon-hosted MCP servers are not shown here (client-side config only)."@,
        "      Manage those from the interactive `adele` F5 panel."@,
    ]
}

fn target_of(server: &McpServerConfig) -> (s: String)
    ensures
        s@ == target(*server),
{
    if server.command.as_str().is_empty() {
        "(remote/http)".to_owned()
    } else if server.args.len() == 0 {
        server.command.clone()
    } else {
        let args = join(&server.args, " ");
        cat3(server.command.as_str(), " ", args.as_str())
    }
}

fn push_servers(lines: &mut Vec<String>, cfg: &ClientMcpConfig, surface: &str, width: usize)
    ensures
        texts(final(lines)@) == texts(old(lines)@) + server_lines(*cfg, surface@, width as nat),
{
    let ghost start = texts(lines@);
    if cfg.servers.len() == 0 {
        push_text(lines, "  (none defined — add one with `config mcp add-server`)".to_owned());
        assert(texts(lines@) =~= start + server_lines(*cfg, surface@, width as nat));
        return;
    }
    push_text(lines, make_row("NAME", width, "STATUS", 9, "COMMAND"));
    let enabled = cfg.surface_enabled_names(surface);
    let ghost all = server_lines(*cfg, surface@, width as nat);
    let mut i: usize = 0;
    assert(texts(lines@) =~= start + all.take(1));
    while i < cfg.servers.len()
        invariant
            i <= cfg.servers@.len(),
            cfg.servers@.len() > 0,
            texts(enabled@) == enabled_of(cfg.surfaces@, surface@),
            all == server_lines(*cfg, surface@, width as nat),
            texts(lines@) == start + all.take(i + 1),
        decreases cfg.servers@.len() - i,
    {
        let server = &cfg.servers[i];
        let status = if lists_name(&enabled, server.name.as_str()) {
            "enabled"
        } else {
            "disabled"
        };
        let t = target_of(server);
        push_text(lines, make_row(server.name.as_str(), width, status, 9, t.as_str()));
        assert(all[i + 1] == server_row(
            cfg.servers@[i as int],
            enabled_of(cfg.surfaces@, surface@),
            width as nat,
        ));
        assert(texts(lines@) =~= start + all.take(i + 2));
        i += 1;
    }
    assert(all.take(i + 1) =~= all);
}

fn push_builtins(
    lines: &mut Vec<String>,
    cfg: &ClientMcpConfig,
    builtins: &Vec<BuiltinInfo>,
    surface: &str,
    width: usize,
)
    ensures
        texts(final(lines)@) == texts(old(lines)@) + builtin_lines(
            *cfg,
            builtins@,
            surface@,
            width as nat,
        ),
{
    let ghost start = texts(lines@);
    if builtins.len() == 0 {
        push_text(lines, "  (none compiled in)".to_owned());
        assert(texts(lines@) =~= start + builtin_lines(*cfg, builtins@, surface@, width as nat));
        return;
    }
    push_text(lines, make_row("NAME", width, "TOOLS", 5, "STATUS"));
    let disabled = cfg.surface_disabled_builtins(surface);
    let ghost all = builtin_lines(*cfg, builtins@, surface@, width as nat);
    let mut i: usize = 0;
    assert(texts(lines@) =~= start + all.take(1));
    while i < builtins.len()
        invariant
            i <= builtins@.len(),
            builtins@.len() > 0,
            texts(disabled@) == disabled_of(cfg.surfaces@, surface@),
            all == builtin_lines(*cfg, builtins@, surface@, width as nat),
            texts(lines@) == start + all.take(i + 1),
        decreases builtins@.len() - i,
    {
        let name = builtins[i].name.as_str();
        let status = if lists_name(&disabled, name) {
            "disabled (config)".to_owned()
        } else if cfg.is_resolved(surface, name) {
            cat3("overridden by client-MCP '", name, "'")
        } else {
            "active".to_owned()
        };
        let tools = decimal(builtins[i].tool_count as u64);
        push_text(lines, make_row(name, width, tools.as_str(), 5, status.as_str()));
        assert(all[i + 1] == builtin_row(
            *cfg,
            surface@,
            builtins@[i as int],
            width as nat,
        ));
        assert(texts(lines@) =~= start + all.take(i + 2));
        i += 1;
    }
    assert(all.take(i + 1) =~= all);
}

/// Lists the client's servers and the compiled-in ones, as they are for a
/// surface.
pub fn mcp_list(cfg: &ClientMcpConfig, builtins: &Vec<BuiltinInfo>, surface: &str) -> (out: String)
    ensures
        out@ == printed(list_lines(*cfg, builtins@, surface@)),
{
    let width: usize = measure_names(&cfg.servers, builtins);
    let mut lines: Vec<String> = Vec::new();
    push_text(&mut lines, cat3("Client-hosted MCP servers (surface: ", surface, ")"));
    push_servers(&mut lines, cfg, surface, width);
    push_text(&mut lines, "".to_owned());
    push_text(&mut lines, "Built-in (in-process) servers".to_owned());
    push_builtins(&mut lines, cfg, builtins, surface, width);
    push_text(&mut lines, "".to_owned());
    push_text(
        &mut lines,
        "Note: daemon-hosted MCP servers are not shown here (client-side config only).".to_owned(),
    );
    push_text(
        &mut lines,
        "      Manage those from the interactive `adele` F5 panel.".to_owned(),
    );
    assert(texts(lines@) =~= list_lines(*cfg, builtins@, surface@));
    print(&lines)
}

/// The surfaces a new server is turned on for: this client's where none is named.
pub fn chosen_surfaces(surfaces: Vec<String>) -> (chosen: Vec<String>)
    ensures
        surfaces@.len() > 0 ==> chosen == surfaces,
        surfaces@.len() == 0 ==> texts(chosen@) == seq![DEFAULT_SURFACE@],
{
    if surfaces.len() > 0 {
        surfaces
    } else {
        let chosen = vec![DEFAULT_SURFACE.to_owned()];
        assert(texts(chosen@) =~= seq![DEFAULT_SURFACE@]);
        chosen
    }
}

/// A list of names after some of them were turned on for a surface, one after the
/// other.
pub open spec fn turned_on(
    before: Seq<Seq<char>>,
    surface: Seq<char>,
    surfaces: Seq<Seq<char>>,
    name: Seq<char>,
) -> Seq<Seq<char>> {
    if surfaces.contains(surface) {
        switched(before, name, true)
    } else {
        before
    }
}

/// The server that is defined.
pub open spec fn is_stdio_server(
    server: McpServerConfig,
    name: Seq<char>,
    command: Seq<char>,
    args: Seq<Seq<char>>,
    namespace: Option<Seq<char>>,
) -> bool {
    &&& server.name@ == name
    &&& server.command@ == command
    &&& texts(server.args@) == args
    &&& opt_text(server.namespace) == namespace
    &&& server.enabled
    &&& server.rest@ == ""@
}

/// Defines a local server, in the place of one of the same name, and turns it on
/// for the given surfaces where that is asked for.
pub fn mcp_add_server(
    cfg: &mut ClientMcpConfig,
    name: &str,
    command: &str,
    args: &Vec<String>,
    namespace: Option<&str>,
    surfaces: &Vec<String>,
    enabled: bool,
) -> (out: String)
    ensures
        ({
            let existed = defines(old(cfg).servers@, name@);
            let at = if existed {
                server_place(old(cfg).servers@, name@)
            } else {
                old(cfg).servers@.len() as int
            };
            &&& final(cfg).servers@.len() == old(cfg).servers@.len() + (if existed {
                0int
            } else {
                1
            })
            &&& is_stdio_server(
                final(cfg).servers@[at],
                name@,
                command@,
                texts(args@),
                opt_str(namespace),
            )
            &&& forall|i: int|
                0 <= i < old(cfg).servers@.len() && i != at ==> final(cfg).servers@[i]
                    == #[trigger] old(cfg).servers@[i]
            &&& forall|s: Seq<char>| #[trigger]
                enabled_of(final(cfg).surfaces@, s) == (if enabled {
                    turned_on(enabled_of(old(cfg).surfaces@, s), s, texts(surfaces@), name@)
                } else {
                    enabled_of(old(cfg).surfaces@, s)
                })
            &&& forall|s: Seq<char>| #[trigger]
                disabled_of(final(cfg).surfaces@, s) == disabled_of(old(cfg).surfaces@, s)
            &&& out@ == printed(
                seq![
                    (if existed {
                        "Updated"@
                    } else {
                        "Added"@
                    }) + " client-MCP server '"@ + name@ + "' (command: "@ + (command@ + ")."@),
                    if enabled && surfaces@.len() > 0 {
                        "Enabled for surface(s): "@ + joined(texts(surfaces@), ", "@) + "."@
                    } else {
                        "Defined but not enabled for any surface; run `adele config mcp enable "@
                            + name@ + "` to turn it on."@
                    },
                ],
            )
        }),
{
    let existed: bool = cfg.is_defined(name);
    let server = McpServerConfig {
        name: name.to_owned(),
        command: command.to_owned(),
        args: args.clone(),
        namespace: crate::text::owned(namespace),
        enabled: true,
        rest: "".to_owned(),
    };
    assert(texts(server.args@) =~= texts(args@));
    proof {
        lemma_server_range(cfg.servers@, name@);
    }
    cfg.upsert_server(server);
    let ghost start = cfg.surfaces@;
    if enabled {
        let mut i: usize = 0;
        assert forall|s: Seq<char>| #[trigger]
            enabled_of(cfg.surfaces@, s) == turned_on(
                enabled_of(start, s),
                s,
                texts(surfaces@).take(0),
                name@,
            ) by {}
        while i < surfaces.len()
            invariant
                i <= surfaces@.len(),
                cfg.servers@ == (if defines(old(cfg).servers@, name@) {
                    old(cfg).servers@.update(server_place(old(cfg).servers@, name@), server)
                } else {
                    old(cfg).servers@.push(server)
                }),
                forall|s: Seq<char>| #[trigger]
                    enabled_of(cfg.surfaces@, s) == turned_on(
                        enabled_of(start, s),
                        s,
                        texts(surfaces@).take(i as int),
                        name@,
                    ),
                forall|s: Seq<char>| #[trigger]
                    disabled_of(cfg.surfaces@, s) == disabled_of(start, s),
            decreases surfaces@.len() - i,
        {
            let ghost mid = cfg.surfaces@;
            cfg.set_surface_enabled(surfaces[i].as_str(), name, true);
            proof {
                let all = texts(surfaces@);
                let t = all.take(i as int);
                let u = all.take(i + 1);
                assert(u =~= t.push(all[i as int]));
                assert forall|s: Seq<char>| #[trigger]
                    enabled_of(cfg.surfaces@, s) == turned_on(
                        enabled_of(start, s),
                        s,
                        u,
                        name@,
                    ) by {
                    assert(enabled_of(mid, s) == turned_on(enabled_of(start, s), s, t, name@));
                    lemma_pushed(t, all[i as int], s);
                    crate::client_config::law_switching_one_name(
                        enabled_of(start, s),
                        name@,
                        true,
                        name@,
                    );
                }
            }
            i += 1;
        }
        assert(texts(surfaces@).take(i as int) =~= texts(surfaces@));
    }
    let first = if existed {
        "Updated"
    } else {
        "Added"
    };
    let mut lines: Vec<String> = Vec::new();
    let tail = cat2(command, ").");
    push_text(
        &mut lines,
        cat5(first, " client-MCP server '", name, "' (command: ", tail.as_str()),
    );
    if enabled && surfaces.len() > 0 {
        let list = join(surfaces, ", ");
        push_text(&mut lines, cat3("Enabled for surface(s): ", list.as_str(), "."));
    } else {
        push_text(
            &mut lines,
            cat3(
                "Defined but not enabled for any surface; run `adele config mcp enable ",
                name,
                "` to turn it on.",
            ),
        );
    }
    assert(texts(lines@) =~= seq![texts(lines@)[0], texts(lines@)[1]]);
    print(&lines)
}

proof fn lemma_server_range(servers: Seq<McpServerConfig>, name: Seq<char>)
    ensures
        0 <= server_place(servers, name) <= servers.len(),
    decreases servers.len(),
{
    if servers.len() > 0 && servers[0].name@ != name {
        lemma_server_range(servers.skip(1), name);
    }
}

proof fn lemma_pushed(t: Seq<Seq<char>>, x: Seq<char>, s: Seq<char>)
    ensures
        t.push(x).contains(s) == (t.contains(s) || s == x),
{
    let u = t.push(x);
    assert(u[u.len() - 1] == x);
    if t.contains(s) {
        let i = choose|i: int| 0 <= i < t.len() && t[i] == s;
        assert(u[i] == s);
    }
    if u.contains(s) && s != x {
        let i = choose|i: int| 0 <= i < u.len() && u[i] == s;
        assert(t[i] == s);
    }
}

/// Removes the definition of a server.
pub fn mcp_remove_server(cfg: &mut ClientMcpConfig, name: &str) -> (r: Result<String, String>)
    ensures
        match r {
            Ok(out) => {
                &&& defines(old(cfg).servers@, name@)
                &&& final(cfg).servers@ == other_servers(old(cfg).servers@, name@)
                &&& forall|s: Seq<char>| #[trigger]
                    enabled_of(final(cfg).surfaces@, s) == without(
                        enabled_of(old(cfg).surfaces@, s),
                        name@,
                    )
                &&& forall|s: Seq<char>| #[trigger]
                    disabled_of(final(cfg).surfaces@, s) == disabled_of(old(cfg).surfaces@, s)
                &&& out@ == printed(seq!["Removed client-MCP server '"@ + name@ + "'."@])
            },
            Err(e) => {
                &&& !defines(old(cfg).servers@, name@)
                &&& *final(cfg) == *old(cfg)
                &&& e@ == "no such client-MCP server: '"@ + name@ + "'"@
            },
        },
{
    match cfg.remove_server(name) {
        Ok(_) => {},
        Err(e) => {
            return Err(e);
        },
    }
    let mut lines: Vec<String> = Vec::new();
    push_text(&mut lines, cat3("Removed client-MCP server '", name, "'."));
    assert(texts(lines@) =~= seq!["Removed client-MCP server '"@ + name@ + "'."@]);
    Ok(print(&lines))
}

/// A compiled-in server has this name.
pub open spec fn is_builtin(builtins: Seq<BuiltinInfo>, name: Seq<char>) -> bool {
    exists|i: int| 0 <= i < builtins.len() && (#[trigger] builtins[i]).name@ == name
}

fn names_builtin(builtins: &Vec<BuiltinInfo>, name: &str) -> (b: bool)
    ensures
        b == is_builtin(builtins@, name@),
{
    let mut i: usize = 0;
    while i < builtins.len()
        invariant
            i <= builtins@.len(),
            forall|j: int| 0 <= j < i ==> (#[trigger] builtins@[j]).name@ != name@,
        decreases builtins@.len() - i,
    {
        if same(builtins[i].name.as_str(), name) {
            assert(builtins@[i as int].name@ == name@);
            return true;
        }
        i += 1;
    }
    false
}

pub open spec fn switch_word(on: bool) -> Seq<char> {
    if on {
        "Enabled"@
    } else {
        "Disabled"@
    }
}

/// Turns a server on or off for a surface: a defined server, else a compiled-in
/// one of that name.
pub fn mcp_set_enabled(
    cfg: &mut ClientMcpConfig,
    name: &str,
    surface: &str,
    on: bool,
    builtins: &Vec<BuiltinInfo>,
) -> (r: Result<String, String>)
    ensures
        if defines(old(cfg).servers@, name@) {
            &&& r matches Ok(out) && out@ == printed(
                seq![
                    switch_word(on) + " client-MCP server '"@ + name@ + "' for surface '"@ + (
                    surface@ + "'."@),
                ],
            )
            &&& final(cfg).servers == old(cfg).servers
            &&& forall|s: Seq<char>| #[trigger]
                enabled_of(final(cfg).surfaces@, s) == (if s == surface@ {
                    switched(enabled_of(old(cfg).surfaces@, s), name@, on)
                } else {
                    enabled_of(old(cfg).surfaces@, s)
                })
            &&& forall|s: Seq<char>| #[trigger]
                disabled_of(final(cfg).surfaces@, s) == disabled_of(old(cfg).surfaces@, s)
        } else if is_builtin(builtins@, name@) {
            &&& r matches Ok(out) && out@ == printed(
                seq![
                    switch_word(on) + " built-in '"@ + name@ + "' for surface '"@ + (surface@
                        + "' (applies on next launch)."@),
                ],
            )
            &&& final(cfg).servers == old(cfg).servers
            &&& forall|s: Seq<char>| #[trigger]
                disabled_of(final(cfg).surfaces@, s) == (if s == surface@ {
                    switched(disabled_of(old(cfg).surfaces@, s), name@, !on)
                } else {
                    disabled_of(old(cfg).surfaces@, s)
                })
            &&& forall|s: Seq<char>| #[trigger]
                enabled_of(final(cfg).surfaces@, s) == enabled_of(old(cfg).surfaces@, s)
        } else {
            &&& r matches Err(e) && e@ == "no such client-MCP server: '"@ + name@ + "'"@
            &&& *final(cfg) == *old(cfg)
        },
{
    let word = if on {
        "Enabled"
    } else {
        "Disabled"
    };
    let mut lines: Vec<String> = Vec::new();
    if cfg.is_defined(name) {
        cfg.set_surface_enabled(surface, name, on);
        let tail = cat2(surface, "'.");
        push_text(
            &mut lines,
            cat5(word, " client-MCP server '", name, "' for surface '", tail.as_str()),
        );
        assert(texts(lines@) =~= seq![texts(lines@)[0]]);
        Ok(print(&lines))
    } else if names_builtin(builtins, name) {
        cfg.set_builtin_disabled(surface, name, !on);
        let tail = cat2(surface, "' (applies on next launch).");
        push_text(
            &mut lines,
            cat5(word, " built-in '", name, "' for surface '", tail.as_str()),
        );
        assert(texts(lines@) =~= seq![texts(lines@)[0]]);
        Ok(print(&lines))
    } else {
        Err(cat3("no such client-MCP server: '", name, "'"))
    }
}

/// A preference as it is read and written.
pub open spec fn on_off_text(value: bool) -> Seq<char> {
    if value {
        "on"@
    } else {
        "off"@
    }
}

pub fn on_off(value: bool) -> (s: &'static str)
    ensures
        s@ == on_off_text(value),
{
    if value {
        "on"
    } else {
        "off"
    }
}

/// The value that a text stands for, in any case and with white space around it.
pub open spec fn on_off_value(text: Seq<char>) -> Option<bool> {
    let t = lowered(trimmed(text));
    if t == "on"@ || t == "true"@ || t == "yes"@ || t == "1"@ {
        Some(true)
    } else if t == "off"@ || t == "false"@ || t == "no"@ || t == "0"@ {
        Some(false)
    } else {
        None
    }
}

/// The error about a text that stands for no value.
pub open spec fn bad_value(text: Seq<char>) -> Seq<char> {
    "invalid value '"@ + lowered(trimmed(text))
        + "'; use on/off (also true/false, yes/no, 1/0)"@
}

pub fn parse_on_off(value: &str) -> (r: Result<bool, String>)
    ensures
        match on_off_value(value@) {
            Some(b) => r == Ok::<bool, String>(b),
            None => r matches Err(e) && e@ == bad_value(value@),
        },
{
    let trimmed_value = trim(value);
    let t = to_lower(trimmed_value.as_str());
    let s = t.as_str();
    if same(s, "on") || same(s, "true") || same(s, "yes") || same(s, "1") {
        Ok(true)
    } else if same(s, "off") || same(s, "false") || same(s, "no") || same(s, "0") {
        Ok(false)
    } else {
        Err(cat3("invalid value '", s, "'; use on/off (also true/false, yes/no, 1/0)"))
    }
}

/// The error about a setting that is not known.
pub open spec fn unknown_setting(key: Seq<char>) -> Seq<char> {
    "unknown setting '"@ + key + "'; known keys: "@ + SHARE_CLIENT_CONTEXT_KEY@
}

/// A setting and its value.
pub open spec fn setting_line(value: bool) -> Seq<char> {
    SHARE_CLIENT_CONTEXT_KEY@ + " = "@ + on_off_text(value) + "\n"@
}

/// Changes a preference. A bad value or an unknown key changes nothing.
pub fn config_set(settings: &mut Settings, key: &str, value: &str) -> (r: Result<String, String>)
    ensures
        if key@ != SHARE_CLIENT_CONTEXT_KEY@ {
            &&& r matches Err(e) && e@ == unknown_setting(key@)
            &&& *final(settings) == *old(settings)
        } else {
            match on_off_value(value@) {
                Some(on) => {
                    &&& *final(settings) == (Settings {
                        share_client_context: on,
                        ..*old(settings)
                    })
                    &&& r matches Ok(out) && out@ == setting_line(on)
                },
                None => {
                    &&& r matches Err(e) && e@ == bad_value(value@)
                    &&& *final(settings) == *old(settings)
                },
            }
        },
{
    if !same(key, SHARE_CLIENT_CONTEXT_KEY) {
        return Err(
            cat4("unknown setting '", key, "'; known keys: ", SHARE_CLIENT_CONTEXT_KEY),
        );
    }
    match parse_on_off(value) {
        Ok(on) => {
            settings.share_client_context = on;
            Ok(cat4(SHARE_CLIENT_CONTEXT_KEY, " = ", on_off(on), "\n"))
        },
        Err(e) => Err(e),
    }
}

/// Reads a preference.
pub fn config_get(settings: &Settings, key: &str) -> (r: Result<String, String>)
    ensures
        if key@ == SHARE_CLIENT_CONTEXT_KEY@ {
            r matches Ok(out) && out@ == setting_line(settings.share_client_context)
        } else {
            r matches Err(e) && e@ == unknown_setting(key@)
        },
{
    if same(key, SHARE_CLIENT_CONTEXT_KEY) {
        Ok(cat4(SHARE_CLIENT_CONTEXT_KEY, " = ", on_off(settings.share_client_context), "\n"))
    } else {
        Err(cat4("unknown setting '", key, "'; known keys: ", SHARE_CLIENT_CONTEXT_KEY))
    }
}

/// What is printed of a preference is read back as the same value.
pub proof fn law_printed_values_are_read_back(value: bool)
    ensures
        on_off_value(on_off_text(value)) == Some(value),
{
    reveal_strlit("on");
    reveal_strlit("off");
    reveal_strlit("true");
    reveal_strlit("yes");
    reveal_strlit("1");
    let t = on_off_text(value);
    assert(crate::text::trimmed_start(t) == t);
    assert(crate::text::trimmed_end(t) == t);
    assert(lowered(t) =~= t);
    if !value {
        assert("off"@[1] != "on"@[1]);
        assert("off"@.len() != "true"@.len());
        assert("off"@[0] != "yes"@[0]);
        assert("off"@.len() != "1"@.len());
    }
}

/// Output is printed line after line: what two lists of lines print is what the first
/// prints and behind it what the second prints, and every line is in it with its line
/// feed.
pub proof fn law_every_line_is_printed(a: Seq<Seq<char>>, b: Seq<Seq<char>>, line: Seq<char>)
    ensures
        printed(a + b) == printed(a) + printed(b),
        printed(seq![line]) == line.push('\n'),
        holds_text(printed(a + seq![line] + b), line.push('\n')),
    decreases b.len(),
{
    reveal_strlit("\n");
    let one = seq![line];
    assert(one.take(0) =~= Seq::<Seq<char>>::empty());
    assert(printed(one.take(0)) =~= Seq::<char>::empty());
    assert(printed(one) =~= line.push('\n'));
    lemma_printed_joined(a, b);
    lemma_printed_joined(a, one);
    lemma_printed_joined(a + one, b);
    law_text_is_held(printed(a), line.push('\n'), printed(b));
}

proof fn lemma_printed_joined(a: Seq<Seq<char>>, b: Seq<Seq<char>>)
    ensures
        printed(a + b) == printed(a) + printed(b),
    decreases b.len(),
{
    if b.len() == 0 {
        assert(a + b =~= a);
        assert(printed(a) + printed(b) =~= printed(a));
    } else {
        let n = b.len() - 1;
        lemma_printed_joined(a, b.take(n));
        assert((a + b).take((a + b).len() - 1) =~= a + b.take(n));
        assert(printed(a + b) =~= printed(a) + printed(b));
    }
}

/// A padded text is the text with blanks behind it, as wide as asked for, and is never
/// cut.
pub proof fn law_padding_is_blanks(s: Seq<char>, width: nat)
    ensures
        padded(s, width).take(s.len() as int) == s,
        padded(s, width).len() == (if s.len() < width {
            width
        } else {
            s.len()
        }),
        forall|i: int|
            s.len() <= i < padded(s, width).len() ==> #[trigger] padded(s, width)[i] == ' ',
{
    reveal_strlit(" ");
    if s.len() < width {
        lemma_blanks((width - s.len()) as nat);
        assert(padded(s, width).take(s.len() as int) =~= s);
    } else {
        assert(s.take(s.len() as int) =~= s);
    }
}

proof fn lemma_blanks(n: nat)
    ensures
        repeated(" "@, n).len() == n,
        forall|i: int| 0 <= i < n ==> #[trigger] repeated(" "@, n)[i] == ' ',
    decreases n,
{
    reveal_strlit(" ");
    if n > 0 {
        lemma_blanks((n - 1) as nat);
        law_repeated_are_copies(" "@, n);
        let all = repeated(" "@, n);
        assert(n * 1 == n);
        assert forall|i: int| 0 <= i < n implies #[trigger] all[i] == ' ' by {
            if i == 0 {
                assert(all.take(1)[0] == ' ');
            } else {
                assert(all.skip(1)[i - 1] == all[i]);
            }
        }
    }
}

/// The name column is as wide as the longest name, and at least as its heading: every
/// name fits, and no width is wasted.
pub proof fn law_name_column_fits(servers: Seq<McpServerConfig>, builtins: Seq<BuiltinInfo>)
    ensures
        forall|i: int|
            0 <= i < servers.len() ==> name_bytes((#[trigger] servers[i]).name@) <= name_width(
                servers,
                builtins,
            ),
        forall|i: int|
            0 <= i < builtins.len() ==> name_bytes((#[trigger] builtins[i]).name@) <= name_width(
                servers,
                builtins,
            ),
        4 <= name_width(servers, builtins),
        4 < name_width(servers, builtins) ==> (exists|i: int|
            0 <= i < servers.len() && name_bytes((#[trigger] servers[i]).name@) == name_width(
                servers,
                builtins,
            )) || (exists|i: int|
            0 <= i < builtins.len() && name_bytes((#[trigger] builtins[i]).name@) == name_width(
                servers,
                builtins,
            )),
{
    lemma_longest_server(servers);
    lemma_longest_builtin(builtins);
}

proof fn lemma_longest_server(servers: Seq<McpServerConfig>)
    ensures
        forall|i: int|
            0 <= i < servers.len() ==> name_bytes((#[trigger] servers[i]).name@) <= longest_server(
                servers,
            ),
        0 < longest_server(servers) ==> exists|i: int|
            0 <= i < servers.len() && name_bytes((#[trigger] servers[i]).name@) == longest_server(
                servers,
            ),
    decreases servers.len(),
{
    if servers.len() > 0 {
        let n = servers.len() - 1;
        let front = servers.take(n);
        lemma_longest_server(front);
        assert forall|i: int| 0 <= i < servers.len() implies name_bytes(
            (#[trigger] servers[i]).name@,
        ) <= longest_server(servers) by {
            if i < n {
                assert(front[i] == servers[i]);
            }
        }
        if 0 < longest_server(servers) {
            if longest_server(servers) == name_bytes(servers[n].name@) {
                assert(name_bytes(servers[n].name@) == longest_server(servers));
            } else {
                let i = choose|i: int|
                    0 <= i < front.len() && name_bytes((#[trigger] front[i]).name@)
                        == longest_server(front);
                assert(servers[i] == front[i]);
            }
        }
    }
}

proof fn lemma_longest_builtin(builtins: Seq<BuiltinInfo>)
    ensures
        forall|i: int|
            0 <= i < builtins.len() ==> name_bytes((#[trigger] builtins[i]).name@)
                <= longest_builtin(builtins),
        0 < longest_builtin(builtins) ==> exists|i: int|
            0 <= i < builtins.len() && name_bytes((#[trigger] builtins[i]).name@)
                == longest_builtin(builtins),
    decreases builtins.len(),
{
    if builtins.len() > 0 {
        let n = builtins.len() - 1;
        let front = builtins.take(n);
        lemma_longest_builtin(front);
        assert forall|i: int| 0 <= i < builtins.len() implies name_bytes(
            (#[trigger] builtins[i]).name@,
        ) <= longest_builtin(builtins) by {
            if i < n {
                assert(front[i] == builtins[i]);
            }
        }
        if 0 < longest_builtin(builtins) {
            if longest_builtin(builtins) == name_bytes(builtins[n].name@) {
                assert(name_bytes(builtins[n].name@) == longest_builtin(builtins));
            } else {
                let i = choose|i: int|
                    0 <= i < front.len() && name_bytes((#[trigger] front[i]).name@)
                        == longest_builtin(front);
                assert(builtins[i] == front[i]);
            }
        }
    }
}

/// What starts a server is told whole: its command and its arguments, or that it is
/// remote where it has no command.
pub proof fn law_targets_tell_the_command(server: McpServerConfig)
    ensures
        server.command@.len() > 0 ==> holds_text(target(server), server.command@),
        server.command@.len() > 0 && server.args@.len() > 0 ==> holds_text(
            target(server),
            joined(texts(server.args@), " "@),
        ),
        server.command@.len() > 0 && server.args@.len() == 0 ==> target(server) == server.command@,
        server.command@.len() == 0 ==> target(server) == "(remote/http)"@,
{
    let args = joined(texts(server.args@), " "@);
    let none = Seq::<char>::empty();
    law_text_is_held(none, server.command@, none);
    assert(none + server.command@ =~= server.command@);
    law_text_is_held(none, server.command@, " "@ + args);
    assert(server.command@ + (" "@ + args) =~= server.command@ + " "@ + args);
    law_text_is_held(server.command@ + " "@, args, none);
}

/// A row tells its name, its word and the rest, each in its own column: where the name
/// and the word fit, the columns begin at the same places in every row.
pub proof fn law_rows_stand_in_columns(
    name: Seq<char>,
    width: nat,
    word: Seq<char>,
    column: nat,
    rest: Seq<char>,
)
    ensures
        holds_text(row(name, width, word, column, rest), name),
        holds_text(row(name, width, word, column, rest), word),
        holds_text(row(name, width, word, column, rest), rest),
        name.len() <= width && word.len() <= column ==> {
            let all = row(name, width, word, column, rest);
            &&& all.subrange(2, 2 + name.len() as int) == name
            &&& all.subrange(4 + width as int, 4 + width + word.len() as int) == word
            &&& all.skip(6 + width + column as int) == rest
        },
{
    reveal_strlit("  ");
    let a = padded(name, width);
    let b = padded(word, column);
    let all = row(name, width, word, column, rest);
    let none = Seq::<char>::empty();
    law_padding_is_blanks(name, width);
    law_padding_is_blanks(word, column);
    law_text_is_held(none, name, a.skip(name.len() as int));
    assert(name + a.skip(name.len() as int) =~= a);
    law_text_is_held(none, word, b.skip(word.len() as int));
    assert(word + b.skip(word.len() as int) =~= b);
    law_text_is_held("  "@, a, "  "@ + b + ("  "@ + rest));
    assert("  "@ + a + ("  "@ + b + ("  "@ + rest)) =~= all);
    law_held_text_is_held(all, a, name);
    law_text_is_held("  "@ + a + "  "@, b, "  "@ + rest);
    law_held_text_is_held(all, b, word);
    law_text_is_held("  "@ + a + "  "@ + b + "  "@, rest, none);
    assert("  "@ + a + "  "@ + b + "  "@ + rest =~= all);
    if name.len() <= width && word.len() <= column {
        assert(all.subrange(2, 2 + name.len() as int) =~= name) by {
            assert(a.take(name.len() as int) == name);
            assert forall|i: int| 0 <= i < name.len() implies all[2 + i] == name[i] by {
                assert(a.take(name.len() as int)[i] == a[i]);
            }
        }
        assert(all.subrange(4 + width as int, 4 + width + word.len() as int) =~= word) by {
            assert forall|i: int| 0 <= i < word.len() implies all[4 + width + i] == word[i] by {
                assert(b.take(word.len() as int)[i] == b[i]);
            }
        }
        assert(all.skip(6 + width + column as int) =~= rest);
    }
}

/// The list says of each server whether it is turned on for the surface, and how it is
/// started.
pub proof fn law_server_rows_tell_the_choice(
    server: McpServerConfig,
    enabled: Seq<Seq<char>>,
    width: nat,
)
    ensures
        holds_text(server_row(server, enabled, width), server.name@),
        holds_text(server_row(server, enabled, width), target(server)),
        enabled.contains(server.name@) ==> holds_text(
            server_row(server, enabled, width),
            "enabled"@,
        ),
        !enabled.contains(server.name@) ==> holds_text(
            server_row(server, enabled, width),
            "disabled"@,
        ),
{
    law_rows_stand_in_columns(
        server.name@,
        width,
        if enabled.contains(server.name@) {
            "enabled"@
        } else {
            "disabled"@
        },
        9,
        target(server),
    );
}

/// A compiled-in server that is turned off is listed as that, one that a configured
/// server replaces as replaced, with the name of that server, and only the others as
/// active. Its row tells how many tools it has.
pub proof fn law_builtin_rows_tell_the_state(
    cfg: ClientMcpConfig,
    surface: Seq<char>,
    builtin: BuiltinInfo,
    width: nat,
)
    ensures
        builtin_state(cfg, surface, builtin.name@) == "active"@ <==> !disabled_of(
            cfg.surfaces@,
            surface,
        ).contains(builtin.name@) && !resolves(cfg, surface, builtin.name@),
        disabled_of(cfg.surfaces@, surface).contains(builtin.name@) ==> builtin_state(
            cfg,
            surface,
            builtin.name@,
        ) == "disabled (config)"@,
        !disabled_of(cfg.surfaces@, surface).contains(builtin.name@) && resolves(
            cfg,
            surface,
            builtin.name@,
        ) ==> holds_text(builtin_state(cfg, surface, builtin.name@), builtin.name@),
        holds_text(builtin_row(cfg, surface, builtin, width), builtin.name@),
        holds_text(builtin_row(cfg, surface, builtin, width), digits(builtin.tool_count as nat)),
        holds_text(
            builtin_row(cfg, surface, builtin, width),
            builtin_state(cfg, surface, builtin.name@),
        ),
{
    reveal_strlit("active");
    reveal_strlit("disabled (config)");
    reveal_strlit("overridden by client-MCP '");
    law_text_is_held("overridden by client-MCP '"@, builtin.name@, "'"@);
    assert("active"@.len() == 6 && "disabled (config)"@.len() == 17);
    assert("overridden by client-MCP '"@.len() == 26);
    law_rows_stand_in_columns(
        builtin.name@,
        width,
        digits(builtin.tool_count as nat),
        5,
        builtin_state(cfg, surface, builtin.name@),
    );
}

/// The list has a line for every configured server and for every compiled-in one, and
/// names the surface that it is about.
pub proof fn law_every_server_is_listed(
    cfg: ClientMcpConfig,
    builtins: Seq<BuiltinInfo>,
    surface: Seq<char>,
    i: int,
)
    ensures
        ({
            let lines = list_lines(cfg, builtins, surface);
            let width = name_width(cfg.servers@, builtins);
            let n = cfg.servers@.len();
            let heads = if n == 0 {
                1int
            } else {
                n as int + 1
            };
            &&& holds_text(lines[0], surface)
            &&& 0 <= i < n ==> lines[2 + i] == server_row(
                cfg.servers@[i],
                enabled_of(cfg.surfaces@, surface),
                width,
            )
            &&& 0 <= i < builtins.len() ==> lines[4 + heads + i] == builtin_row(
                cfg,
                surface,
                builtins[i],
                width,
            )
        }),
{
    let lines = list_lines(cfg, builtins, surface);
    law_text_is_held("Client-hosted MCP servers (surface: "@, surface, ")"@);
    assert(lines[0] == "Client-hosted MCP servers (surface: "@ + surface + ")"@);
}

/// A server is turned on for the named surfaces and for no other one, and no other
/// server's choice changes.
pub proof fn law_turned_on_for_the_named_surfaces(
    before: Seq<Seq<char>>,
    surface: Seq<char>,
    surfaces: Seq<Seq<char>>,
    name: Seq<char>,
    other: Seq<char>,
)
    ensures
        turned_on(before, surface, surfaces, name).contains(name) <==> before.contains(name)
            || surfaces.contains(surface),
        other != name ==> (turned_on(before, surface, surfaces, name).contains(other)
            <==> before.contains(other)),
{
    crate::client_config::law_switching_one_name(before, name, true, name);
    crate::client_config::law_switching_one_name(before, name, true, other);
}

/// A switch is told by the word for where it was turned to.
pub proof fn law_switches_are_told(on: bool)
    ensures
        switch_word(on) == "Enabled"@ <==> on,
        switch_word(on) == "Disabled"@ <==> !on,
        on_off_text(on) == "on"@ <==> on,
        on_off_text(on) == "off"@ <==> !on,
{
    reveal_strlit("Enabled");
    reveal_strlit("Disabled");
    reveal_strlit("on");
    reveal_strlit("off");
    assert("Enabled"@.len() == 7 && "Disabled"@.len() == 8);
    assert("on"@.len() == 2 && "off"@.len() == 3);
}

/// A value is read in any case and with white space around it, the same text always the
/// same way; no text stands for both values.
pub proof fn law_values_are_read_in_any_case(text: Seq<char>)
    ensures
        on_off_value(text) == on_off_value(trimmed(text)),
        on_off_value(lowered(trimmed(text))) == on_off_value(text) || trimmed(
            lowered(trimmed(text)),
        ) != lowered(trimmed(text)),
        on_off_value(text) == Some(true) <==> lowered(trimmed(text)) == "on"@ || lowered(
            trimmed(text),
        ) == "true"@ || lowered(trimmed(text)) == "yes"@ || lowered(trimmed(text)) == "1"@,
        on_off_value(text) == Some(false) <==> lowered(trimmed(text)) == "off"@ || lowered(
            trimmed(text),
        ) == "false"@ || lowered(trimmed(text)) == "no"@ || lowered(trimmed(text)) == "0"@,
{
    reveal_strlit("on");
    reveal_strlit("true");
    reveal_strlit("yes");
    reveal_strlit("1");
    reveal_strlit("off");
    reveal_strlit("false");
    reveal_strlit("no");
    reveal_strlit("0");
    law_trimmed_has_no_outer_space(text);
    assert(lowered(lowered(trimmed(text))) =~= lowered(trimmed(text)));
    assert("on"@.len() == 2 && "true"@.len() == 4 && "yes"@.len() == 3 && "1"@.len() == 1);
    assert("off"@.len() == 3 && "false"@.len() == 5 && "no"@.len() == 2 && "0"@.len() == 1);
    assert("on"@[0] == 'o' && "no"@[0] == 'n' && "yes"@[0] == 'y' && "off"@[0] == 'o');
    assert("1"@[0] == '1' && "0"@[0] == '0');
}

/// An error names what was wrong, and a setting is printed with its key and its value.
pub proof fn law_settings_are_told(key: Seq<char>, text: Seq<char>, value: bool)
    ensures
        holds_text(bad_value(text), lowered(trimmed(text))),
        holds_text(unknown_setting(key), key),
        holds_text(unknown_setting(key), SHARE_CLIENT_CONTEXT_KEY@),
        holds_text(setting_line(value), SHARE_CLIENT_CONTEXT_KEY@),
        holds_text(setting_line(value), on_off_text(value)),
        setting_line(true) != setting_line(false),
{
    reveal_strlit("on");
    reveal_strlit("off");
    let known = SHARE_CLIENT_CONTEXT_KEY@;
    let none = Seq::<char>::empty();
    law_text_is_held(
        "invalid value '"@,
        lowered(trimmed(text)),
        "'; use on/off (also true/false, yes/no, 1/0)"@,
    );
    law_text_is_held("unknown setting '"@, key, "'; known keys: "@ + known);
    assert("unknown setting '"@ + key + ("'; known keys: "@ + known) =~= unknown_setting(key));
    law_text_is_held("unknown setting '"@ + key + "'; known keys: "@, known, none);
    law_text_is_held(none, known, " = "@ + on_off_text(value) + "\n"@);
    assert(known + (" = "@ + on_off_text(value) + "\n"@) =~= setting_line(value));
    law_text_is_held(known + " = "@, on_off_text(value), "\n"@);
    assert(setting_line(true).len() + 1 == setting_line(false).len());
}

/// A defined server is the one that was asked for: its name, its command, its arguments
/// in their order, its namespace, and nothing else.
pub proof fn law_defined_server_is_as_asked(
    server: McpServerConfig,
    name: Seq<char>,
    command: Seq<char>,
    args: Seq<Seq<char>>,
    namespace: Option<Seq<char>>,
)
    requires
        is_stdio_server(server, name, command, args, namespace),
    ensures
        server.name@ == name,
        server.command@ == command,
        server.args@.len() == args.len(),
        forall|i: int| 0 <= i < args.len() ==> (#[trigger] server.args@[i])@ == args[i],
        opt_text(server.namespace) == namespace,
        server.enabled,
        server.rest@.len() == 0,
        command.len() > 0 ==> holds_text(target(server), command),
{
    reveal_strlit("");
    assert(texts(server.args@).len() == server.args@.len());
    assert forall|i: int| 0 <= i < args.len() implies (#[trigger] server.args@[i])@ == args[i] by {
        assert(texts(server.args@)[i] == server.args@[i]@);
    }
    law_targets_tell_the_command(server);
}

} // verus!
