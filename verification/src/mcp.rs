//! MCP servers handed to the agent at `session/new` and `session/load`.
//!
//! In ACP the client owns tool supply: an agent starts with exactly the
//! servers the client passes. Servers are read, in precedence order, from
//! `mcpServers` in the settings document, then `mcpServers` in crow-cli's
//! config, then nothing at all. Entries are passed through untouched.
use vstd::prelude::*;
use crate::json::{Json, str_member, str_member_of};
use crate::yaml::{YamlNode, index, load_first_yaml_document, str_list, str_of, yaml_accepts, yaml_first_document, yaml_loads};
use crate::harness::{str_views, pair_views, join, json_strings, strings};
use crate::text::{
    chars_of, lines, lines_of, has_prefix, starts_with, trim_start, trim_start_index, is_blank,
    string_from, str_eq, char_len,
};

verus! {

/// Where crow-cli keeps its configuration.
pub const CROW_CONFIG: &'static str = "~/.agents/crow/config.yaml";

/// One MCP server, in the shape the agent receives it.
pub enum McpServer {
    Stdio { name: String, command: String, args: Vec<String>, env: Vec<(String, String)> },
    Http { name: String, url: String, headers: Vec<(String, String)> },
    Sse { name: String, url: String, headers: Vec<(String, String)> },
}

pub enum McpServerView {
    Stdio {
        name: Seq<char>,
        command: Seq<char>,
        args: Seq<Seq<char>>,
        env: Seq<(Seq<char>, Seq<char>)>,
    },
    Http { name: Seq<char>, url: Seq<char>, headers: Seq<(Seq<char>, Seq<char>)> },
    Sse { name: Seq<char>, url: Seq<char>, headers: Seq<(Seq<char>, Seq<char>)> },
}

impl View for McpServer {
    type V = McpServerView;

    open spec fn view(&self) -> McpServerView {
        match self {
            McpServer::Stdio { name, command, args, env } => McpServerView::Stdio {
                name: name@,
                command: command@,
                args: str_views(args@),
                env: pair_views(env@),
            },
            McpServer::Http { name, url, headers } => McpServerView::Http {
                name: name@,
                url: url@,
                headers: pair_views(headers@),
            },
            McpServer::Sse { name, url, headers } => McpServerView::Sse {
                name: name@,
                url: url@,
                headers: pair_views(headers@),
            },
        }
    }
}

pub open spec fn server_views(v: Seq<McpServer>) -> Seq<McpServerView> {
    v.map_values(|s: McpServer| s@)
}

/// The entries of an object whose values are strings, in order.
pub open spec fn str_pairs_of(entries: Seq<(String, Json)>) -> Seq<(Seq<char>, Seq<char>)>
    decreases entries.len(),
{
    if entries.len() == 0 {
        Seq::empty()
    } else {
        let rest = str_pairs_of(entries.drop_last());
        match entries.last().1.str_view() {
            Some(v) => rest.push((entries.last().0@, v)),
            None => rest,
        }
    }
}

/// The string entries of an optional object value; nothing for anything else.
pub open spec fn json_str_pairs(value: Option<Json>) -> Seq<(Seq<char>, Seq<char>)> {
    match value {
        Some(v) => match v.entries() {
            Some(m) => str_pairs_of(m),
            None => Seq::empty(),
        },
        None => Seq::empty(),
    }
}

/// The server an entry describes: a `url` makes an SSE server when the
/// transport says `sse` and an HTTP server otherwise; without a `url`, a
/// `command` makes a stdio server; with neither there is none.
pub open spec fn server_of(name: Seq<char>, entry: Json) -> Option<McpServerView> {
    let transport = str_member(entry, "transport"@);
    let url = str_member(entry, "url"@);
    let command = str_member(entry, "command"@);
    if url is Some && transport == Some("sse"@) {
        Some(
            McpServerView::Sse {
                name,
                url: url->0,
                headers: json_str_pairs(entry.member("headers"@)),
            },
        )
    } else if url is Some {
        Some(
            McpServerView::Http {
                name,
                url: url->0,
                headers: json_str_pairs(entry.member("headers"@)),
            },
        )
    } else if command is Some {
        Some(
            McpServerView::Stdio {
                name,
                command: command->0,
                args: json_strings(entry.member("args"@)),
                env: json_str_pairs(entry.member("env"@)),
            },
        )
    } else {
        None
    }
}

/// The servers of a settings `mcpServers` object: entries that describe no
/// server are skipped.
pub open spec fn settings_servers(entries: Seq<(String, Json)>) -> Seq<McpServerView>
    decreases entries.len(),
{
    if entries.len() == 0 {
        Seq::empty()
    } else {
        let rest = settings_servers(entries.drop_last());
        match server_of(entries.last().0@, entries.last().1) {
            Some(s) => rest.push(s),
            None => rest,
        }
    }
}

/// The server a crow entry describes, read the way the settings entries
/// are: a `url` makes an SSE server when the transport says `sse` and an
/// HTTP server otherwise; without a `url`, a `command` makes a stdio server.
pub open spec fn crow_server(name: Seq<char>, entry: YamlNode) -> Option<McpServerView> {
    let transport = str_of(index(entry, "transport"@));
    let url = str_of(index(entry, "url"@));
    let command = str_of(index(entry, "command"@));
    if url is Some && transport == Some("sse"@) {
        Some(McpServerView::Sse { name, url: url->0, headers: crate::yaml::str_pairs(index(entry, "headers"@)) })
    } else if url is Some {
        Some(McpServerView::Http { name, url: url->0, headers: crate::yaml::str_pairs(index(entry, "headers"@)) })
    } else if command is Some {
        Some(
            McpServerView::Stdio {
                name,
                command: command->0,
                args: str_list(index(entry, "args"@)),
                env: crate::yaml::str_pairs(index(entry, "env"@)),
            },
        )
    } else {
        None
    }
}

/// The servers of a crow `mcpServers` mapping: entries whose name is no
/// string are skipped, and one entry that describes no server spoils the
/// whole mapping.
pub open spec fn crow_servers(entries: Seq<(YamlNode, YamlNode)>) -> Option<Seq<McpServerView>>
    decreases entries.len(),
{
    if entries.len() == 0 {
        Some(Seq::empty())
    } else {
        match crow_servers(entries.drop_last()) {
            Some(rest) => match str_of(entries.last().0) {
                Some(name) => match crow_server(name, entries.last().1) {
                    Some(s) => Some(rest.push(s)),
                    None => None,
                },
                None => Some(rest),
            },
            None => None,
        }
    }
}

/// The text crow's servers are read from: the whole config when the YAML
/// parser accepts it, else its `mcpServers:` block.
pub open spec fn crow_source(text: Seq<char>) -> Option<Seq<char>> {
    if yaml_accepts(text) { Some(text) } else { mcp_block(text) }
}

/// crow-cli's servers in its config text: the `mcpServers` mapping of the
/// first document of the source text; none when there is no such text or
/// document, when the key is missing or no mapping, or when an entry
/// describes no server.
pub open spec fn crow_supply(text: Seq<char>) -> Option<Seq<McpServerView>> {
    match crow_source(text) {
        Some(src) => match yaml_first_document(src) {
            Some(doc) => match index(doc, "mcpServers"@) {
                YamlNode::Hash(m) => crow_servers(m@),
                _ => None,
            },
            None => None,
        },
        None => None,
    }
}

fn str_pairs(value: Option<&Json>) -> (r: Vec<(String, String)>)
    ensures
        pair_views(r@) == json_str_pairs(
            match value {
                Some(v) => Some(*v),
                None => None,
            },
        ),
{
    let mut out: Vec<(String, String)> = Vec::new();
    if let Some(v) = value {
        if let Some(m) = v.as_object() {
            let mut i: usize = 0;
            while i < m.len()
                invariant
                    i <= m.len(),
                    pair_views(out@) == str_pairs_of(m@.take(i as int)),
                decreases m.len() - i,
            {
                let ghost before = out@;
                if let Some(s) = m[i].1.as_str() {
                    out.push((m[i].0.clone(), s.to_owned()));
                    assert(pair_views(out@) =~= pair_views(before).push((m@[i as int].0@, s@)));
                }
                assert(m@.take(i + 1).drop_last() =~= m@.take(i as int));
                i = i + 1;
            }
            assert(m@.take(m.len() as int) =~= m@);
        }
    }
    out
}

/// The server `entry` describes under `name`, if any.
pub fn server_from(name: &String, entry: &Json) -> (r: Option<McpServer>)
    ensures
        match r {
            Some(s) => server_of(name@, *entry) == Some(s@),
            None => server_of(name@, *entry) is None,
        },
{
    let transport = str_member_of(entry, "transport");
    let url = str_member_of(entry, "url");
    match url {
        Some(u) => {
            let sse = match transport {
                Some(t) => str_eq(t, "sse"),
                None => false,
            };
            let headers = str_pairs(entry.get("headers"));
            if sse {
                Some(McpServer::Sse { name: name.clone(), url: u.to_owned(), headers })
            } else {
                Some(McpServer::Http { name: name.clone(), url: u.to_owned(), headers })
            }
        },
        None => match str_member_of(entry, "command") {
            Some(c) => Some(
                McpServer::Stdio {
                    name: name.clone(),
                    command: c.to_owned(),
                    args: strings(entry.get("args")),
                    env: str_pairs(entry.get("env")),
                },
            ),
            None => None,
        },
    }
}

/// `mcpServers` of the settings document (`None` when the file is missing
/// or does not parse). `None` when the key is absent — the crow config is
/// consulted then; `Some` whenever it is present, even when it declares no
/// server (a value that is no object declares none).
pub fn from_settings_json(settings: Option<&Json>) -> (r: Option<Vec<McpServer>>)
    ensures
        match settings {
            None => r is None,
            Some(doc) => match doc.member("mcpServers"@) {
                None => r is None,
                Some(node) => r matches Some(v) && server_views(v@) == match node.entries() {
                    Some(m) => settings_servers(m),
                    None => Seq::empty(),
                },
            },
        },
{
    let settings = match settings {
        Some(doc) => doc,
        None => {
            return None;
        },
    };
    let node = match settings.get("mcpServers") {
        Some(n) => n,
        None => {
            return None;
        },
    };
    let m = match node.as_object() {
        Some(m) => m,
        None => {
            let none: Vec<McpServer> = Vec::new();
            assert(server_views(none@) =~= Seq::empty());
            return Some(none);
        },
    };
    let mut out: Vec<McpServer> = Vec::new();
    let mut i: usize = 0;
    while i < m.len()
        invariant
            i <= m.len(),
            server_views(out@) == settings_servers(m@.take(i as int)),
        decreases m.len() - i,
    {
        let ghost before = out@;
        assert(m@.take(i + 1).drop_last() =~= m@.take(i as int));
        if let Some(s) = server_from(&m[i].0, &m[i].1) {
            out.push(s);
            assert(server_views(out@) =~= server_views(before).push(s@));
        }
        i = i + 1;
    }
    assert(m@.take(m.len() as int) =~= m@);
    Some(out)
}

/// The server a crow entry describes under `name`, if any.
fn crow_server_from(name: &str, entry: &YamlNode) -> (r: Option<McpServer>)
    ensures
        match r {
            Some(s) => crow_server(name@, *entry) == Some(s@),
            None => crow_server(name@, *entry) is None,
        },
{
    let transport = entry.get("transport").as_str();
    let url = entry.get("url").as_str();
    match url {
        Some(u) => {
            let sse = match transport {
                Some(t) => str_eq(t, "sse"),
                None => false,
            };
            let headers = entry.get("headers").string_pairs();
            if sse {
                Some(McpServer::Sse { name: name.to_owned(), url: u.to_owned(), headers })
            } else {
                Some(McpServer::Http { name: name.to_owned(), url: u.to_owned(), headers })
            }
        },
        None => match entry.get("command").as_str() {
            Some(c) => {
                let args = entry.get("args").string_list();
                let env = entry.get("env").string_pairs();
                proof {
                    assert(str_views(args@) =~= args@.map_values(|s: String| s@));
                    assert(pair_views(env@) =~= env@.map_values(|p: (String, String)| (p.0@, p.1@)));
                }
                Some(McpServer::Stdio { name: name.to_owned(), command: c.to_owned(), args, env })
            },
            None => None,
        },
    }
}

/// `mcpServers` of crow-cli's config, from the config's text (`None` when
/// the file is missing): read from the whole config when it parses, else
/// from its `mcpServers:` block; none when that yields no document, the key
/// is missing or no mapping, or an entry describes no server.
pub fn from_crow_config(text: Option<&str>) -> (r: Option<Vec<McpServer>>)
    ensures
        match text {
            None => r is None,
            Some(t) => match crow_supply(t@) {
                Some(v) => r matches Some(x) && server_views(x@) == v,
                None => r is None,
            },
        },
{
    let config = match text {
        Some(t) => t,
        None => {
            return None;
        },
    };
    let source = match crow_config_text(config) {
        Some(s) => s,
        None => {
            return None;
        },
    };
    let doc = match load_first_yaml_document(source.as_str()) {
        Some(d) => d,
        None => {
            return None;
        },
    };
    let node = doc.get("mcpServers");
    let m = match node {
        YamlNode::Hash(m) => m,
        _ => {
            return None;
        },
    };
    let mut out: Vec<McpServer> = Vec::new();
    let mut i: usize = 0;
    while i < m.len()
        invariant
            i <= m.len(),
            crow_servers(m@.take(i as int)) == Some(server_views(out@)),
            text == Some(config),
            crow_supply(config@) == crow_servers(m@),
        decreases m.len() - i,
    {
        let ghost before = out@;
        assert(m@.take(i + 1).drop_last() =~= m@.take(i as int));
        assert(m@.take(i + 1).last() == m@[i as int]);
        match m[i].0.as_str() {
            Some(name) => match crow_server_from(name, &m[i].1) {
                Some(s) => {
                    out.push(s);
                    assert(server_views(out@) =~= server_views(before).push(s@));
                },
                None => {
                    proof {
                        assert(crow_servers(m@.take(i + 1)) is None);
                        lemma_crow_spoiled(m@, i as int + 1);
                    }
                    return None;
                },
            },
            None => {},
        }
        i = i + 1;
    }
    assert(m@.take(m.len() as int) =~= m@);
    Some(out)
}

proof fn lemma_crow_spoiled(entries: Seq<(YamlNode, YamlNode)>, k: int)
    requires
        0 <= k <= entries.len(),
        crow_servers(entries.take(k)) is None,
    ensures
        crow_servers(entries) is None,
    decreases entries.len() - k,
{
    if k < entries.len() {
        assert(entries.take(k + 1).drop_last() =~= entries.take(k));
        lemma_crow_spoiled(entries, k + 1);
    } else {
        assert(entries.take(k) =~= entries);
    }
}

/// The servers for the next session: the settings document's when it has an
/// `mcpServers` key, else crow-cli's, else none.
pub fn load(from_settings: Option<Vec<McpServer>>, from_crow: Option<Vec<McpServer>>) -> (r: Vec<
    McpServer,
>)
    ensures
        match from_settings {
            Some(s) => server_views(r@) == server_views(s@),
            None => match from_crow {
                Some(c) => server_views(r@) == server_views(c@),
                None => r@.len() == 0,
            },
        },
{
    match from_settings {
        Some(s) => s,
        None => match from_crow {
            Some(c) => c,
            None => Vec::new(),
        },
    }
}

/// The line that opens the servers block.
pub open spec fn is_key_line(line: Seq<char>) -> bool {
    has_prefix(line, "mcpServers:"@)
}

/// How many lines precede the first key line.
pub open spec fn lines_before_key(ls: Seq<Seq<char>>) -> nat
    decreases ls.len(),
{
    if ls.len() == 0 || is_key_line(ls[0]) {
        0
    } else {
        1 + lines_before_key(ls.skip(1))
    }
}

/// A line that still belongs to an indented block: indented, blank, or a
/// comment.
pub open spec fn continues_block(line: Seq<char>) -> bool {
    ||| (line.len() > 0 && (line[0] == ' ' || line[0] == '\t'))
    ||| is_blank(line)
    ||| (trim_start(line).len() > 0 && trim_start(line)[0] == '#')
}

/// How many leading lines continue a block.
pub open spec fn block_run(ls: Seq<Seq<char>>) -> nat
    decreases ls.len(),
{
    if ls.len() == 0 || !continues_block(ls[0]) {
        0
    } else {
        1 + block_run(ls.skip(1))
    }
}

/// The top-level `mcpServers:` block of a document: its key line and every
/// following indented, blank or comment line, up to the next top-level key.
pub open spec fn mcp_block(text: Seq<char>) -> Option<Seq<char>> {
    let ls = lines(text);
    let k = lines_before_key(ls) as int;
    if k < ls.len() {
        Some(join(ls.subrange(k, k + 1 + block_run(ls.skip(k + 1))), seq!['\n']))
    } else {
        None
    }
}

proof fn lemma_lines_before_key(ls: Seq<Seq<char>>, k: int)
    requires
        0 <= k <= ls.len(),
        forall|j: int| 0 <= j < k ==> !is_key_line(#[trigger] ls[j]),
        k == ls.len() || is_key_line(ls[k]),
    ensures
        lines_before_key(ls) == k,
    decreases k,
{
    if k > 0 {
        assert forall|j: int| 0 <= j < k - 1 implies !is_key_line(#[trigger] ls.skip(1)[j]) by {
            assert(ls.skip(1)[j] == ls[j + 1]);
        }
        if k < ls.len() {
            assert(ls.skip(1)[k - 1] == ls[k]);
        }
        lemma_lines_before_key(ls.skip(1), k - 1);
        assert(!is_key_line(ls[0]));
    }
}

proof fn lemma_block_run(ls: Seq<Seq<char>>, k: int)
    requires
        0 <= k <= ls.len(),
        forall|j: int| 0 <= j < k ==> continues_block(#[trigger] ls[j]),
        k == ls.len() || !continues_block(ls[k]),
    ensures
        block_run(ls) == k,
    decreases k,
{
    if k > 0 {
        assert forall|j: int| 0 <= j < k - 1 implies continues_block(#[trigger] ls.skip(1)[j]) by {
            assert(ls.skip(1)[j] == ls[j + 1]);
        }
        if k < ls.len() {
            assert(ls.skip(1)[k - 1] == ls[k]);
        }
        lemma_block_run(ls.skip(1), k - 1);
        assert(continues_block(ls[0]));
    }
}

fn continues_block_line(line: &Vec<char>) -> (b: bool)
    ensures
        b == continues_block(line@),
{
    if line.len() > 0 && (line[0] == ' ' || line[0] == '\t') {
        return true;
    }
    let a = trim_start_index(line);
    if a == line.len() {
        return true;
    }
    assert(!is_blank(line@)) by {
        assert(!crate::text::is_white(line@[a as int]));
    }
    assert(trim_start(line@)[0] == line@[a as int]);
    line[a] == '#'
}

/// The top-level `mcpServers:` block of `text`, cut out by indentation, for
/// a document that does not parse as a whole.
pub fn mcp_servers_block(text: &str) -> (r: Option<String>)
    ensures
        match r {
            Some(b) => mcp_block(text@) == Some(b@),
            None => mcp_block(text@) is None,
        },
{
    let chars = chars_of(text);
    let ls = lines_of(&chars);
    let ghost lv = ls@.map_values(|p: Vec<char>| p@);
    let key = chars_of("mcpServers:");
    let n = ls.len();
    let mut k: usize = 0;
    while k < n && !starts_with(&ls[k], &key)
        invariant
            k <= n == ls.len(),
            lv == ls@.map_values(|p: Vec<char>| p@),
            key@ == "mcpServers:"@,
            forall|j: int| 0 <= j < k ==> !is_key_line(#[trigger] lv[j]),
        decreases n - k,
    {
        assert(lv[k as int] == ls@[k as int]@);
        k = k + 1;
    }
    proof {
        if k < n {
            assert(lv[k as int] == ls@[k as int]@);
        }
        lemma_lines_before_key(lv, k as int);
    }
    if k == n {
        return None;
    }
    let mut out: Vec<char> = ls[k].clone();
    assert(lv.subrange(k as int, k + 1) =~= seq![lv[k as int]]);
    let mut j: usize = k + 1;
    while j < n && continues_block_line(&ls[j])
        invariant
            k < j <= n == ls.len(),
            lv == ls@.map_values(|p: Vec<char>| p@),
            out@ == join(lv.subrange(k as int, j as int), seq!['\n']),
            forall|q: int| k < q < j ==> continues_block(#[trigger] lv[q]),
        decreases n - j,
    {
        let line = &ls[j];
        assert(lv[j as int] == line@);
        let ghost before = out@;
        out.push('\n');
        let mut t: usize = 0;
        while t < line.len()
            invariant
                t <= line.len(),
                out@ == before + seq!['\n'] + line@.take(t as int),
            decreases line.len() - t,
        {
            out.push(line[t]);
            assert(line@.take(t + 1) =~= line@.take(t as int).push(line@[t as int]));
            t = t + 1;
        }
        assert(line@.take(line.len() as int) =~= line@);
        assert(lv.subrange(k as int, j + 1).drop_last() =~= lv.subrange(k as int, j as int));
        j = j + 1;
    }
    proof {
        let body = lv.skip(k + 1);
        assert forall|q: int| 0 <= q < j - k - 1 implies continues_block(#[trigger] body[q]) by {
            assert(body[q] == lv[q + k + 1]);
        }
        if j < n {
            assert(body[j - k - 1] == lv[j as int]);
            assert(lv[j as int] == ls@[j as int]@);
        }
        lemma_block_run(body, j - k - 1);
    }
    Some(string_from(out.as_slice()))
}

/// The text whose first YAML document holds crow's servers, given whether
/// the whole file parses: the file itself when it does, else only its
/// `mcpServers:` block (crow-cli's own parser tolerates duplicate keys
/// elsewhere in the file; a strict one refuses the whole document).
pub fn crow_source_text(text: &str, whole_parses: bool) -> (r: Option<String>)
    ensures
        whole_parses ==> (r matches Some(s) && s@ == text@),
        !whole_parses ==> match r {
            Some(b) => mcp_block(text@) == Some(b@),
            None => mcp_block(text@) is None,
        },
{
    if whole_parses {
        Some(text.to_owned())
    } else {
        mcp_servers_block(text)
    }
}

/// The text to read crow's servers from: the whole config when the YAML
/// parser accepts it, else its `mcpServers:` block.
pub fn crow_config_text(text: &str) -> (r: Option<String>)
    ensures
        yaml_accepts(text@) ==> (r matches Some(s) && s@ == text@),
        !yaml_accepts(text@) ==> match r {
            Some(b) => mcp_block(text@) == Some(b@),
            None => mcp_block(text@) is None,
        },
{
    let whole = yaml_loads(text);
    crow_source_text(text, whole)
}

/// `path` with a leading `~` replaced by `home` (`PathBuf::from(home).join(rest)`,
/// the rest stripped of leading `/`); unchanged without a home or a `~`.
pub open spec fn expanded(path: Seq<char>, home: Option<Seq<char>>) -> Seq<char> {
    match home {
        Some(h) => if path.len() > 0 && path[0] == '~' {
            let rest = path.skip(1 + leading_slashes(path.skip(1)) as int);
            if h.len() == 0 {
                rest
            } else if h.last() == '/' {
                h + rest
            } else {
                h + seq!['/'] + rest
            }
        } else {
            path
        },
        None => path,
    }
}

/// How many `/` open `s`.
pub open spec fn leading_slashes(s: Seq<char>) -> nat
    decreases s.len(),
{
    if s.len() > 0 && s[0] == '/' {
        1 + leading_slashes(s.skip(1))
    } else {
        0
    }
}

proof fn lemma_leading_slashes(s: Seq<char>, k: int)
    requires
        0 <= k <= s.len(),
        forall|j: int| 0 <= j < k ==> s[j] == '/',
        k == s.len() || s[k] != '/',
    ensures
        leading_slashes(s) == k,
    decreases k,
{
    if k > 0 {
        assert forall|j: int| 0 <= j < k - 1 implies s.skip(1)[j] == '/' by {
            assert(s.skip(1)[j] == s[j + 1]);
        }
        if k < s.len() {
            assert(s.skip(1)[k - 1] == s[k]);
        }
        lemma_leading_slashes(s.skip(1), k - 1);
    }
}

/// A `~`-relative path made absolute against the home directory.
pub fn expand_home(path: &str, home: Option<&str>) -> (r: String)
    ensures
        r@ == expanded(path@, match home {
            Some(h) => Some(h@),
            None => None,
        }),
{
    let h = match home {
        Some(h) => h,
        None => {
            return path.to_owned();
        },
    };
    let p = chars_of(path);
    if p.len() == 0 || p[0] != '~' {
        return path.to_owned();
    }
    let mut a: usize = 1;
    while a < p.len() && p[a] == '/'
        invariant
            1 <= a <= p.len(),
            forall|j: int| 1 <= j < a ==> p@[j] == '/',
        decreases p.len() - a,
    {
        a = a + 1;
    }
    proof {
        let tail = p@.skip(1);
        assert forall|j: int| 0 <= j < a - 1 implies tail[j] == '/' by {
            assert(tail[j] == p@[j + 1]);
        }
        if a < p.len() {
            assert(tail[a - 1] == p@[a as int]);
        }
        lemma_leading_slashes(tail, a - 1);
    }
    let hv = chars_of(h);
    let mut out: Vec<char> = hv.clone();
    if hv.len() > 0 && hv[hv.len() - 1] != '/' {
        out.push('/');
    }
    let ghost lead = out@;
    let mut q = a;
    while q < p.len()
        invariant
            a <= q <= p.len(),
            out@ == lead + p@.subrange(a as int, q as int),
        decreases p.len() - q,
    {
        out.push(p[q]);
        assert(p@.subrange(a as int, q + 1) =~= p@.subrange(a as int, q as int).push(p@[q as int]));
        q = q + 1;
    }
    assert(p@.subrange(a as int, p.len() as int) =~= p@.skip(a as int));
    proof {
        if hv.len() == 0 {
            assert(out@ =~= p@.skip(a as int));
        } else if hv@.last() == '/' {
            assert(out@ =~= hv@ + p@.skip(a as int));
        } else {
            assert(out@ =~= hv@ + seq!['/'] + p@.skip(a as int));
        }
    }
    string_from(out.as_slice())
}

/// `mcpServers` of the settings file with this text (`None` for no file,
/// text that is no JSON, or no such key); `Some` whenever the key is
/// present, as `from_settings_json` reads the parsed document.
pub fn from_settings_text(text: Option<&str>) -> (r: Option<Vec<McpServer>>)
    ensures
        match crate::harness::settings_of_text(text) {
            None => r is None,
            Some(doc) => match doc.member("mcpServers"@) {
                None => r is None,
                Some(node) => r matches Some(v) && server_views(v@) == match node.entries() {
                    Some(m) => settings_servers(m),
                    None => Seq::empty(),
                },
            },
        },
{
    let doc = crate::json::parse_file_text(text);
    from_settings_json(doc.as_ref())
}

} // verus!
