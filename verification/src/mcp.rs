//! The add/edit form of an MCP server: validation, and the configuration text
//! that the daemon is sent.

use vstd::prelude::*;
use crate::json::{array_of, object_of, string_value};
#[allow(unused_imports)]
use crate::json::{json_array, json_object, json_string, pair_texts};
use crate::text::{
    cat2, chars_of, is_control_char, join, keep_nonempty, same, split, string_from, trim,
    Separator,
};
#[allow(unused_imports)]
use crate::text::{
    is_control, is_space, joined, law_nonempty_pieces_are_runs, law_trimmed_has_no_outer_space,
    law_trimmed_is_what_lies_between, nonempty, opt_text, pieces, runs, texts, trimmed,
    trimmed_start,
};

verus! {

/// The transport that a server speaks.
#[derive(Debug, Clone, Copy, PartialEq, Eq, Structural)]
pub enum McpTransport {
    /// A local process spoken to over stdio.
    Stdio,
    /// A remote streamable-HTTP endpoint.
    Http,
}

/// How a remote server authenticates.
#[derive(Debug, Clone, Copy, PartialEq, Eq, Structural)]
pub enum McpAuthKind {
    /// No authentication.
    Anonymous,
    /// A static bearer token, stored write-only.
    Bearer,
    /// OAuth through a service account.
    OAuth,
}

/// The tone in which a status is drawn.
#[derive(Debug, Clone, Copy, PartialEq, Eq, Structural)]
pub enum StatusTone {
    Good,
    Warn,
    Error,
    Neutral,
}

/// `i` wrapped into `0..len`; 0 for an empty range.
pub open spec fn wrapped_index(i: int, len: int) -> int {
    if len <= 0 {
        0
    } else {
        i % len
    }
}

/// Wraps `i` into `0..len`, negative numbers too.
pub fn wrap_index(i: i32, len: usize) -> (r: usize)
    requires
        len <= i32::MAX,
    ensures
        r == wrapped_index(i as int, len as int),
        len > 0 ==> r < len,
{
    if len == 0 {
        return 0;
    }
    let n: i64 = len as i64;
    let at: i64 = i as i64;
    if at >= 0 {
        (at % n) as usize
    } else {
        let back: i64 = (-at) % n;
        if back == 0 {
            proof {
                lemma_negative_mod(-at as int, n as int);
            }
            0
        } else {
            proof {
                lemma_negative_mod(-at as int, n as int);
            }
            (n - back) as usize
        }
    }
}

proof fn lemma_negative_mod(a: int, n: int)
    requires
        a > 0,
        n > 0,
    ensures
        (-a) % n == (if a % n == 0 {
            0
        } else {
            n - a % n
        }),
{
    let q = a / n;
    let r = a % n;
    assert(a == n * q + r) by {
        vstd::arithmetic::div_mod::lemma_fundamental_div_mod(a, n);
    }
    if r == 0 {
        assert(-a == n * (-q) + 0) by (nonlinear_arith)
            requires
                a == n * q + r,
                r == 0,
        ;
        vstd::arithmetic::div_mod::lemma_fundamental_div_mod_converse(-a, n, -q, 0);
    } else {
        assert(-a == n * (-q - 1) + (n - r)) by (nonlinear_arith)
            requires
                a == n * q + r,
        ;
        vstd::arithmetic::div_mod::lemma_fundamental_div_mod_converse(-a, n, -q - 1, n - r);
    }
}

impl McpTransport {
    pub open spec fn index(self) -> int {
        match self {
            McpTransport::Stdio => 0,
            McpTransport::Http => 1,
        }
    }

    pub open spec fn at(i: int) -> McpTransport {
        if i == 0 {
            McpTransport::Stdio
        } else {
            McpTransport::Http
        }
    }

    /// Label of the transport selector.
    pub fn label(self) -> (s: &'static str)
        ensures
            s@ == (match self {
                McpTransport::Stdio => "Local (stdio)"@,
                McpTransport::Http => "Remote (HTTP)"@,
            }),
    {
        match self {
            McpTransport::Stdio => "Local (stdio)",
            McpTransport::Http => "Remote (HTTP)",
        }
    }

    /// The transport `delta` steps further, in a circle.
    pub fn cycle(self, delta: i32) -> (r: Self)
        requires
            delta < i32::MAX,
        ensures
            r == McpTransport::at((self.index() + delta) % 2),
    {
        let pos: i32 = match self {
            McpTransport::Stdio => 0,
            McpTransport::Http => 1,
        };
        if wrap_index(pos + delta, 2) == 0 {
            McpTransport::Stdio
        } else {
            McpTransport::Http
        }
    }
}

impl McpAuthKind {
    pub open spec fn index(self) -> int {
        match self {
            McpAuthKind::Anonymous => 0,
            McpAuthKind::Bearer => 1,
            McpAuthKind::OAuth => 2,
        }
    }

    pub open spec fn at(i: int) -> McpAuthKind {
        if i == 0 {
            McpAuthKind::Anonymous
        } else if i == 1 {
            McpAuthKind::Bearer
        } else {
            McpAuthKind::OAuth
        }
    }

    /// Label of the authentication selector.
    pub fn label(self) -> (s: &'static str)
        ensures
            s@ == (match self {
                McpAuthKind::Anonymous => "None"@,
                McpAuthKind::Bearer => "Bearer token"@,
                McpAuthKind::OAuth => "OAuth account"@,
            }),
    {
        match self {
            McpAuthKind::Anonymous => "None",
            McpAuthKind::Bearer => "Bearer token",
            McpAuthKind::OAuth => "OAuth account",
        }
    }

    /// The authentication `delta` steps further, in a circle.
    pub fn cycle(self, delta: i32) -> (r: Self)
        requires
            delta <= i32::MAX - 2,
        ensures
            r == McpAuthKind::at((self.index() + delta) % 3),
    {
        let pos: i32 = match self {
            McpAuthKind::Anonymous => 0,
            McpAuthKind::Bearer => 1,
            McpAuthKind::OAuth => 2,
        };
        let i: usize = wrap_index(pos + delta, 3);
        if i == 0 {
            McpAuthKind::Anonymous
        } else if i == 1 {
            McpAuthKind::Bearer
        } else {
            McpAuthKind::OAuth
        }
    }
}

/// Tone and label of a status that the daemon reports; an unknown status is
/// neutral.
pub open spec fn status_shown(status: Seq<char>) -> (StatusTone, Seq<char>) {
    if status == "running"@ {
        (StatusTone::Good, "Running"@)
    } else if status == "stopped"@ {
        (StatusTone::Neutral, "Stopped"@)
    } else if status == "disabled"@ {
        (StatusTone::Neutral, "Disabled"@)
    } else if status == "needs_auth"@ {
        (StatusTone::Warn, "Sign in required"@)
    } else if status == "auth_expired"@ {
        (StatusTone::Warn, "Sign in expired"@)
    } else if status == "error"@ {
        (StatusTone::Error, "Error"@)
    } else {
        (StatusTone::Neutral, "Unknown"@)
    }
}

/// Tone and label of a status that the daemon reports.
pub fn status_display(status: &str) -> (r: (StatusTone, &'static str))
    ensures
        (r.0, r.1@) == status_shown(status@),
{
    if same(status, "running") {
        (StatusTone::Good, "Running")
    } else if same(status, "stopped") {
        (StatusTone::Neutral, "Stopped")
    } else if same(status, "disabled") {
        (StatusTone::Neutral, "Disabled")
    } else if same(status, "needs_auth") {
        (StatusTone::Warn, "Sign in required")
    } else if same(status, "auth_expired") {
        (StatusTone::Warn, "Sign in expired")
    } else if same(status, "error") {
        (StatusTone::Error, "Error")
    } else {
        (StatusTone::Neutral, "Unknown")
    }
}

pub open spec fn chip(transport: Seq<char>) -> Seq<char> {
    if transport == "http"@ {
        "remote"@
    } else {
        "local"@
    }
}

/// The transport chip: `remote` for HTTP, `local` for anything else.
pub fn transport_chip(transport: &str) -> (r: &'static str)
    ensures
        r@ == chip(transport@),
{
    if same(transport, "http") {
        "remote"
    } else {
        "local"
    }
}

/// The index of the first `c` in `s`; the length of `s` where there is none.
pub open spec fn first_index(s: Seq<char>, c: char) -> int
    decreases s.len(),
{
    if s.len() == 0 || s[0] == c {
        0
    } else {
        1 + first_index(s.skip(1), c)
    }
}

/// The pair that a line of the environment box stands for: `KEY=value`, both
/// trimmed, the value being all behind the first equals sign. A line without
/// an equals sign or without a key stands for none.
pub open spec fn env_entry(line: Seq<char>) -> Option<(Seq<char>, Seq<char>)> {
    let l = trimmed(line);
    let at = first_index(l, '=');
    if at >= l.len() {
        None
    } else {
        let key = trimmed(l.take(at));
        if key.len() == 0 {
            None
        } else {
            Some((key, trimmed(l.skip(at + 1))))
        }
    }
}

/// The pairs of several lines, in order.
pub open spec fn env_entries(lines: Seq<Seq<char>>) -> Seq<(Seq<char>, Seq<char>)>
    decreases lines.len(),
{
    if lines.len() == 0 {
        Seq::<(Seq<char>, Seq<char>)>::empty()
    } else {
        let before = env_entries(lines.take(lines.len() - 1));
        match env_entry(lines[lines.len() - 1]) {
            Some(entry) => before.push(entry),
            None => before,
        }
    }
}

/// The pairs of an environment box.
pub open spec fn env_pairs(text: Seq<char>) -> Seq<(Seq<char>, Seq<char>)> {
    env_entries(pieces(text, Separator::Char('\n')))
}

pub proof fn lemma_first_index(s: Seq<char>, c: char, i: int)
    requires
        0 <= i <= s.len(),
        i < s.len() ==> s[i] == c,
        forall|j: int| 0 <= j < i ==> s[j] != c,
    ensures
        first_index(s, c) == i,
    decreases i,
{
    if i > 0 {
        assert(s.skip(1)[i - 1] == s[i] || i == s.len());
        lemma_first_index(s.skip(1), c, i - 1);
    }
}

fn parse_env_line(line: &str) -> (entry: Option<(String, String)>)
    ensures
        match entry {
            Some((k, v)) => env_entry(line@) == Some((k@, v@)),
            None => env_entry(line@) is None,
        },
{
    let l = trim(line);
    let chars = chars_of(l.as_str());
    let mut i: usize = 0;
    while i < chars.len() && chars[i] != '='
        invariant
            i <= chars@.len(),
            forall|j: int| 0 <= j < i ==> chars@[j] != '=',
        decreases chars@.len() - i,
    {
        i += 1;
    }
    proof {
        lemma_first_index(chars@, '=', i as int);
    }
    if i >= chars.len() {
        return None;
    }
    let key = trim(string_from(&chars, 0, i).as_str());
    if key.as_str().is_empty() {
        assert(chars@.subrange(0, i as int) =~= chars@.take(i as int));
        return None;
    }
    let value = trim(string_from(&chars, i + 1, chars.len()).as_str());
    assert(chars@.subrange(0, i as int) =~= chars@.take(i as int));
    assert(chars@.subrange(i + 1, chars@.len() as int) =~= chars@.skip(i + 1));
    Some((key, value))
}

/// Reads an environment box into ordered pairs; malformed lines are dropped.
pub fn parse_env(text: &str) -> (pairs: Vec<(String, String)>)
    ensures
        pair_texts(pairs@) == env_pairs(text@),
{
    let lines = split(text, Separator::Char('\n'));
    let ghost all = texts(lines@);
    let mut pairs: Vec<(String, String)> = Vec::new();
    let mut i: usize = 0;
    assert(pair_texts(pairs@) =~= env_entries(all.take(0)));
    while i < lines.len()
        invariant
            all == texts(lines@),
            i <= lines@.len(),
            pair_texts(pairs@) == env_entries(all.take(i as int)),
        decreases lines@.len() - i,
    {
        let ghost t = all.take(i + 1);
        assert(t.take(t.len() - 1) =~= all.take(i as int));
        let ghost pairs0 = pairs@;
        match parse_env_line(lines[i].as_str()) {
            Some(entry) => {
                pairs.push(entry);
                assert(pair_texts(pairs@) =~= pair_texts(pairs0).push((entry.0@, entry.1@)));
            },
            None => {},
        }
        i += 1;
    }
    assert(all.take(all.len() as int) =~= all);
    pairs
}

/// The words of a text: what stands between white space.
pub open spec fn words(s: Seq<char>) -> Seq<Seq<char>> {
    nonempty(pieces(s, Separator::Space))
}

/// Splits an argument line into its words.
pub fn split_args(text: &str) -> (args: Vec<String>)
    ensures
        texts(args@) == words(text@),
{
    keep_nonempty(&split(text, Separator::Space))
}

/// The scopes of a scopes line: between commas and white space.
pub open spec fn scopes_of(s: Seq<char>) -> Seq<Seq<char>> {
    nonempty(pieces(s, Separator::List))
}

/// Splits a scopes line at commas and white space.
pub fn split_scopes(text: &str) -> (scopes: Vec<String>)
    ensures
        texts(scopes@) == scopes_of(text@),
{
    keep_nonempty(&split(text, Separator::List))
}

/// The scopes of a line are its maximal runs of characters that are neither a comma
/// nor white space.
pub proof fn law_scopes_are_runs(s: Seq<char>)
    ensures
        scopes_of(s) == runs(s, Separator::List),
        forall|i: int|
            0 <= i < scopes_of(s).len() ==> (#[trigger] scopes_of(s)[i]).len() > 0 && forall|j: int|
                0 <= j < scopes_of(s)[i].len() ==> (#[trigger] scopes_of(s)[i][j]) != ','
                    && !is_space(scopes_of(s)[i][j]),
{
    law_nonempty_pieces_are_runs(s, Separator::List);
}

/// The secret under which the bearer token of a server is stored.
pub fn bearer_secret_ref(name: &str) -> (r: String)
    ensures
        r@ == name@ + "_token"@,
{
    cat2(name, "_token")
}

/// `s` with every control character replaced by a space.
pub open spec fn sanitized(s: Seq<char>) -> Seq<char> {
    Seq::new(
        s.len(),
        |i: int|
            if is_control(s[i]) {
                ' '
            } else {
                s[i]
            },
    )
}

/// Replaces control characters by spaces, so that text from the daemon cannot
/// drive the terminal.
pub fn sanitize(s: &str) -> (r: String)
    ensures
        r@ == sanitized(s@),
{
    let v = chars_of(s);
    let mut r = String::new();
    let mut i: usize = 0;
    while i < v.len()
        invariant
            v@ == s@,
            i <= v@.len(),
            r@ == sanitized(v@).take(i as int),
        decreases v@.len() - i,
    {
        let c: char = if is_control_char(v[i]) {
            ' '
        } else {
            v[i]
        };
        assert(sanitized(v@).take(i + 1) =~= sanitized(v@).take(i as int).push(c));
        r.push(c);
        i += 1;
    }
    assert(sanitized(v@).take(v@.len() as int) =~= sanitized(v@));
    r
}

/// No control character survives `sanitize`.
pub proof fn law_sanitized_text_is_plain(s: Seq<char>, i: int)
    requires
        0 <= i < s.len(),
    ensures
        !is_control(sanitized(s)[i]),
        !is_control(s[i]) ==> sanitized(s)[i] == s[i],
{
}

/// A character of a server name.
pub open spec fn is_name_char(c: char) -> bool {
    'a' <= c <= 'z' || 'A' <= c <= 'Z' || '0' <= c <= '9' || c == '-' || c == '_'
}

/// Why a name cannot be given to a new server.
pub open spec fn name_error(name: Seq<char>) -> Option<Seq<char>> {
    if name.len() == 0 {
        Some("Server name is required."@)
    } else if exists|i: int| 0 <= i < name.len() && !is_name_char(#[trigger] name[i]) {
        Some("Name may only contain letters, digits, '-', and '_'."@)
    } else {
        None
    }
}

pub open spec fn result_error(r: Result<(), String>) -> Option<Seq<char>> {
    match r {
        Ok(_) => None,
        Err(e) => Some(e@),
    }
}

/// Checks the name of a new server: letters, digits, `-` and `_`.
pub fn validate_name(name: &str) -> (r: Result<(), String>)
    ensures
        result_error(r) == name_error(name@),
{
    let v = chars_of(name);
    if v.len() == 0 {
        return Err("Server name is required.".to_owned());
    }
    let mut i: usize = 0;
    while i < v.len()
        invariant
            v@ == name@,
            v@.len() > 0,
            i <= v@.len(),
            forall|j: int| 0 <= j < i ==> is_name_char(#[trigger] name@[j]),
        decreases v@.len() - i,
    {
        let c = v[i];
        if !(('a' <= c && c <= 'z') || ('A' <= c && c <= 'Z') || ('0' <= c && c <= '9') || c == '-'
            || c == '_') {
            assert(!is_name_char(name@[i as int]));
            return Err("Name may only contain letters, digits, '-', and '_'.".to_owned());
        }
        i += 1;
    }
    Ok(())
}

/// `s` trimmed, where anything is left.
pub open spec fn given(s: Seq<char>) -> Option<Seq<char>> {
    if trimmed(s).len() == 0 {
        None
    } else {
        Some(trimmed(s))
    }
}

/// Trims `s`; nothing where nothing is left.
pub fn opt(s: &str) -> (r: Option<String>)
    ensures
        opt_text(r) == given(s@),
{
    let t = trim(s);
    if t.as_str().is_empty() {
        None
    } else {
        Some(t)
    }
}

/// `a` stands before `b` in the order of their characters.
pub open spec fn text_before(a: Seq<char>, b: Seq<char>) -> bool
    decreases a.len(),
{
    if b.len() == 0 {
        false
    } else if a.len() == 0 {
        true
    } else if a[0] != b[0] {
        a[0] < b[0]
    } else {
        text_before(a.skip(1), b.skip(1))
    }
}

/// `entries` with `value` under `key`: in place of the value that stood there,
/// else behind the last entry whose key stands before `key`.
pub open spec fn put(
    entries: Seq<(Seq<char>, Seq<char>)>,
    key: Seq<char>,
    value: Seq<char>,
) -> Seq<(Seq<char>, Seq<char>)>
    decreases entries.len(),
{
    if entries.len() == 0 {
        seq![(key, value)]
    } else {
        let last = entries[entries.len() - 1];
        let front = entries.take(entries.len() - 1);
        if last.0 == key {
            front.push((key, value))
        } else if text_before(last.0, key) {
            entries.push((key, value))
        } else {
            put(front, key, value).push(last)
        }
    }
}

/// Pairs as a table in the order of their keys, where a later pair takes the
/// place of an earlier one with the same key.
pub open spec fn table(pairs: Seq<(Seq<char>, Seq<char>)>) -> Seq<(Seq<char>, Seq<char>)>
    decreases pairs.len(),
{
    if pairs.len() == 0 {
        Seq::<(Seq<char>, Seq<char>)>::empty()
    } else {
        let last = pairs[pairs.len() - 1];
        put(table(pairs.take(pairs.len() - 1)), last.0, last.1)
    }
}

fn stands_before(a: &str, b: &str) -> (r: bool)
    ensures
        r == text_before(a@, b@),
{
    let x = chars_of(a);
    let y = chars_of(b);
    let mut i: usize = 0;
    assert(x@.skip(0) =~= x@);
    assert(y@.skip(0) =~= y@);
    while i < x.len() && i < y.len() && x[i] == y[i]
        invariant
            x@ == a@,
            y@ == b@,
            i <= x@.len(),
            i <= y@.len(),
            text_before(a@, b@) == text_before(x@.skip(i as int), y@.skip(i as int)),
        decreases x@.len() - i,
    {
        assert(x@.skip(i as int).skip(1) =~= x@.skip(i + 1));
        assert(y@.skip(i as int).skip(1) =~= y@.skip(i + 1));
        i += 1;
    }
    if i >= y.len() {
        false
    } else if i >= x.len() {
        true
    } else {
        x[i] < y[i]
    }
}

proof fn lemma_put_at(entries: Seq<(Seq<char>, Seq<char>)>, key: Seq<char>, value: Seq<char>, j: int)
    requires
        0 <= j <= entries.len(),
        forall|i: int|
            j <= i < entries.len() ==> (#[trigger] entries[i]).0 != key && !text_before(
                entries[i].0,
                key,
            ),
        j > 0 ==> entries[j - 1].0 == key || text_before(entries[j - 1].0, key),
    ensures
        put(entries, key, value) == (if j > 0 && entries[j - 1].0 == key {
            entries.update(j - 1, (key, value))
        } else {
            entries.insert(j, (key, value))
        }),
    decreases entries.len(),
{
    let n = entries.len() as int;
    if n > j {
        let front = entries.take(n - 1);
        lemma_put_at(front, key, value, j);
        let last = entries[n - 1];
        if j > 0 && entries[j - 1].0 == key {
            assert(front.update(j - 1, (key, value)).push(last) =~= entries.update(
                j - 1,
                (key, value),
            ));
        } else {
            assert(front.insert(j, (key, value)).push(last) =~= entries.insert(j, (key, value)));
        }
    } else if n > 0 {
        let front = entries.take(n - 1);
        if entries[n - 1].0 == key {
            assert(front.push((key, value)) =~= entries.update(n - 1, (key, value)));
        } else {
            assert(entries.push((key, value)) =~= entries.insert(n, (key, value)));
        }
    } else {
        assert(entries.insert(0, (key, value)) =~= seq![(key, value)]);
    }
}

fn put_entry(entries: &mut Vec<(String, String)>, key: String, value: String)
    ensures
        pair_texts(final(entries)@) == put(pair_texts(old(entries)@), key@, value@),
{
    let ghost view = pair_texts(entries@);
    let mut j: usize = entries.len();
    while j > 0 && !same(entries[j - 1].0.as_str(), key.as_str()) && !stands_before(
        entries[j - 1].0.as_str(),
        key.as_str(),
    )
        invariant
            view == pair_texts(entries@),
            entries@ == old(entries)@,
            j <= entries@.len(),
            forall|i: int|
                j <= i < view.len() ==> (#[trigger] view[i]).0 != key@ && !text_before(
                    view[i].0,
                    key@,
                ),
        decreases j,
    {
        assert(view[j - 1].0 == entries@[j - 1].0@);
        j -= 1;
    }
    assert(j > 0 ==> view[j - 1].0 == entries@[j - 1].0@);
    proof {
        lemma_put_at(view, key@, value@, j as int);
    }
    let ghost pair = (key@, value@);
    if j > 0 && same(entries[j - 1].0.as_str(), key.as_str()) {
        entries.set(j - 1, (key, value));
        assert(pair_texts(entries@) =~= view.update(j - 1, pair));
    } else {
        entries.insert(j, (key, value));
        assert(pair_texts(entries@) =~= view.insert(j as int, pair));
    }
}

fn table_of(pairs: Vec<(String, String)>) -> (entries: Vec<(String, String)>)
    ensures
        pair_texts(entries@) == table(pair_texts(pairs@)),
{
    let ghost all = pair_texts(pairs@);
    let mut entries: Vec<(String, String)> = Vec::new();
    let mut i: usize = 0;
    assert(pair_texts(entries@) =~= table(all.take(0)));
    while i < pairs.len()
        invariant
            all == pair_texts(pairs@),
            i <= pairs@.len(),
            pair_texts(entries@) == table(all.take(i as int)),
        decreases pairs@.len() - i,
    {
        let ghost t = all.take(i + 1);
        assert(t.take(t.len() - 1) =~= all.take(i as int));
        put_entry(&mut entries, pairs[i].0.clone(), pairs[i].1.clone());
        i += 1;
    }
    assert(all.take(all.len() as int) =~= all);
    entries
}

/// A server as the daemon reports it.
pub struct McpServerView {
    pub name: String,
    pub command: String,
    pub args: Vec<String>,
    pub namespace: Option<String>,
    pub enabled: bool,
    pub status: String,
    pub tool_count: u32,
    pub transport: String,
    pub target: String,
    pub detail: Option<String>,
    pub auth_kind: Option<String>,
    pub oauth_account_ref: Option<String>,
    pub oauth_scopes: Vec<String>,
    pub oauth_authorized: Option<bool>,
    pub configure_command: Vec<String>,
}

impl Default for McpServerView {
    fn default() -> (v: Self)
        ensures
            v.name@.len() == 0,
            v.command@.len() == 0,
            v.args@.len() == 0,
            v.namespace is None,
            !v.enabled,
            v.status@.len() == 0,
            v.tool_count == 0,
            v.transport@.len() == 0,
            v.target@.len() == 0,
            v.detail is None,
            v.auth_kind is None,
            v.oauth_account_ref is None,
            v.oauth_scopes@.len() == 0,
            v.oauth_authorized is None,
            v.configure_command@.len() == 0,
    {
        McpServerView {
            name: String::new(),
            command: String::new(),
            args: Vec::new(),
            namespace: None,
            enabled: false,
            status: String::new(),
            tool_count: 0,
            transport: String::new(),
            target: String::new(),
            detail: None,
            auth_kind: None,
            oauth_account_ref: None,
            oauth_scopes: Vec::new(),
            oauth_authorized: None,
            configure_command: Vec::new(),
        }
    }
}

/// The add/edit form as plain text.
#[derive(Debug, PartialEq, Eq)]
pub struct McpForm {
    /// An existing server is edited: its name is fixed.
    pub editing: bool,
    pub transport: McpTransport,
    pub name: String,
    pub enabled: bool,
    pub command: String,
    /// Arguments between white space.
    pub args: String,
    pub namespace: String,
    /// Lines of `KEY=value`.
    pub env: String,
    pub url: String,
    pub auth: McpAuthKind,
    /// Write-only: never filled from a view.
    pub bearer_token: String,
    pub oauth_account: String,
    /// Scopes between commas or white space.
    pub scopes: String,
}

/// What an upsert of a server sends.
#[derive(Debug, PartialEq, Eq)]
pub struct BuiltMcpServer {
    pub editing: bool,
    pub name: String,
    /// The configuration as JSON text.
    pub config_json: String,
    /// Secret name and value to store before the upsert.
    pub secret: Option<(String, String)>,
}

pub open spec fn secret_texts(s: Option<(String, String)>) -> Option<(Seq<char>, Seq<char>)> {
    match s {
        Some((k, v)) => Some((k@, v@)),
        None => None,
    }
}

pub open spec fn bool_text(b: bool) -> Seq<char> {
    if b {
        "true"@
    } else {
        "false"@
    }
}

/// Every value of a table as a JSON string.
pub open spec fn string_values(entries: Seq<(Seq<char>, Seq<char>)>) -> Seq<(
    Seq<char>,
    Seq<char>,
)> {
    Seq::new(entries.len(), |i: int| (entries[i].0, json_string(entries[i].1)))
}

/// One member where `present`, else none.
pub open spec fn member_if(present: bool, key: Seq<char>, value: Seq<char>) -> Seq<(
    Seq<char>,
    Seq<char>,
)> {
    if present {
        seq![(key, value)]
    } else {
        Seq::<(Seq<char>, Seq<char>)>::empty()
    }
}

impl McpForm {
    /// The name of the server that the form describes.
    pub open spec fn target_name(self) -> Seq<char> {
        trimmed(self.name@)
    }

    /// Why the form cannot be saved: its name, where it is new; then the
    /// command, the address or the account that its kind of server needs.
    pub open spec fn error(self) -> Option<Seq<char>> {
        if !self.editing && name_error(self.target_name()) is Some {
            name_error(self.target_name())
        } else if self.transport == McpTransport::Stdio {
            if given(self.command@) is None {
                Some("Command is required for a local (stdio) server."@)
            } else {
                None
            }
        } else if given(self.url@) is None {
            Some("URL is required for a remote (HTTP) server."@)
        } else if self.auth == McpAuthKind::OAuth && given(self.oauth_account@) is None {
            Some("Choose a service account for OAuth authentication."@)
        } else {
            None
        }
    }

    /// The environment of the server, as a table.
    pub open spec fn env_table(self) -> Seq<(Seq<char>, Seq<char>)> {
        table(env_pairs(self.env@))
    }

    /// The members of the configuration that describe a remote endpoint.
    pub open spec fn http_members(self) -> Seq<(Seq<char>, Seq<char>)> {
        let scopes = scopes_of(self.scopes@);
        let oauth = self.auth == McpAuthKind::OAuth;
        seq![("url"@, json_string(trimmed(self.url@)))] + member_if(
            self.auth == McpAuthKind::Bearer,
            "auth_bearer_secret"@,
            json_string(self.target_name() + "_token"@),
        ) + member_if(oauth, "oauth_account"@, json_string(trimmed(self.oauth_account@)))
            + member_if(oauth && scopes.len() > 0, "scopes"@, json_array(scopes))
    }

    /// The members of the configuration, those that are empty left out.
    pub open spec fn members(self) -> Seq<(Seq<char>, Seq<char>)> {
        let head = seq![
            ("name"@, json_string(self.target_name())),
            ("enabled"@, bool_text(self.enabled)),
        ];
        match self.transport {
            McpTransport::Stdio => {
                let args = words(self.args@);
                let namespace = given(self.namespace@);
                let env = self.env_table();
                head + seq![("command"@, json_string(trimmed(self.command@)))] + member_if(
                    args.len() > 0,
                    "args"@,
                    json_array(args),
                ) + member_if(namespace is Some, "namespace"@, json_string(namespace->0))
                    + member_if(env.len() > 0, "env"@, json_object(string_values(env)))
            },
            McpTransport::Http => head + seq![("http"@, json_object(self.http_members()))],
        }
    }

    /// The configuration that the daemon is sent.
    pub open spec fn config(self) -> Seq<char> {
        json_object(self.members())
    }

    /// The secret that is stored first: a bearer token, where one was typed.
    pub open spec fn secret(self) -> Option<(Seq<char>, Seq<char>)> {
        if self.transport == McpTransport::Http && self.auth == McpAuthKind::Bearer && given(
            self.bearer_token@,
        ) is Some {
            Some((self.target_name() + "_token"@, trimmed(self.bearer_token@)))
        } else {
            None
        }
    }

    /// An empty form for a new server.
    pub fn blank(transport: McpTransport) -> (f: Self)
        ensures
            !f.editing,
            f.transport == transport,
            f.enabled,
            f.auth == McpAuthKind::Anonymous,
            f.name@.len() == 0,
            f.command@.len() == 0,
            f.args@.len() == 0,
            f.namespace@.len() == 0,
            f.env@.len() == 0,
            f.url@.len() == 0,
            f.bearer_token@.len() == 0,
            f.oauth_account@.len() == 0,
            f.scopes@.len() == 0,
    {
        McpForm {
            editing: false,
            transport,
            name: String::new(),
            enabled: true,
            command: String::new(),
            args: String::new(),
            namespace: String::new(),
            env: String::new(),
            url: String::new(),
            auth: McpAuthKind::Anonymous,
            bearer_token: String::new(),
            oauth_account: String::new(),
            scopes: String::new(),
        }
    }

    /// The form of an existing server, filled with what its view carries. The
    /// bearer token and the environment are never filled in.
    pub fn from_view(view: &McpServerView) -> (f: Self)
        ensures
            f.editing,
            f.transport == (if view.transport@ == "http"@ {
                McpTransport::Http
            } else {
                McpTransport::Stdio
            }),
            f.name@ == view.name@,
            f.enabled == view.enabled,
            f.command@ == view.command@,
            f.args@ == joined(texts(view.args@), " "@),
            f.namespace@ == text_or_empty(view.namespace),
            f.env@.len() == 0,
            f.url@ == (if view.transport@ == "http"@ {
                view.target@
            } else {
                Seq::<char>::empty()
            }),
            f.auth == (if opt_text(view.auth_kind) == Some("bearer"@) {
                McpAuthKind::Bearer
            } else if opt_text(view.auth_kind) == Some("oauth"@) {
                McpAuthKind::OAuth
            } else {
                McpAuthKind::Anonymous
            }),
            f.bearer_token@.len() == 0,
            f.oauth_account@ == text_or_empty(view.oauth_account_ref),
            f.scopes@ == joined(texts(view.oauth_scopes@), " "@),
    {
        let http: bool = same(view.transport.as_str(), "http");
        let auth = match &view.auth_kind {
            Some(kind) => {
                if same(kind.as_str(), "bearer") {
                    McpAuthKind::Bearer
                } else if same(kind.as_str(), "oauth") {
                    McpAuthKind::OAuth
                } else {
                    McpAuthKind::Anonymous
                }
            },
            None => McpAuthKind::Anonymous,
        };
        McpForm {
            editing: true,
            transport: if http {
                McpTransport::Http
            } else {
                McpTransport::Stdio
            },
            name: view.name.clone(),
            enabled: view.enabled,
            command: view.command.clone(),
            args: join(&view.args, " "),
            namespace: or_empty(&view.namespace),
            env: String::new(),
            url: if http {
                view.target.clone()
            } else {
                String::new()
            },
            auth,
            bearer_token: String::new(),
            oauth_account: or_empty(&view.oauth_account_ref),
            scopes: join(&view.oauth_scopes, " "),
        }
    }

    fn stdio_config(&self, head: Vec<(String, String)>) -> (r: String)
        requires
            self.transport == McpTransport::Stdio,
            pair_texts(head@) == seq![
                ("name"@, json_string(self.target_name())),
                ("enabled"@, bool_text(self.enabled)),
            ],
        ensures
            r@ == self.config(),
    {
        let mut members = head;
        push_member(&mut members, "command", string_value(trim(self.command.as_str()).as_str()));
        let args = split_args(self.args.as_str());
        assert(texts(args@).len() == args@.len());
        if args.len() > 0 {
            push_member(&mut members, "args", array_of(&args));
        }
        match opt(self.namespace.as_str()) {
            Some(namespace) => {
                push_member(&mut members, "namespace", string_value(namespace.as_str()));
            },
            None => {},
        }
        let env = table_of(parse_env(self.env.as_str()));
        assert(pair_texts(env@).len() == env@.len());
        if env.len() > 0 {
            let values = values_of(&env);
            push_member(&mut members, "env", object_of(&values));
        }
        assert(pair_texts(members@) =~= self.members());
        object_of(&members)
    }

    fn http_config(&self, head: Vec<(String, String)>) -> (r: String)
        requires
            self.transport == McpTransport::Http,
            pair_texts(head@) == seq![
                ("name"@, json_string(self.target_name())),
                ("enabled"@, bool_text(self.enabled)),
            ],
        ensures
            r@ == self.config(),
    {
        let mut http: Vec<(String, String)> = Vec::new();
        push_member(&mut http, "url", string_value(trim(self.url.as_str()).as_str()));
        match self.auth {
            McpAuthKind::Anonymous => {},
            McpAuthKind::Bearer => {
                let name = trim(self.name.as_str());
                let secret_ref = bearer_secret_ref(name.as_str());
                push_member(&mut http, "auth_bearer_secret", string_value(secret_ref.as_str()));
            },
            McpAuthKind::OAuth => {
                let account = trim(self.oauth_account.as_str());
                push_member(&mut http, "oauth_account", string_value(account.as_str()));
                let scopes = split_scopes(self.scopes.as_str());
                assert(texts(scopes@).len() == scopes@.len());
                if scopes.len() > 0 {
                    push_member(&mut http, "scopes", array_of(&scopes));
                }
            },
        }
        assert(pair_texts(http@) =~= self.http_members());
        let mut members = head;
        push_member(&mut members, "http", object_of(&http));
        assert(pair_texts(members@) =~= self.members());
        object_of(&members)
    }

    /// Checks the form and assembles what is sent: the name, the configuration
    /// and the secret that is stored first.
    pub fn build(&self) -> (r: Result<BuiltMcpServer, String>)
        ensures
            match r {
                Ok(b) => {
                    &&& self.error() is None
                    &&& b.editing == self.editing
                    &&& b.name@ == self.target_name()
                    &&& b.config_json@ == self.config()
                    &&& secret_texts(b.secret) == self.secret()
                },
                Err(e) => self.error() == Some(e@),
            },
    {
        let name = trim(self.name.as_str());
        if !self.editing {
            match validate_name(name.as_str()) {
                Ok(_) => {},
                Err(e) => {
                    return Err(e);
                },
            }
        }
        let mut head: Vec<(String, String)> = Vec::new();
        push_member(&mut head, "name", string_value(name.as_str()));
        push_member(&mut head, "enabled", (if self.enabled {
            "true"
        } else {
            "false"
        }).to_owned());
        assert(pair_texts(head@) =~= seq![
            ("name"@, json_string(self.target_name())),
            ("enabled"@, bool_text(self.enabled)),
        ]);
        match self.transport {
            McpTransport::Stdio => {
                if opt(self.command.as_str()).is_none() {
                    return Err("Command is required for a local (stdio) server.".to_owned());
                }
                let config_json = self.stdio_config(head);
                Ok(BuiltMcpServer { editing: self.editing, name, config_json, secret: None })
            },
            McpTransport::Http => {
                if opt(self.url.as_str()).is_none() {
                    return Err("URL is required for a remote (HTTP) server.".to_owned());
                }
                let secret = match self.auth {
                    McpAuthKind::Anonymous => None,
                    McpAuthKind::Bearer => match opt(self.bearer_token.as_str()) {
                        Some(token) => Some((bearer_secret_ref(name.as_str()), token)),
                        None => None,
                    },
                    McpAuthKind::OAuth => {
                        if opt(self.oauth_account.as_str()).is_none() {
                            return Err(
                                "Choose a service account for OAuth authentication.".to_owned(),
                            );
                        }
                        None
                    },
                };
                let config_json = self.http_config(head);
                Ok(BuiltMcpServer { editing: self.editing, name, config_json, secret })
            },
        }
    }
}

pub open spec fn text_or_empty(o: Option<String>) -> Seq<char> {
    match o {
        Some(s) => s@,
        None => Seq::<char>::empty(),
    }
}

fn or_empty(o: &Option<String>) -> (s: String)
    ensures
        s@ == text_or_empty(*o),
{
    match o {
        Some(s) => s.clone(),
        None => String::new(),
    }
}

fn push_member(members: &mut Vec<(String, String)>, key: &str, value: String)
    ensures
        pair_texts(final(members)@) == pair_texts(old(members)@).push((key@, value@)),
{
    let ghost pair = (key@, value@);
    members.push((key.to_owned(), value));
    assert(pair_texts(members@) =~= pair_texts(old(members)@).push(pair));
}

fn values_of(entries: &Vec<(String, String)>) -> (r: Vec<(String, String)>)
    ensures
        pair_texts(r@) == string_values(pair_texts(entries@)),
{
    let mut r: Vec<(String, String)> = Vec::new();
    let mut i: usize = 0;
    while i < entries.len()
        invariant
            i <= entries@.len(),
            r@.len() == i,
            forall|j: int|
                0 <= j < i ==> (#[trigger] r@[j]).0@ == entries@[j].0@ && r@[j].1@ == json_string(
                    entries@[j].1@,
                ),
        decreases entries@.len() - i,
    {
        r.push((entries[i].0.clone(), string_value(entries[i].1.as_str())));
        i += 1;
    }
    assert(pair_texts(r@) =~= string_values(pair_texts(entries@)));
    r
}

proof fn lemma_before_total(a: Seq<char>, b: Seq<char>)
    ensures
        a == b || text_before(a, b) || text_before(b, a),
        !text_before(a, a),
        !(text_before(a, b) && text_before(b, a)),
    decreases a.len(),
{
    if a.len() == 0 {
        assert(b.len() == 0 ==> a =~= b);
    } else if b.len() > 0 && a[0] == b[0] {
        lemma_before_total(a.skip(1), b.skip(1));
        assert(a =~= seq![a[0]] + a.skip(1));
        assert(b =~= seq![b[0]] + b.skip(1));
    }
    if a.len() > 0 {
        lemma_before_irreflexive(a.skip(1));
    }
}

proof fn lemma_before_irreflexive(a: Seq<char>)
    ensures
        !text_before(a, a),
    decreases a.len(),
{
    if a.len() > 0 {
        lemma_before_irreflexive(a.skip(1));
    }
}

proof fn lemma_before_transitive(a: Seq<char>, b: Seq<char>, c: Seq<char>)
    requires
        text_before(a, b),
        text_before(b, c),
    ensures
        text_before(a, c),
    decreases a.len(),
{
    if a.len() > 0 && a[0] == b[0] && b[0] == c[0] {
        lemma_before_transitive(a.skip(1), b.skip(1), c.skip(1));
    }
}

/// The keys of a table stand in order, none of them twice.
pub open spec fn in_key_order(entries: Seq<(Seq<char>, Seq<char>)>) -> bool {
    forall|i: int, j: int|
        0 <= i < j < entries.len() ==> text_before(
            (#[trigger] entries[i]).0,
            (#[trigger] entries[j]).0,
        )
}

proof fn lemma_put_keeps_order(
    entries: Seq<(Seq<char>, Seq<char>)>,
    key: Seq<char>,
    value: Seq<char>,
)
    requires
        in_key_order(entries),
    ensures
        in_key_order(put(entries, key, value)),
        forall|i: int|
            0 <= i < put(entries, key, value).len() ==> (#[trigger] put(entries, key, value)[i]).0
                == key || exists|j: int|
                0 <= j < entries.len() && entries[j].0 == put(entries, key, value)[i].0,
    decreases entries.len(),
{
    if entries.len() > 0 {
        let n = entries.len() as int;
        let last = entries[n - 1];
        let front = entries.take(n - 1);
        let new = put(entries, key, value);
        assert(in_key_order(front));
        if last.0 == key {
            assert forall|i: int| 0 <= i < new.len() implies (#[trigger] new[i]).0 == key || exists|
                j: int,
            | 0 <= j < entries.len() && entries[j].0 == new[i].0 by {
                if i < n - 1 {
                    assert(entries[i].0 == new[i].0);
                }
            }
        } else if text_before(last.0, key) {
            assert forall|i: int, j: int| 0 <= i < j < new.len() implies text_before(
                (#[trigger] new[i]).0,
                (#[trigger] new[j]).0,
            ) by {
                if j == n && i < n - 1 {
                    lemma_before_transitive(entries[i].0, last.0, key);
                }
            }
            assert forall|i: int| 0 <= i < new.len() implies (#[trigger] new[i]).0 == key || exists|
                j: int,
            | 0 <= j < entries.len() && entries[j].0 == new[i].0 by {
                if i < n {
                    assert(entries[i].0 == new[i].0);
                }
            }
        } else {
            lemma_put_keeps_order(front, key, value);
            lemma_before_total(last.0, key);
            let inner = put(front, key, value);
            assert forall|i: int, j: int| 0 <= i < j < new.len() implies text_before(
                (#[trigger] new[i]).0,
                (#[trigger] new[j]).0,
            ) by {
                if j == new.len() - 1 {
                    assert(new[i] == inner[i]);
                    if inner[i].0 != key {
                        let k = choose|k: int| 0 <= k < front.len() && front[k].0 == inner[i].0;
                        assert(entries[k] == front[k]);
                    }
                } else {
                    assert(new[i] == inner[i] && new[j] == inner[j]);
                }
            }
            assert forall|i: int| 0 <= i < new.len() implies (#[trigger] new[i]).0 == key || exists|
                j: int,
            | 0 <= j < entries.len() && entries[j].0 == new[i].0 by {
                if i < new.len() - 1 {
                    assert(new[i] == inner[i]);
                    if inner[i].0 != key {
                        let k = choose|k: int| 0 <= k < front.len() && front[k].0 == inner[i].0;
                        assert(entries[k].0 == new[i].0);
                    }
                } else {
                    assert(entries[n - 1].0 == new[i].0);
                }
            }
        }
    }
}

/// The environment is sent in the order of its keys, each key once, so the
/// same environment always gives the same configuration text.
pub proof fn law_table_is_in_key_order(pairs: Seq<(Seq<char>, Seq<char>)>)
    ensures
        in_key_order(table(pairs)),
    decreases pairs.len(),
{
    if pairs.len() > 0 {
        let front = pairs.take(pairs.len() - 1);
        law_table_is_in_key_order(front);
        let last = pairs[pairs.len() - 1];
        lemma_put_keeps_order(table(front), last.0, last.1);
    }
}

/// A blank bearer token stores no secret, yet the configuration still names
/// the server's token: a stored token is never wiped.
pub proof fn law_blank_token_keeps_the_stored_one(form: McpForm)
    requires
        form.transport == McpTransport::Http,
        form.auth == McpAuthKind::Bearer,
        given(form.bearer_token@) is None,
    ensures
        form.secret() is None,
        form.http_members().contains(
            ("auth_bearer_secret"@, json_string(form.target_name() + "_token"@)),
        ),
{
    let pair = ("auth_bearer_secret"@, json_string(form.target_name() + "_token"@));
    assert(form.http_members()[1] == pair);
}

/// Only a typed bearer token is ever stored, under the name that the
/// configuration refers to; no other text of the form is.
pub proof fn law_secret_is_the_typed_token(form: McpForm)
    ensures
        form.secret() matches Some((name, value)) ==> form.auth == McpAuthKind::Bearer && name
            == form.target_name() + "_token"@ && value == trimmed(form.bearer_token@)
            && value.len() > 0,
{
}

/// A running server is shown as good and a broken one as an error, one that waits for a
/// sign-in is a warning that says so, and everything else is neutral; what is not known
/// is said not to be.
pub proof fn law_status_is_told(status: Seq<char>)
    ensures
        status_shown(status).0 == StatusTone::Good <==> status == "running"@,
        status_shown(status).0 == StatusTone::Error <==> status == "error"@,
        status_shown(status).0 == StatusTone::Warn <==> status == "needs_auth"@ || status
            == "auth_expired"@,
        status == "running"@ ==> status_shown(status).1 == "Running"@,
        status == "stopped"@ ==> status_shown(status).1 == "Stopped"@,
        status == "disabled"@ ==> status_shown(status).1 == "Disabled"@,
        status == "needs_auth"@ ==> status_shown(status).1 == "Sign in required"@,
        status == "auth_expired"@ ==> status_shown(status).1 == "Sign in expired"@,
        status == "error"@ ==> status_shown(status).1 == "Error"@,
        status_shown(status).1 == "Unknown"@ <==> status != "running"@ && status != "stopped"@
            && status != "disabled"@ && status != "needs_auth"@ && status != "auth_expired"@
            && status != "error"@,
{
    reveal_strlit("running");
    reveal_strlit("stopped");
    reveal_strlit("disabled");
    reveal_strlit("needs_auth");
    reveal_strlit("auth_expired");
    reveal_strlit("error");
    reveal_strlit("Unknown");
    reveal_strlit("Running");
    reveal_strlit("Stopped");
    reveal_strlit("Disabled");
    reveal_strlit("Sign in required");
    reveal_strlit("Sign in expired");
    reveal_strlit("Error");
    assert("running"@.len() == 7 && "stopped"@.len() == 7 && "disabled"@.len() == 8);
    assert("needs_auth"@.len() == 10 && "auth_expired"@.len() == 12 && "error"@.len() == 5);
    assert("Unknown"@.len() == 7 && "Running"@.len() == 7 && "Stopped"@.len() == 7);
    assert("Disabled"@.len() == 8 && "Sign in required"@.len() == 16);
    assert("Sign in expired"@.len() == 15 && "Error"@.len() == 5);
    assert("running"@[0] == 'r' && "stopped"@[0] == 's');
    assert("Unknown"@[0] == 'U' && "Running"@[0] == 'R' && "Stopped"@[0] == 'S');
}

/// A server over HTTP is remote, every other one local.
pub proof fn law_only_http_is_remote(transport: Seq<char>)
    ensures
        chip(transport) == "remote"@ <==> transport == "http"@,
        chip(transport) == "local"@ <==> transport != "http"@,
{
    reveal_strlit("remote");
    reveal_strlit("local");
    assert("remote"@.len() == 6 && "local"@.len() == 5);
}

/// The selectors go round: every choice is reached, a step back undoes a step on, and
/// as many steps as there are choices change nothing.
pub proof fn law_selectors_go_round(transport: McpTransport, auth: McpAuthKind, delta: int)
    ensures
        McpTransport::at(transport.index()) == transport,
        McpTransport::at((McpTransport::at((transport.index() + 1) % 2).index() - 1) % 2)
            == transport,
        McpTransport::at((transport.index() + 2) % 2) == transport,
        McpTransport::at((transport.index() + 1) % 2) != transport,
        McpAuthKind::at(auth.index()) == auth,
        McpAuthKind::at((McpAuthKind::at((auth.index() + 1) % 3).index() - 1) % 3) == auth,
        McpAuthKind::at((auth.index() + 3) % 3) == auth,
        auth == McpAuthKind::Anonymous ==> McpAuthKind::at((auth.index() + 1) % 3)
            == McpAuthKind::Bearer,
        auth == McpAuthKind::Bearer ==> McpAuthKind::at((auth.index() + 1) % 3)
            == McpAuthKind::OAuth,
        auth == McpAuthKind::OAuth ==> McpAuthKind::at((auth.index() + 1) % 3)
            == McpAuthKind::Anonymous,
{
}

/// An index is wrapped by whole rounds: within the range it stays, a round more or less
/// changes nothing.
pub proof fn law_indices_wrap(i: int, len: int)
    requires
        len > 0,
    ensures
        0 <= wrapped_index(i, len) < len,
        0 <= i < len ==> wrapped_index(i, len) == i,
        wrapped_index(i + len, len) == wrapped_index(i, len),
        wrapped_index(-1, len) == len - 1,
{
    vstd::arithmetic::div_mod::lemma_mod_bound(i, len);
    vstd::arithmetic::div_mod::lemma_mod_add_multiples_vanish(i, len);
    vstd::arithmetic::div_mod::lemma_mod_add_multiples_vanish(-1, len);
    vstd::arithmetic::div_mod::lemma_small_mod((len - 1) as nat, len as nat);
    if 0 <= i < len {
        vstd::arithmetic::div_mod::lemma_small_mod(i as nat, len as nat);
    }
    assert(len + i == i + len);
    assert(len + (-1) == len - 1);
}

/// A line of the environment box gives back the name and the value that it was written
/// from, also where the value holds equals signs or is empty.
pub proof fn law_environment_line_is_read(key: Seq<char>, value: Seq<char>)
    requires
        key.len() > 0,
        trimmed(key) == key,
        trimmed(value) == value,
        forall|i: int| 0 <= i < key.len() ==> key[i] != '=',
    ensures
        env_entry(key + seq!['='] + value) == Some((key, value)),
{
    let line = key + seq!['='] + value;
    law_trimmed_has_no_outer_space(key);
    law_trimmed_has_no_outer_space(value);
    assert(line[0] == key[0]);
    assert(trimmed_start(line) == line);
    if value.len() > 0 {
        assert(line[line.len() - 1] == value[value.len() - 1]);
    } else {
        assert(line[line.len() - 1] == '=');
    }
    assert(trimmed(line) == line);
    lemma_first_index(line, '=', key.len() as int);
    assert(line.take(key.len() as int) =~= key);
    assert(line.skip(key.len() as int + 1) =~= value);
}

/// A line without an equals sign, or without a name before it, stands for nothing.
pub proof fn law_malformed_line_is_dropped(line: Seq<char>)
    ensures
        (forall|i: int| 0 <= i < trimmed(line).len() ==> trimmed(line)[i] != '=') ==> env_entry(
            line,
        ) is None,
        trimmed(line).len() > 0 && trimmed(line)[0] == '=' ==> env_entry(line) is None,
{
    let l = trimmed(line);
    if forall|i: int| 0 <= i < l.len() ==> l[i] != '=' {
        lemma_first_index(l, '=', l.len() as int);
    }
    if l.len() > 0 && l[0] == '=' {
        lemma_first_index(l, '=', 0);
        assert(l.take(0) =~= Seq::<char>::empty());
    }
}

/// Where every line is well formed, each gives its pair, in their order.
pub proof fn law_every_line_gives_its_pair(lines: Seq<Seq<char>>)
    requires
        forall|i: int| 0 <= i < lines.len() ==> env_entry(#[trigger] lines[i]) is Some,
    ensures
        env_entries(lines).len() == lines.len(),
        forall|i: int|
            0 <= i < lines.len() ==> env_entry(lines[i]) == Some(#[trigger] env_entries(lines)[i]),
    decreases lines.len(),
{
    if lines.len() > 0 {
        let n = lines.len() - 1;
        let front = lines.take(n);
        assert forall|i: int| 0 <= i < front.len() implies env_entry(#[trigger] front[i]) is Some by {
            assert(front[i] == lines[i]);
        }
        law_every_line_gives_its_pair(front);
        assert(env_entry(lines[n]) is Some);
        assert forall|i: int| 0 <= i < lines.len() implies env_entry(lines[i]) == Some(
            #[trigger] env_entries(lines)[i],
        ) by {
            if i < n {
                assert(env_entries(lines)[i] == env_entries(front)[i]);
                assert(front[i] == lines[i]);
            }
        }
    }
}

/// The words of a line are its maximal runs without white space.
pub proof fn law_words_are_runs(s: Seq<char>)
    ensures
        words(s) == runs(s, Separator::Space),
        forall|i: int|
            0 <= i < words(s).len() ==> (#[trigger] words(s)[i]).len() > 0 && forall|j: int|
                0 <= j < words(s)[i].len() ==> !is_space(#[trigger] words(s)[i][j]),
{
    law_nonempty_pieces_are_runs(s, Separator::Space);
}

/// A name is accepted exactly where it holds something, and only letters, digits, hyphens
/// and underscores.
pub proof fn law_accepted_names(name: Seq<char>)
    ensures
        name_error(name) is None <==> name.len() > 0 && forall|i: int|
            0 <= i < name.len() ==> {
                let c = #[trigger] name[i];
                ('a' <= c <= 'z') || ('A' <= c <= 'Z') || ('0' <= c <= '9') || c == '-' || c == '_'
            },
        name.len() == 0 ==> name_error(name) == Some("Server name is required."@),
        name_error(name) matches Some(e) ==> e.len() > 0,
{
    reveal_strlit("Server name is required.");
    reveal_strlit("Name may only contain letters, digits, '-', and '_'.");
    if name_error(name) is None {
        assert forall|i: int| 0 <= i < name.len() implies is_name_char(#[trigger] name[i]) by {
        }
    }
}

/// A field that is all white space is not given; any other one is given without the
/// white space at its ends.
pub proof fn law_blank_is_not_given(s: Seq<char>)
    ensures
        given(s) is None <==> forall|i: int| 0 <= i < s.len() ==> is_space(#[trigger] s[i]),
        given(s) matches Some(t) ==> t == trimmed(s) && t.len() > 0,
{
    law_trimmed_is_what_lies_between(s);
}

proof fn lemma_put_holds(entries: Seq<(Seq<char>, Seq<char>)>, key: Seq<char>, value: Seq<char>, p: (
    Seq<char>,
    Seq<char>,
))
    requires
        in_key_order(entries),
    ensures
        put(entries, key, value).contains(p) <==> p == (key, value) || (p.0 != key
            && entries.contains(p)),
    decreases entries.len(),
{
    let new = put(entries, key, value);
    if entries.len() == 0 {
        assert(new[0] == (key, value));
    } else {
        let n = entries.len() as int;
        let last = entries[n - 1];
        let front = entries.take(n - 1);
        assert(in_key_order(front));
        assert(entries =~= front.push(last));
        assert(entries.contains(p) <==> front.contains(p) || p == last) by {
            lemma_push_contains(front, last, p);
        }
        if last.0 == key {
            lemma_push_contains(front, (key, value), p);
            if front.contains(p) {
                let i = choose|i: int| 0 <= i < front.len() && front[i] == p;
                assert(text_before(entries[i].0, entries[n - 1].0));
                lemma_before_irreflexive(key);
            }
        } else if text_before(last.0, key) {
            lemma_push_contains(entries, (key, value), p);
            if entries.contains(p) && p.0 == key {
                let i = choose|i: int| 0 <= i < entries.len() && entries[i] == p;
                assert(i < n - 1);
                assert(text_before(entries[i].0, entries[n - 1].0));
                lemma_before_total(last.0, key);
            }
        } else {
            lemma_put_holds(front, key, value, p);
            lemma_push_contains(put(front, key, value), last, p);
        }
    }
}

proof fn lemma_push_contains(
    s: Seq<(Seq<char>, Seq<char>)>,
    x: (Seq<char>, Seq<char>),
    p: (Seq<char>, Seq<char>),
)
    ensures
        s.push(x).contains(p) <==> s.contains(p) || p == x,
{
    if s.contains(p) {
        let i = choose|i: int| 0 <= i < s.len() && s[i] == p;
        assert(s.push(x)[i] == p);
    }
    if p == x {
        assert(s.push(x)[s.len() as int] == p);
    }
    if s.push(x).contains(p) {
        let i = choose|i: int| 0 <= i < s.push(x).len() && s.push(x)[i] == p;
        if i < s.len() {
            assert(s[i] == p);
        }
    }
}

/// A table holds each pair that no later pair with the same key replaces, and nothing
/// else: of the environment nothing is lost but what was given anew.
pub proof fn law_last_value_of_a_key_counts(
    pairs: Seq<(Seq<char>, Seq<char>)>,
    p: (Seq<char>, Seq<char>),
)
    ensures
        table(pairs).contains(p) <==> exists|i: int|
            0 <= i < pairs.len() && #[trigger] pairs[i] == p && forall|j: int|
                i < j < pairs.len() ==> (#[trigger] pairs[j]).0 != p.0,
    decreases pairs.len(),
{
    if pairs.len() > 0 {
        let n = pairs.len() - 1;
        let front = pairs.take(n);
        let last = pairs[n];
        law_last_value_of_a_key_counts(front, p);
        law_table_is_in_key_order(front);
        lemma_put_holds(table(front), last.0, last.1, p);
        if table(pairs).contains(p) {
            if p == last {
                assert(pairs[n] == p);
            } else {
                let i = choose|i: int|
                    0 <= i < front.len() && #[trigger] front[i] == p && forall|j: int|
                        i < j < front.len() ==> (#[trigger] front[j]).0 != p.0;
                assert(pairs[i] == p);
                assert forall|j: int| i < j < pairs.len() implies (#[trigger] pairs[j]).0 != p.0 by {
                    if j < n {
                        assert(pairs[j] == front[j]);
                    }
                }
            }
        }
        if exists|i: int|
            0 <= i < pairs.len() && #[trigger] pairs[i] == p && forall|j: int|
                i < j < pairs.len() ==> (#[trigger] pairs[j]).0 != p.0 {
            let i = choose|i: int|
                0 <= i < pairs.len() && #[trigger] pairs[i] == p && forall|j: int|
                    i < j < pairs.len() ==> (#[trigger] pairs[j]).0 != p.0;
            if i < n {
                assert(front[i] == p);
                assert(pairs[n].0 != p.0);
                assert forall|j: int| i < j < front.len() implies (#[trigger] front[j]).0 != p.0 by {
                    assert(pairs[j] == front[j]);
                }
                assert(table(front).contains(p));
            } else {
                assert((last.0, last.1) == p);
            }
        }
    }
}

/// What a local server needs is sent: its name, whether it is on, its command, and its
/// arguments, namespace and environment where they were filled in; those that were not
/// are not sent.
pub proof fn law_local_server_is_described(form: McpForm)
    requires
        form.transport == McpTransport::Stdio,
    ensures
        form.members().contains(("name"@, json_string(trimmed(form.name@)))),
        form.enabled ==> form.members().contains(("enabled"@, "true"@)),
        !form.enabled ==> form.members().contains(("enabled"@, "false"@)),
        form.members().contains(("command"@, json_string(trimmed(form.command@)))),
        words(form.args@).len() > 0 ==> form.members().contains(
            ("args"@, json_array(words(form.args@))),
        ),
        trimmed(form.namespace@).len() > 0 ==> form.members().contains(
            ("namespace"@, json_string(trimmed(form.namespace@))),
        ),
        table(env_pairs(form.env@)).len() > 0 ==> form.members().contains(
            ("env"@, json_object(string_values(table(env_pairs(form.env@))))),
        ),
        form.members().len() == 3 + (if words(form.args@).len() > 0 {
            1int
        } else {
            0
        }) + (if trimmed(form.namespace@).len() > 0 {
            1int
        } else {
            0
        }) + (if table(env_pairs(form.env@)).len() > 0 {
            1int
        } else {
            0
        }),
        form.secret() is None,
{
    let all = form.members();
    assert(all[0] == ("name"@, json_string(form.target_name())));
    assert(all[1] == ("enabled"@, bool_text(form.enabled)));
    assert(all[2] == ("command"@, json_string(trimmed(form.command@))));
    let args = words(form.args@).len() > 0;
    let namespace = trimmed(form.namespace@).len() > 0;
    if args {
        assert(all[3] == ("args"@, json_array(words(form.args@))));
    }
    let k: int = if args {
        4
    } else {
        3
    };
    if namespace {
        assert(all[k] == ("namespace"@, json_string(trimmed(form.namespace@))));
    }
    let m: int = if namespace {
        k + 1
    } else {
        k
    };
    if table(env_pairs(form.env@)).len() > 0 {
        assert(all[m] == (
            "env"@,
            json_object(string_values(table(env_pairs(form.env@)))),
        ));
    }
}

/// What a remote server needs is sent: its name, whether it is on, its address, and what
/// its way of signing in needs, of no other way.
pub proof fn law_remote_server_is_described(form: McpForm)
    requires
        form.transport == McpTransport::Http,
    ensures
        form.members().contains(("name"@, json_string(trimmed(form.name@)))),
        form.enabled ==> form.members().contains(("enabled"@, "true"@)),
        !form.enabled ==> form.members().contains(("enabled"@, "false"@)),
        form.members().contains(("http"@, json_object(form.http_members()))),
        form.members().len() == 3,
        form.http_members().contains(("url"@, json_string(trimmed(form.url@)))),
        form.auth == McpAuthKind::Anonymous ==> form.http_members().len() == 1,
        form.auth == McpAuthKind::Bearer ==> form.http_members().len() == 2
            && form.http_members().contains(
            ("auth_bearer_secret"@, json_string(trimmed(form.name@) + "_token"@)),
        ),
        form.auth == McpAuthKind::OAuth ==> form.http_members().contains(
            ("oauth_account"@, json_string(trimmed(form.oauth_account@))),
        ),
        form.auth == McpAuthKind::OAuth && scopes_of(form.scopes@).len() > 0
            ==> form.http_members().len() == 3 && form.http_members().contains(
            ("scopes"@, json_array(scopes_of(form.scopes@))),
        ),
        form.auth == McpAuthKind::OAuth && scopes_of(form.scopes@).len() == 0
            ==> form.http_members().len() == 2,
{
    let all = form.members();
    assert(all[0] == ("name"@, json_string(form.target_name())));
    assert(all[1] == ("enabled"@, bool_text(form.enabled)));
    assert(all[2] == ("http"@, json_object(form.http_members())));
    let http = form.http_members();
    assert(http[0] == ("url"@, json_string(trimmed(form.url@))));
    if form.auth == McpAuthKind::Bearer {
        assert(http[1] == ("auth_bearer_secret"@, json_string(form.target_name() + "_token"@)));
    }
    if form.auth == McpAuthKind::OAuth {
        assert(http[1] == ("oauth_account"@, json_string(trimmed(form.oauth_account@))));
        if scopes_of(form.scopes@).len() > 0 {
            assert(http[2] == ("scopes"@, json_array(scopes_of(form.scopes@))));
        }
    }
}

/// A typed token is stored, wherever the server signs in with one.
pub proof fn law_typed_token_is_stored(form: McpForm)
    requires
        form.transport == McpTransport::Http,
        form.auth == McpAuthKind::Bearer,
        trimmed(form.bearer_token@).len() > 0,
    ensures
        form.secret() == Some((trimmed(form.name@) + "_token"@, trimmed(form.bearer_token@))),
{
}

/// A form is refused exactly where something that its server needs is missing: a fit
/// name, where it is new; the command of a local server; the address of a remote one,
/// and the account of one that signs in with OAuth.
pub proof fn law_incomplete_forms_are_refused(form: McpForm)
    ensures
        form.error() is None <==> {
            &&& form.editing || name_error(trimmed(form.name@)) is None
            &&& form.transport == McpTransport::Stdio ==> trimmed(form.command@).len() > 0
            &&& form.transport == McpTransport::Http ==> trimmed(form.url@).len() > 0
            &&& form.transport == McpTransport::Http && form.auth == McpAuthKind::OAuth ==> trimmed(
                form.oauth_account@,
            ).len() > 0
        },
        !form.editing && name_error(trimmed(form.name@)) is Some ==> form.error() == name_error(
            trimmed(form.name@),
        ),
        form.error() matches Some(e) ==> e.len() > 0,
{
    reveal_strlit("Server name is required.");
    reveal_strlit("Name may only contain letters, digits, '-', and '_'.");
    reveal_strlit("Command is required for a local (stdio) server.");
    reveal_strlit("URL is required for a remote (HTTP) server.");
    reveal_strlit("Choose a service account for OAuth authentication.");
}

/// The configuration is the object of these members, and the values of the environment
/// stand in it as strings under their own names.
pub proof fn law_configuration_is_one_object(form: McpForm, i: int)
    requires
        0 <= i < form.env_table().len(),
    ensures
        form.config() == json_object(form.members()),
        string_values(form.env_table()).len() == form.env_table().len(),
        string_values(form.env_table())[i].0 == form.env_table()[i].0,
        string_values(form.env_table())[i].1 == json_string(form.env_table()[i].1),
        in_key_order(form.env_table()),
{
    law_table_is_in_key_order(env_pairs(form.env@));
}

/// The name and the value of a line are read without white space around them, and white
/// space around the line is nothing to it.
pub proof fn law_environment_pairs_are_neat(line: Seq<char>)
    ensures
        env_entry(line) matches Some((key, value)) ==> key.len() > 0 && trimmed(key) == key
            && trimmed(value) == value,
        env_entry(trimmed(line)) == env_entry(line),
{
    let l = trimmed(line);
    let at = first_index(l, '=');
    law_trimmed_has_no_outer_space(line);
    law_trimmed_has_no_outer_space(l.take(at));
    law_trimmed_has_no_outer_space(l.skip(at + 1));
}

} // verus!
