//! The client's own MCP configuration: the servers that are defined, and for
//! each client surface which of them are on and which compiled-in servers are
//! off.

use vstd::prelude::*;
use crate::text::{cat3, same};
#[allow(unused_imports)]
use crate::text::texts;

verus! {

/// A server that the client can start.
#[derive(Debug, PartialEq, Eq)]
pub struct McpServerConfig {
    pub name: String,
    /// The command of a local server; empty for a remote one.
    pub command: String,
    pub args: Vec<String>,
    pub namespace: Option<String>,
    pub enabled: bool,
    /// Its other settings (environment, secrets, address, description) as TOML;
    /// empty where there are none.
    pub rest: String,
}

/// What is chosen for one client surface.
#[derive(Debug, PartialEq, Eq)]
pub struct SurfaceConfig {
    pub name: String,
    pub enabled: Vec<String>,
    pub disabled_builtins: Vec<String>,
}

#[derive(Debug, PartialEq, Eq)]
pub struct ClientMcpConfig {
    pub servers: Vec<McpServerConfig>,
    pub surfaces: Vec<SurfaceConfig>,
}

/// A list without a name.
pub open spec fn without(list: Seq<Seq<char>>, name: Seq<char>) -> Seq<Seq<char>>
    decreases list.len(),
{
    if list.len() == 0 {
        list
    } else {
        let n = list.len() - 1;
        let before = without(list.take(n), name);
        if list[n] == name {
            before
        } else {
            before.push(list[n])
        }
    }
}

/// A list with a name in it, or without it.
pub open spec fn switched(list: Seq<Seq<char>>, name: Seq<char>, on: bool) -> Seq<Seq<char>> {
    if !on {
        without(list, name)
    } else if list.contains(name) {
        list
    } else {
        list.push(name)
    }
}

/// The place of a surface; the length where nothing was chosen for it.
pub open spec fn surface_place(surfaces: Seq<SurfaceConfig>, surface: Seq<char>) -> int
    decreases surfaces.len(),
{
    if surfaces.len() == 0 || surfaces[0].name@ == surface {
        0
    } else {
        1 + surface_place(surfaces.skip(1), surface)
    }
}

/// The servers that are on for a surface.
pub open spec fn enabled_of(surfaces: Seq<SurfaceConfig>, surface: Seq<char>) -> Seq<Seq<char>> {
    let at = surface_place(surfaces, surface);
    if at < surfaces.len() {
        texts(surfaces[at].enabled@)
    } else {
        Seq::<Seq<char>>::empty()
    }
}

/// The compiled-in servers that are off for a surface.
pub open spec fn disabled_of(surfaces: Seq<SurfaceConfig>, surface: Seq<char>) -> Seq<Seq<char>> {
    let at = surface_place(surfaces, surface);
    if at < surfaces.len() {
        texts(surfaces[at].disabled_builtins@)
    } else {
        Seq::<Seq<char>>::empty()
    }
}

/// The place of the server of this name; the length where none is defined.
pub open spec fn server_place(servers: Seq<McpServerConfig>, name: Seq<char>) -> int
    decreases servers.len(),
{
    if servers.len() == 0 || servers[0].name@ == name {
        0
    } else {
        1 + server_place(servers.skip(1), name)
    }
}

pub open spec fn defines(servers: Seq<McpServerConfig>, name: Seq<char>) -> bool {
    server_place(servers, name) < servers.len()
}

/// The servers of other names.
pub open spec fn other_servers(servers: Seq<McpServerConfig>, name: Seq<char>) -> Seq<
    McpServerConfig,
>
    decreases servers.len(),
{
    if servers.len() == 0 {
        servers
    } else {
        let n = servers.len() - 1;
        let before = other_servers(servers.take(n), name);
        if servers[n].name@ == name {
            before
        } else {
            before.push(servers[n])
        }
    }
}

/// A server of this name is started for a surface: it is defined, not turned off
/// in its definition, and on for the surface.
pub open spec fn resolves(cfg: ClientMcpConfig, surface: Seq<char>, name: Seq<char>) -> bool {
    &&& enabled_of(cfg.surfaces@, surface).contains(name)
    &&& exists|i: int|
        0 <= i < cfg.servers@.len() && (#[trigger] cfg.servers@[i]).name@ == name
            && cfg.servers@[i].enabled
}

/// Whether a name is in a list.
pub fn lists_name(list: &Vec<String>, name: &str) -> (b: bool)
    ensures
        b == texts(list@).contains(name@),
{
    let mut i: usize = 0;
    while i < list.len()
        invariant
            i <= list@.len(),
            forall|j: int| 0 <= j < i ==> #[trigger] texts(list@)[j] != name@,
        decreases list@.len() - i,
    {
        if same(list[i].as_str(), name) {
            assert(texts(list@)[i as int] == name@);
            return true;
        }
        i += 1;
    }
    assert(!texts(list@).contains(name@));
    false
}

fn drop_name(list: &Vec<String>, name: &str) -> (out: Vec<String>)
    ensures
        texts(out@) == without(texts(list@), name@),
{
    let ghost all = texts(list@);
    let mut out: Vec<String> = Vec::new();
    let mut i: usize = 0;
    assert(texts(out@) =~= without(all.take(0), name@));
    while i < list.len()
        invariant
            i <= list@.len(),
            all == texts(list@),
            texts(out@) == without(all.take(i as int), name@),
        decreases list@.len() - i,
    {
        let ghost t = all.take(i + 1);
        assert(t.take(t.len() - 1) =~= all.take(i as int));
        let ghost before = texts(out@);
        if !same(list[i].as_str(), name) {
            out.push(list[i].clone());
            assert(texts(out@) =~= before.push(all[i as int]));
        }
        i += 1;
    }
    assert(all.take(i as int) =~= all);
    out
}

fn switch(list: &Vec<String>, name: &str, on: bool) -> (out: Vec<String>)
    ensures
        texts(out@) == switched(texts(list@), name@, on),
{
    if !on {
        return drop_name(list, name);
    }
    let mut out: Vec<String> = Vec::new();
    let mut i: usize = 0;
    while i < list.len()
        invariant
            i <= list@.len(),
            texts(out@) == texts(list@).take(i as int),
        decreases list@.len() - i,
    {
        let ghost before = texts(out@);
        out.push(list[i].clone());
        assert(texts(out@) =~= before.push(texts(list@)[i as int]));
        assert(texts(list@).take(i + 1) =~= texts(list@).take(i as int).push(
            texts(list@)[i as int],
        ));
        i += 1;
    }
    assert(texts(list@).take(i as int) =~= texts(list@));
    if !lists_name(list, name) {
        let ghost before = texts(out@);
        out.push(name.to_owned());
        assert(texts(out@) =~= before.push(name@));
    }
    out
}

fn find_surface(surfaces: &Vec<SurfaceConfig>, surface: &str) -> (at: usize)
    ensures
        at == surface_place(surfaces@, surface@),
        at <= surfaces@.len(),
        at < surfaces@.len() ==> surfaces@[at as int].name@ == surface@,
{
    let mut i: usize = 0;
    assert(surfaces@.skip(0) =~= surfaces@);
    while i < surfaces.len()
        invariant
            i <= surfaces@.len(),
            surface_place(surfaces@, surface@) == i + surface_place(
                surfaces@.skip(i as int),
                surface@,
            ),
        decreases surfaces@.len() - i,
    {
        if same(surfaces[i].name.as_str(), surface) {
            return i;
        }
        assert(surfaces@.skip(i as int).skip(1) =~= surfaces@.skip(i + 1));
        i += 1;
    }
    i
}

fn find_server(servers: &Vec<McpServerConfig>, name: &str) -> (at: usize)
    ensures
        at == server_place(servers@, name@),
        at <= servers@.len(),
        at < servers@.len() ==> servers@[at as int].name@ == name@,
{
    let mut i: usize = 0;
    assert(servers@.skip(0) =~= servers@);
    while i < servers.len()
        invariant
            i <= servers@.len(),
            server_place(servers@, name@) == i + server_place(servers@.skip(i as int), name@),
        decreases servers@.len() - i,
    {
        if same(servers[i].name.as_str(), name) {
            return i;
        }
        assert(servers@.skip(i as int).skip(1) =~= servers@.skip(i + 1));
        i += 1;
    }
    i
}

/// Surfaces with the same names in the same order stand at the same places.
proof fn lemma_same_names(a: Seq<SurfaceConfig>, b: Seq<SurfaceConfig>, surface: Seq<char>)
    requires
        a.len() == b.len(),
        forall|i: int| 0 <= i < a.len() ==> (#[trigger] a[i]).name@ == b[i].name@,
    ensures
        surface_place(a, surface) == surface_place(b, surface),
        0 <= surface_place(a, surface) <= a.len(),
        surface_place(a, surface) < a.len() ==> a[surface_place(a, surface)].name@ == surface,
    decreases a.len(),
{
    if a.len() > 0 {
        assert(a[0].name@ == b[0].name@);
        if a[0].name@ != surface {
            assert forall|i: int| 0 <= i < a.skip(1).len() implies (#[trigger] a.skip(
                1,
            )[i]).name@ == b.skip(1)[i].name@ by {
                assert(a[i + 1].name@ == b[i + 1].name@);
            }
            lemma_same_names(a.skip(1), b.skip(1), surface);
        }
    }
}

/// A surface that is added stands behind all others.
proof fn lemma_added_surface(a: Seq<SurfaceConfig>, new: SurfaceConfig, surface: Seq<char>)
    ensures
        surface_place(a.push(new), surface) == (if surface_place(a, surface) < a.len() {
            surface_place(a, surface)
        } else if new.name@ == surface {
            a.len() as int
        } else {
            a.len() as int + 1
        }),
        0 <= surface_place(a, surface) <= a.len(),
    decreases a.len(),
{
    if a.len() == 0 {
        reveal_with_fuel(surface_place, 2);
        assert(a.push(new).skip(1).len() == 0);
    } else if a[0].name@ != surface {
        lemma_added_surface(a.skip(1), new, surface);
        assert(a.push(new).skip(1) =~= a.skip(1).push(new));
    }
}

impl ClientMcpConfig {
    pub fn new() -> (cfg: ClientMcpConfig)
        ensures
            cfg.servers@.len() == 0,
            cfg.surfaces@.len() == 0,
    {
        ClientMcpConfig { servers: Vec::new(), surfaces: Vec::new() }
    }

    /// The servers that are on for a surface.
    pub fn surface_enabled_names(&self, surface: &str) -> (names: Vec<String>)
        ensures
            texts(names@) == enabled_of(self.surfaces@, surface@),
    {
        let at: usize = find_surface(&self.surfaces, surface);
        if at < self.surfaces.len() {
            copy_names(&self.surfaces[at].enabled)
        } else {
            let none: Vec<String> = Vec::new();
            assert(texts(none@) =~= Seq::<Seq<char>>::empty());
            none
        }
    }

    /// The compiled-in servers that are off for a surface.
    pub fn surface_disabled_builtins(&self, surface: &str) -> (names: Vec<String>)
        ensures
            texts(names@) == disabled_of(self.surfaces@, surface@),
    {
        let at: usize = find_surface(&self.surfaces, surface);
        if at < self.surfaces.len() {
            copy_names(&self.surfaces[at].disabled_builtins)
        } else {
            let none: Vec<String> = Vec::new();
            assert(texts(none@) =~= Seq::<Seq<char>>::empty());
            none
        }
    }

    /// Whether a server of this name is defined.
    pub fn is_defined(&self, name: &str) -> (b: bool)
        ensures
            b == defines(self.servers@, name@),
    {
        find_server(&self.servers, name) < self.servers.len()
    }

    /// Whether a server of this name is started for a surface.
    pub fn is_resolved(&self, surface: &str, name: &str) -> (b: bool)
        ensures
            b == resolves(*self, surface@, name@),
    {
        let names = self.surface_enabled_names(surface);
        if !lists_name(&names, name) {
            return false;
        }
        let mut i: usize = 0;
        while i < self.servers.len()
            invariant
                i <= self.servers@.len(),
                enabled_of(self.surfaces@, surface@).contains(name@),
                forall|j: int|
                    0 <= j < i ==> !((#[trigger] self.servers@[j]).name@ == name@
                        && self.servers@[j].enabled),
            decreases self.servers@.len() - i,
        {
            if self.servers[i].enabled && same(self.servers[i].name.as_str(), name) {
                assert(self.servers@[i as int].name@ == name@);
                return true;
            }
            i += 1;
        }
        false
    }

    /// Defines a server, in the place of one of the same name.
    pub fn upsert_server(&mut self, server: McpServerConfig)
        ensures
            final(self).servers@ == (if defines(old(self).servers@, server.name@) {
                old(self).servers@.update(server_place(old(self).servers@, server.name@), server)
            } else {
                old(self).servers@.push(server)
            }),
            final(self).surfaces == old(self).surfaces,
    {
        let at: usize = find_server(&self.servers, server.name.as_str());
        if at < self.servers.len() {
            self.servers.set(at, server);
        } else {
            self.servers.push(server);
        }
    }

    fn ensure_surface(&mut self, surface: &str) -> (at: usize)
        ensures
            final(self).servers == old(self).servers,
            at == surface_place(final(self).surfaces@, surface@),
            at < final(self).surfaces@.len(),
            final(self).surfaces@[at as int].name@ == surface@,
            forall|s: Seq<char>| #[trigger]
                enabled_of(final(self).surfaces@, s) == enabled_of(old(self).surfaces@, s),
            forall|s: Seq<char>| #[trigger]
                disabled_of(final(self).surfaces@, s) == disabled_of(old(self).surfaces@, s),
    {
        let at: usize = find_surface(&self.surfaces, surface);
        let n: usize = self.surfaces.len();
        if at < n {
            return at;
        }
        let ghost before = self.surfaces@;
        let new = SurfaceConfig {
            name: surface.to_owned(),
            enabled: Vec::new(),
            disabled_builtins: Vec::new(),
        };
        let ghost added = new;
        self.surfaces.push(new);
        proof {
            assert(texts(added.enabled@) =~= Seq::<Seq<char>>::empty());
            assert(texts(added.disabled_builtins@) =~= Seq::<Seq<char>>::empty());
            lemma_added_surface(before, added, surface@);
            assert forall|s: Seq<char>| #[trigger]
                enabled_of(self.surfaces@, s) == enabled_of(before, s) by {
                lemma_added_surface(before, added, s);
            }
            assert forall|s: Seq<char>| #[trigger]
                disabled_of(self.surfaces@, s) == disabled_of(before, s) by {
                lemma_added_surface(before, added, s);
            }
        }
        n
    }

    /// Turns a server on or off for a surface.
    pub fn set_surface_enabled(&mut self, surface: &str, name: &str, on: bool)
        ensures
            final(self).servers == old(self).servers,
            forall|s: Seq<char>| #[trigger]
                enabled_of(final(self).surfaces@, s) == (if s == surface@ {
                    switched(enabled_of(old(self).surfaces@, s), name@, on)
                } else {
                    enabled_of(old(self).surfaces@, s)
                }),
            forall|s: Seq<char>| #[trigger]
                disabled_of(final(self).surfaces@, s) == disabled_of(old(self).surfaces@, s),
    {
        let at: usize = self.ensure_surface(surface);
        let ghost mid = self.surfaces@;
        let list = switch(&self.surfaces[at].enabled, name, on);
        self.surfaces[at].enabled = list;
        proof {
            let after = self.surfaces@;
            assert(enabled_of(mid, surface@) == texts(mid[at as int].enabled@));
            assert forall|s: Seq<char>| #[trigger]
                enabled_of(after, s) == (if s == surface@ {
                    switched(enabled_of(old(self).surfaces@, s), name@, on)
                } else {
                    enabled_of(old(self).surfaces@, s)
                }) by {
                lemma_same_names(after, mid, s);
                assert(enabled_of(mid, s) == enabled_of(old(self).surfaces@, s));
            }
            assert forall|s: Seq<char>| #[trigger]
                disabled_of(after, s) == disabled_of(old(self).surfaces@, s) by {
                lemma_same_names(after, mid, s);
                assert(disabled_of(mid, s) == disabled_of(old(self).surfaces@, s));
            }
        }
    }

    /// Turns a compiled-in server off for a surface, or on again.
    pub fn set_builtin_disabled(&mut self, surface: &str, name: &str, disabled: bool)
        ensures
            final(self).servers == old(self).servers,
            forall|s: Seq<char>| #[trigger]
                disabled_of(final(self).surfaces@, s) == (if s == surface@ {
                    switched(disabled_of(old(self).surfaces@, s), name@, disabled)
                } else {
                    disabled_of(old(self).surfaces@, s)
                }),
            forall|s: Seq<char>| #[trigger]
                enabled_of(final(self).surfaces@, s) == enabled_of(old(self).surfaces@, s),
    {
        let at: usize = self.ensure_surface(surface);
        let ghost mid = self.surfaces@;
        let list = switch(&self.surfaces[at].disabled_builtins, name, disabled);
        self.surfaces[at].disabled_builtins = list;
        proof {
            let after = self.surfaces@;
            assert(disabled_of(mid, surface@) == texts(mid[at as int].disabled_builtins@));
            assert forall|s: Seq<char>| #[trigger]
                disabled_of(after, s) == (if s == surface@ {
                    switched(disabled_of(old(self).surfaces@, s), name@, disabled)
                } else {
                    disabled_of(old(self).surfaces@, s)
                }) by {
                lemma_same_names(after, mid, s);
                assert(disabled_of(mid, s) == disabled_of(old(self).surfaces@, s));
            }
            assert forall|s: Seq<char>| #[trigger]
                enabled_of(after, s) == enabled_of(old(self).surfaces@, s) by {
                lemma_same_names(after, mid, s);
                assert(enabled_of(mid, s) == enabled_of(old(self).surfaces@, s));
            }
        }
    }

    fn drop_server(&mut self, name: &str)
        ensures
            final(self).servers@ == other_servers(old(self).servers@, name@),
            final(self).surfaces == old(self).surfaces,
    {
        let ghost all = self.servers@;
        let mut rest: Vec<McpServerConfig> = Vec::new();
        std::mem::swap(&mut rest, &mut self.servers);
        let mut kept: Vec<McpServerConfig> = Vec::new();
        let n: usize = rest.len();
        let mut i: usize = 0;
        assert(kept@ =~= other_servers(all.take(0), name@));
        while i < n
            invariant
                n == all.len(),
                i <= n,
                rest@ == all.skip(i as int),
                kept@ == other_servers(all.take(i as int), name@),
            decreases n - i,
        {
            let ghost t = all.take(i + 1);
            assert(t.take(t.len() - 1) =~= all.take(i as int));
            let server = rest.remove(0);
            assert(server == all[i as int]);
            if !same(server.name.as_str(), name) {
                kept.push(server);
            }
            i += 1;
        }
        assert(all.take(n as int) =~= all);
        self.servers = kept;
    }

    /// Removes the definition of a server, and takes it off every surface. There
    /// must be one.
    pub fn remove_server(&mut self, name: &str) -> (r: Result<(), String>)
        ensures
            r is Ok == defines(old(self).servers@, name@),
            r matches Err(e) ==> e@ == "no such client-MCP server: '"@ + name@ + "'"@
                && *final(self) == *old(self),
            r is Ok ==> {
                &&& final(self).servers@ == other_servers(old(self).servers@, name@)
                &&& forall|s: Seq<char>| #[trigger]
                    enabled_of(final(self).surfaces@, s) == without(
                        enabled_of(old(self).surfaces@, s),
                        name@,
                    )
                &&& forall|s: Seq<char>| #[trigger]
                    disabled_of(final(self).surfaces@, s) == disabled_of(
                        old(self).surfaces@,
                        s,
                    )
            },
    {
        if !self.is_defined(name) {
            return Err(cat3("no such client-MCP server: '", name, "'"));
        }
        self.drop_server(name);
        let ghost before = self.surfaces@;
        let n: usize = self.surfaces.len();
        let mut i: usize = 0;
        while i < n
            invariant
                n == before.len(),
                i <= n,
                self.surfaces@.len() == n,
                self.servers@ == other_servers(old(self).servers@, name@),
                forall|j: int|
                    0 <= j < n ==> {
                        &&& (#[trigger] self.surfaces@[j]).name == before[j].name
                        &&& self.surfaces@[j].disabled_builtins == before[j].disabled_builtins
                        &&& j < i ==> texts(self.surfaces@[j].enabled@) == without(
                            texts(before[j].enabled@),
                            name@,
                        )
                        &&& j >= i ==> self.surfaces@[j] == before[j]
                    },
            decreases n - i,
        {
            assert(self.surfaces@[i as int] == before[i as int]);
            let list = drop_name(&self.surfaces[i].enabled, name);
            let ghost rows = self.surfaces@;
            self.surfaces[i].enabled = list;
            assert forall|j: int| 0 <= j < n implies {
                &&& (#[trigger] self.surfaces@[j]).name == before[j].name
                &&& self.surfaces@[j].disabled_builtins == before[j].disabled_builtins
                &&& j < i + 1 ==> texts(self.surfaces@[j].enabled@) == without(
                    texts(before[j].enabled@),
                    name@,
                )
                &&& j >= i + 1 ==> self.surfaces@[j] == before[j]
            } by {
                if j != i {
                    assert(self.surfaces@[j] == rows[j]);
                }
            }
            i += 1;
        }
        proof {
            let after = self.surfaces@;
            assert forall|s: Seq<char>| #[trigger]
                enabled_of(after, s) == without(enabled_of(before, s), name@) by {
                lemma_same_names(after, before, s);
                let at = surface_place(after, s);
                if at < after.len() {
                    assert(after[at].name == before[at].name);
                }
                assert(without(Seq::<Seq<char>>::empty(), name@) =~= Seq::<Seq<char>>::empty());
            }
            assert forall|s: Seq<char>| #[trigger]
                disabled_of(after, s) == disabled_of(before, s) by {
                lemma_same_names(after, before, s);
                let at = surface_place(after, s);
                if at < after.len() {
                    assert(after[at].name == before[at].name);
                }
            }
        }
        Ok(())
    }
}

fn copy_names(list: &Vec<String>) -> (out: Vec<String>)
    ensures
        texts(out@) == texts(list@),
{
    let mut out: Vec<String> = Vec::new();
    let mut i: usize = 0;
    while i < list.len()
        invariant
            i <= list@.len(),
            out@ == list@.take(i as int),
        decreases list@.len() - i,
    {
        out.push(list[i].clone());
        assert(list@.take(i + 1) =~= list@.take(i as int).push(list@[i as int]));
        i += 1;
    }
    assert(list@.take(i as int) =~= list@);
    out
}

/// Turning a name on puts it into the list, turning it off takes it out, and
/// other names are not touched.
pub proof fn law_switching_one_name(
    list: Seq<Seq<char>>,
    name: Seq<char>,
    on: bool,
    other: Seq<char>,
)
    ensures
        switched(list, name, on).contains(name) == on,
        other != name ==> switched(list, name, on).contains(other) == list.contains(other),
        switched(switched(list, name, on), name, on) == switched(list, name, on),
{
    lemma_without(list, name, other);
    lemma_without(list, name, name);
    if on && !list.contains(name) {
        let after = list.push(name);
        assert(after[after.len() - 1] == name);
        if list.contains(other) {
            let i = choose|i: int| 0 <= i < list.len() && list[i] == other;
            assert(after[i] == other);
        }
        if after.contains(other) && other != name {
            let i = choose|i: int| 0 <= i < after.len() && after[i] == other;
            assert(list[i] == other);
        }
    }
    if !on {
        lemma_without_again(without(list, name), name);
    }
}

proof fn lemma_without(list: Seq<Seq<char>>, name: Seq<char>, other: Seq<char>)
    ensures
        without(list, name).contains(other) == (list.contains(other) && other != name),
    decreases list.len(),
{
    if list.len() > 0 {
        let n = list.len() - 1;
        let t = list.take(n);
        let kept = without(t, name);
        let all = without(list, name);
        lemma_without(t, name, other);
        if all.contains(other) {
            let i = choose|i: int| 0 <= i < all.len() && all[i] == other;
            if i < kept.len() {
                assert(kept[i] == other);
                let k = choose|k: int| 0 <= k < t.len() && t[k] == other;
                assert(list[k] == other);
            } else {
                assert(list[n] == other);
            }
        }
        if list.contains(other) && other != name {
            let i = choose|i: int| 0 <= i < list.len() && list[i] == other;
            if i < n {
                assert(t[i] == other);
                let k = choose|k: int| 0 <= k < kept.len() && kept[k] == other;
                assert(all[k] == other);
            } else {
                assert(all[all.len() - 1] == other);
            }
        }
    }
}

proof fn lemma_without_again(list: Seq<Seq<char>>, name: Seq<char>)
    requires
        !list.contains(name),
    ensures
        without(list, name) == list,
    decreases list.len(),
{
    if list.len() > 0 {
        let n = list.len() - 1;
        let t = list.take(n);
        assert(list[n] != name);
        if t.contains(name) {
            let i = choose|i: int| 0 <= i < t.len() && t[i] == name;
            assert(list[i] == name);
        }
        lemma_without_again(t, name);
        assert(t.push(list[n]) =~= list);
    }
}

/// Removing a name takes out exactly the servers of that name; the others stay, in
/// their order.
pub proof fn law_removal_takes_only_the_name(servers: Seq<McpServerConfig>, name: Seq<char>)
    ensures
        other_servers(servers, name) == servers.filter(|s: McpServerConfig| s.name@ != name),
    decreases servers.len(),
{
    reveal(Seq::filter);
    if servers.len() > 0 {
        assert(servers.drop_last() =~= servers.take(servers.len() - 1));
        law_removal_takes_only_the_name(servers.drop_last(), name);
    }
}

/// A server is defined exactly where one of the servers has its name, and found at
/// the first such place.
pub proof fn law_defined_is_named(servers: Seq<McpServerConfig>, name: Seq<char>)
    ensures
        defines(servers, name) <==> exists|i: int|
            0 <= i < servers.len() && (#[trigger] servers[i]).name@ == name,
        defines(servers, name) ==> servers[server_place(servers, name)].name@ == name,
        0 <= server_place(servers, name) <= servers.len(),
        forall|i: int| 0 <= i < server_place(servers, name) ==> (#[trigger] servers[i]).name@ != name,
    decreases servers.len(),
{
    if servers.len() > 0 && servers[0].name@ != name {
        let rest = servers.skip(1);
        law_defined_is_named(rest, name);
        assert forall|i: int| 0 <= i < server_place(servers, name) implies (
        #[trigger] servers[i]).name@ != name by {
            if i > 0 {
                assert(servers[i] == rest[i - 1]);
            }
        }
        if defines(servers, name) {
            assert(servers[server_place(servers, name)].name@ == name);
        }
    } else if servers.len() > 0 {
        assert(servers[0].name@ == name);
    }
}

/// After a server was removed it is not defined, and every other name is defined as
/// before.
pub proof fn law_removal_spares_other_servers(
    servers: Seq<McpServerConfig>,
    name: Seq<char>,
    other: Seq<char>,
)
    ensures
        !defines(other_servers(servers, name), name),
        other != name ==> defines(other_servers(servers, name), other) == defines(servers, other),
        forall|s: McpServerConfig| #[trigger]
            other_servers(servers, name).contains(s) <==> servers.contains(s) && s.name@ != name,
{
    let kept = |s: McpServerConfig| s.name@ != name;
    let rest = other_servers(servers, name);
    law_removal_takes_only_the_name(servers, name);
    assert(rest == servers.filter(kept));
    law_defined_is_named(servers, other);
    law_defined_is_named(rest, other);
    law_defined_is_named(rest, name);
    assert forall|s: McpServerConfig| #[trigger] rest.contains(s) <==> servers.contains(s) && s.name@
        != name by {
        if rest.contains(s) {
            let i = choose|i: int| 0 <= i < rest.len() && rest[i] == s;
            servers.lemma_filter_pred(kept, i);
            servers.lemma_filter_contains_rev(kept, s);
        }
        if servers.contains(s) && s.name@ != name {
            let i = choose|i: int| 0 <= i < servers.len() && servers[i] == s;
            servers.lemma_filter_contains(kept, i);
        }
    }
    if defines(rest, name) {
        let i = choose|i: int| 0 <= i < rest.len() && (#[trigger] rest[i]).name@ == name;
        servers.lemma_filter_pred(kept, i);
    }
    if other != name {
        if defines(rest, other) {
            let i = choose|i: int| 0 <= i < rest.len() && (#[trigger] rest[i]).name@ == other;
            assert(rest.contains(rest[i]));
            let k = choose|k: int| 0 <= k < servers.len() && servers[k] == rest[i];
            assert(servers[k].name@ == other);
        }
        if defines(servers, other) {
            let i = choose|i: int| 0 <= i < servers.len() && (#[trigger] servers[i]).name@ == other;
            assert(servers.contains(servers[i]));
            assert(rest.contains(servers[i]));
            let k = choose|k: int| 0 <= k < rest.len() && rest[k] == servers[i];
            assert(rest[k].name@ == other);
        }
    }
}

/// A list without a name holds the other names, in their order.
pub proof fn law_without_takes_only_the_name(list: Seq<Seq<char>>, name: Seq<char>)
    ensures
        without(list, name) == list.filter(|n: Seq<char>| n != name),
        !without(list, name).contains(name),
        forall|n: Seq<char>|
            n != name ==> #[trigger] without(list, name).contains(n) == list.contains(n),
    decreases list.len(),
{
    reveal(Seq::filter);
    let kept = |n: Seq<char>| n != name;
    if list.len() > 0 {
        assert(list.drop_last() =~= list.take(list.len() - 1));
        law_without_takes_only_the_name(list.drop_last(), name);
    }
    let rest = without(list, name);
    assert(rest == list.filter(kept));
    if rest.contains(name) {
        let i = choose|i: int| 0 <= i < rest.len() && rest[i] == name;
        list.lemma_filter_pred(kept, i);
    }
    assert forall|n: Seq<char>| n != name implies #[trigger] rest.contains(n) == list.contains(
        n,
    ) by {
        if rest.contains(n) {
            list.lemma_filter_contains_rev(kept, n);
        }
        if list.contains(n) {
            let i = choose|i: int| 0 <= i < list.len() && list[i] == n;
            list.lemma_filter_contains(kept, i);
        }
    }
}

/// Switching a name on or off puts that name into the list or takes it out, and
/// leaves every other name as it was; a name that is on already is not listed twice.
pub proof fn law_switched_is_switched(list: Seq<Seq<char>>, name: Seq<char>, on: bool)
    ensures
        switched(list, name, on).contains(name) == on,
        forall|n: Seq<char>|
            n != name ==> #[trigger] switched(list, name, on).contains(n) == list.contains(n),
        on && list.contains(name) ==> switched(list, name, on) == list,
        list.no_duplicates() ==> switched(list, name, on).no_duplicates(),
{
    law_without_takes_only_the_name(list, name);
    if on && !list.contains(name) {
        let more = list.push(name);
        assert(more[list.len() as int] == name);
        assert forall|n: Seq<char>| n != name implies #[trigger] more.contains(n) == list.contains(
            n,
        ) by {
            if list.contains(n) {
                let i = choose|i: int| 0 <= i < list.len() && list[i] == n;
                assert(more[i] == n);
            }
        }
    } else if !on && list.no_duplicates() {
        lemma_without_keeps_distinct(list, name);
    }
}

proof fn lemma_without_keeps_distinct(list: Seq<Seq<char>>, name: Seq<char>)
    requires
        list.no_duplicates(),
    ensures
        without(list, name).no_duplicates(),
    decreases list.len(),
{
    if list.len() > 0 {
        let t = list.take(list.len() - 1);
        lemma_without_keeps_distinct(t, name);
        law_without_takes_only_the_name(t, name);
        let last = list[list.len() - 1];
        let before = without(t, name);
        if t.contains(last) {
            let i = choose|i: int| 0 <= i < t.len() && t[i] == last;
            assert(list[i] == list[list.len() - 1]);
        }
        if last != name {
            assert(!before.contains(last));
            let all = before.push(last);
            assert forall|i: int, j: int|
                0 <= i < all.len() && 0 <= j < all.len() && i != j implies all[i] != all[j] by {
                if i == before.len() {
                    assert(before[j] != last);
                } else if j == before.len() {
                    assert(before[i] != last);
                }
            }
        }
    }
}

/// A server is started for a surface exactly where it is defined, enabled in its
/// definition, and on for that surface.
pub proof fn law_started_servers(cfg: ClientMcpConfig, surface: Seq<char>, name: Seq<char>)
    ensures
        resolves(cfg, surface, name) ==> defines(cfg.servers@, name) && enabled_of(
            cfg.surfaces@,
            surface,
        ).contains(name),
        defines(cfg.servers@, name) && (forall|i: int|
            0 <= i < cfg.servers@.len() ==> (#[trigger] cfg.servers@[i]).enabled) ==> (resolves(
            cfg,
            surface,
            name,
        ) <==> enabled_of(cfg.surfaces@, surface).contains(name)),
{
    law_defined_is_named(cfg.servers@, name);
    if defines(cfg.servers@, name) {
        let i = server_place(cfg.servers@, name);
        assert(cfg.servers@[i].name@ == name);
    }
}

/// What is chosen for a surface is found at the first entry of its name; nothing is
/// on, nor off, for a surface without one.
pub proof fn law_choices_are_of_the_surface(surfaces: Seq<SurfaceConfig>, surface: Seq<char>)
    ensures
        (forall|i: int| 0 <= i < surfaces.len() ==> (#[trigger] surfaces[i]).name@ != surface)
            ==> enabled_of(surfaces, surface).len() == 0 && disabled_of(surfaces, surface).len()
            == 0,
        forall|i: int|
            0 <= i < surfaces.len() && (#[trigger] surfaces[i]).name@ == surface && (forall|j: int|
                0 <= j < i ==> (#[trigger] surfaces[j]).name@ != surface) ==> enabled_of(
                surfaces,
                surface,
            ) == texts(surfaces[i].enabled@) && disabled_of(surfaces, surface) == texts(
                surfaces[i].disabled_builtins@,
            ),
{
    lemma_surface_place(surfaces, surface);
    let at = surface_place(surfaces, surface);
    assert forall|i: int|
        0 <= i < surfaces.len() && (#[trigger] surfaces[i]).name@ == surface && (forall|j: int|
            0 <= j < i ==> (#[trigger] surfaces[j]).name@ != surface) implies enabled_of(
        surfaces,
        surface,
    ) == texts(surfaces[i].enabled@) && disabled_of(surfaces, surface) == texts(
        surfaces[i].disabled_builtins@,
    ) by {
        assert(at == i) by {
            if at < i {
                assert(surfaces[at].name@ != surface);
            }
            if i < at {
                assert(surfaces[i].name@ != surface);
            }
        }
    }
}

proof fn lemma_surface_place(surfaces: Seq<SurfaceConfig>, surface: Seq<char>)
    ensures
        0 <= surface_place(surfaces, surface) <= surfaces.len(),
        surface_place(surfaces, surface) < surfaces.len() ==> surfaces[surface_place(
            surfaces,
            surface,
        )].name@ == surface,
        forall|i: int|
            0 <= i < surface_place(surfaces, surface) ==> (#[trigger] surfaces[i]).name@ != surface,
    decreases surfaces.len(),
{
    if surfaces.len() > 0 && surfaces[0].name@ != surface {
        let rest = surfaces.skip(1);
        lemma_surface_place(rest, surface);
        assert forall|i: int| 0 <= i < surface_place(surfaces, surface) implies (
        #[trigger] surfaces[i]).name@ != surface by {
            if i > 0 {
                assert(surfaces[i] == rest[i - 1]);
            }
        }
    }
}

/// A server is started for a surface exactly where the surface has it on and it is
/// defined and not turned off; one that is turned off in its definition never is.
pub proof fn law_only_servers_that_are_on_are_started(
    cfg: ClientMcpConfig,
    surface: Seq<char>,
    name: Seq<char>,
    i: int,
)
    ensures
        resolves(cfg, surface, name) ==> enabled_of(cfg.surfaces@, surface).contains(name),
        (forall|k: int|
            0 <= k < cfg.servers@.len() && (#[trigger] cfg.servers@[k]).name@ == name
                ==> !cfg.servers@[k].enabled) ==> !resolves(cfg, surface, name),
        !enabled_of(cfg.surfaces@, surface).contains(name) ==> !resolves(cfg, surface, name),
        0 <= i < cfg.servers@.len() && cfg.servers@[i].name@ == name && cfg.servers@[i].enabled
            && enabled_of(cfg.surfaces@, surface).contains(name) ==> resolves(cfg, surface, name),
{
}

} // verus!
