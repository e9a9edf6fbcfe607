//! The MCP servers that are compiled into the client.

use vstd::prelude::*;
use crate::text::cat3;
#[allow(unused_imports)]
use crate::text::{holds_text, law_text_is_held};

verus! {

/// A compiled-in server, as the client's MCP host reports it.
pub struct BuiltinStatus {
    pub name: String,
    pub namespace: String,
    pub tool_count: usize,
    /// The configured server of the same name that takes its place.
    pub overridden_by: Option<String>,
    /// Turned off in the client's configuration.
    pub disabled_by_config: bool,
}

/// A compiled-in server, as the panel shows it.
#[derive(Debug, PartialEq, Eq)]
pub struct BuiltinServerDto {
    pub name: String,
    pub namespace: String,
    pub tool_count: u32,
    pub overridden_by: Option<String>,
    pub disabled_by_config: bool,
}

/// `dto` shows `status`. A tool count that the panel cannot hold is cut off.
pub open spec fn mirrors(status: BuiltinStatus, dto: BuiltinServerDto) -> bool {
    dto == (BuiltinServerDto {
        name: status.name,
        namespace: status.namespace,
        tool_count: status.tool_count as u32,
        overridden_by: status.overridden_by,
        disabled_by_config: status.disabled_by_config,
    })
}

/// Every compiled-in server as the panel shows it, in order.
pub fn builtin_dtos(status: Vec<BuiltinStatus>) -> (dtos: Vec<BuiltinServerDto>)
    ensures
        dtos@.len() == status@.len(),
        forall|i: int| 0 <= i < status@.len() ==> mirrors(status@[i], #[trigger] dtos@[i]),
{
    let mut dtos: Vec<BuiltinServerDto> = Vec::new();
    let mut i: usize = 0;
    while i < status.len()
        invariant
            i <= status@.len(),
            dtos@.len() == i,
            forall|j: int| 0 <= j < i ==> mirrors(status@[j], #[trigger] dtos@[j]),
        decreases status@.len() - i,
    {
        let s = &status[i];
        dtos.push(
            BuiltinServerDto {
                name: s.name.clone(),
                namespace: s.namespace.clone(),
                tool_count: #[verifier::truncate] (s.tool_count as u32),
                overridden_by: match &s.overridden_by {
                    Some(name) => Some(name.clone()),
                    None => None,
                },
                disabled_by_config: s.disabled_by_config,
            },
        );
        i += 1;
    }
    dtos
}

/// Why a compiled-in server does not run: turned off in the configuration,
/// else a configured server of the same name takes its place.
pub open spec fn off_reason(disabled: bool, overridden_by: Option<Seq<char>>) -> Option<
    Seq<char>,
> {
    if disabled {
        Some("disabled (config)"@)
    } else {
        match overridden_by {
            Some(name) => Some("overridden by client-MCP '"@ + name + "'"@),
            None => None,
        }
    }
}

pub fn disabled_reason(disabled: bool, overridden_by: Option<&str>) -> (r: Option<String>)
    ensures
        crate::text::opt_text(r) == off_reason(disabled, crate::text::opt_str(overridden_by)),
{
    if disabled {
        Some("disabled (config)".to_owned())
    } else {
        match overridden_by {
            Some(name) => Some(cat3("overridden by client-MCP '", name, "'")),
            None => None,
        }
    }
}

/// The servers that are compiled in and could be set up. The core ones are there
/// by default; one that could not be set up is left out.
#[derive(Debug, Clone, Copy, PartialEq, Eq, Structural)]
pub struct BuiltinSet {
    pub fileio: bool,
    pub terminal: bool,
    pub tasks: bool,
    pub web: bool,
    pub weather: bool,
    pub internet_radio: bool,
    pub openstreetmap: bool,
    pub geocode: bool,
    pub skills: bool,
}

/// A compiled-in server and the namespace of its tools.
#[derive(Debug, Clone, Copy, PartialEq, Eq)]
pub struct BuiltinServer {
    pub name: &'static str,
    pub namespace: &'static str,
}

/// A server under its own name, where it is there.
pub open spec fn server_if(there: bool, name: &'static str) -> Seq<BuiltinServer> {
    if there {
        seq![BuiltinServer { name, namespace: name }]
    } else {
        Seq::<BuiltinServer>::empty()
    }
}

/// The compiled-in servers, the core ones first. Their tools stand under their
/// names.
pub open spec fn servers_of(set: BuiltinSet) -> Seq<BuiltinServer> {
    server_if(set.fileio, "fileio")
        + server_if(set.terminal, "terminal")
        + server_if(set.tasks, "tasks")
        + server_if(set.web, "web")
        + server_if(set.weather, "weather-forecast")
        + server_if(set.internet_radio, "internet-radio")
        + server_if(set.openstreetmap, "openstreetmap")
        + server_if(set.geocode, "geocode")
        + server_if(set.skills, "skills")
}

fn push_if(servers: &mut Vec<BuiltinServer>, there: bool, name: &'static str)
    ensures
        final(servers)@ == old(servers)@ + server_if(there, name),
{
    if there {
        servers.push(BuiltinServer { name, namespace: name });
    }
    assert(servers@ =~= old(servers)@ + server_if(there, name));
}

/// The compiled-in servers.
pub fn builtin_servers(set: BuiltinSet) -> (servers: Vec<BuiltinServer>)
    ensures
        servers@ == servers_of(set),
{
    let mut servers: Vec<BuiltinServer> = Vec::new();
    push_if(&mut servers, set.fileio, "fileio");
    push_if(&mut servers, set.terminal, "terminal");
    push_if(&mut servers, set.tasks, "tasks");
    push_if(&mut servers, set.web, "web");
    push_if(&mut servers, set.weather, "weather-forecast");
    push_if(&mut servers, set.internet_radio, "internet-radio");
    push_if(&mut servers, set.openstreetmap, "openstreetmap");
    push_if(&mut servers, set.geocode, "geocode");
    push_if(&mut servers, set.skills, "skills");
    assert(servers@ =~= servers_of(set));
    servers
}

/// The panel shows a compiled-in server under its own name and namespace, with what
/// replaces it and whether it is turned off, and its tool count where that fits.
pub proof fn law_panel_shows_the_server(status: BuiltinStatus, dto: BuiltinServerDto)
    requires
        mirrors(status, dto),
    ensures
        dto.name == status.name,
        dto.namespace == status.namespace,
        dto.overridden_by == status.overridden_by,
        dto.disabled_by_config == status.disabled_by_config,
        status.tool_count <= u32::MAX ==> dto.tool_count == status.tool_count,
{
}

/// A server runs exactly where it is neither turned off nor replaced. That it is turned
/// off is told first, else which server replaces it.
pub proof fn law_reasons_are_told(disabled: bool, overridden_by: Option<Seq<char>>)
    ensures
        off_reason(disabled, overridden_by) is None <==> !disabled && overridden_by is None,
        disabled ==> off_reason(disabled, overridden_by) == Some("disabled (config)"@),
        !disabled ==> (overridden_by matches Some(name) ==> (off_reason(
            disabled,
            overridden_by,
        ) matches Some(reason) && holds_text(reason, name))),
{
    match overridden_by {
        Some(name) => law_text_is_held("overridden by client-MCP '"@, name, "'"@),
        None => {},
    }
}

/// How many servers one that may be there makes.
pub open spec fn counted(there: bool) -> int {
    if there {
        1
    } else {
        0
    }
}

proof fn lemma_server_behind(before: Seq<BuiltinServer>, there: bool, name: &'static str)
    requires
        forall|i: int| 0 <= i < before.len() ==> (#[trigger] before[i]).namespace == before[i].name,
    ensures
        ({
            let all = before + server_if(there, name);
            &&& all.len() == before.len() + counted(there)
            &&& all.take(before.len() as int) == before
            &&& there ==> all[before.len() as int].name == name
            &&& forall|i: int| 0 <= i < all.len() ==> (#[trigger] all[i]).namespace == all[i].name
        }),
{
    let all = before + server_if(there, name);
    assert(all.take(before.len() as int) =~= before);
    assert forall|i: int| 0 <= i < all.len() implies (#[trigger] all[i]).namespace == all[i].name by {
        if i < before.len() {
            assert(all[i] == before[i]);
        }
    }
}

/// The core servers are there exactly where they were compiled in, first and in one
/// order, each under its own name, which is its namespace too.
pub proof fn law_core_servers_come_first(set: BuiltinSet)
    ensures
        ({
            let core = server_if(set.fileio, "fileio") + server_if(set.terminal, "terminal")
                + server_if(set.tasks, "tasks");
            let a = counted(set.fileio);
            let b = a + counted(set.terminal);
            &&& core.len() == b + counted(set.tasks)
            &&& set.fileio ==> core[0].name == "fileio"
            &&& set.terminal ==> core[a].name == "terminal"
            &&& set.tasks ==> core[b].name == "tasks"
            &&& servers_of(set).take(core.len() as int) == core
            &&& forall|i: int|
                0 <= i < core.len() ==> (#[trigger] core[i]).namespace == core[i].name
        }),
{
    let one = server_if(set.fileio, "fileio");
    let two = one + server_if(set.terminal, "terminal");
    let core = two + server_if(set.tasks, "tasks");
    lemma_server_behind(one, set.terminal, "terminal");
    lemma_server_behind(two, set.tasks, "tasks");
    if set.fileio {
        assert(two[0] == two.take(one.len() as int)[0]);
        assert(core[0] == core.take(two.len() as int)[0]);
    }
    if set.terminal {
        assert(core[one.len() as int] == core.take(two.len() as int)[one.len() as int]);
    }
    assert(servers_of(set).take(core.len() as int) =~= core);
}

proof fn lemma_kept(before: Seq<BuiltinServer>, after: Seq<BuiltinServer>)
    requires
        before.len() <= after.len(),
        after.take(before.len() as int) == before,
    ensures
        forall|i: int| 0 <= i < before.len() ==> after[i] == #[trigger] before[i],
{
    assert forall|i: int| 0 <= i < before.len() implies after[i] == #[trigger] before[i] by {
        assert(after.take(before.len() as int)[i] == after[i]);
    }
}

proof fn lemma_places_kept(
    one: Seq<BuiltinServer>,
    two: Seq<BuiltinServer>,
    three: Seq<BuiltinServer>,
    four: Seq<BuiltinServer>,
    five: Seq<BuiltinServer>,
    six: Seq<BuiltinServer>,
)
    requires
        one.len() <= two.len() <= three.len() <= four.len() <= five.len() <= six.len(),
        two.take(one.len() as int) == one,
        three.take(two.len() as int) == two,
        four.take(three.len() as int) == three,
        five.take(four.len() as int) == four,
        six.take(five.len() as int) == five,
    ensures
        one.len() > 0 ==> six[one.len() - 1] == one[one.len() - 1],
        two.len() > 0 ==> six[two.len() - 1] == two[two.len() - 1],
        three.len() > 0 ==> six[three.len() - 1] == three[three.len() - 1],
        four.len() > 0 ==> six[four.len() - 1] == four[four.len() - 1],
        five.len() > 0 ==> six[five.len() - 1] == five[five.len() - 1],
{
    lemma_kept(one, two);
    lemma_kept(two, three);
    lemma_kept(three, four);
    lemma_kept(four, five);
    lemma_kept(five, six);
}

/// The other servers are there exactly where they were compiled in, behind the core
/// ones and in one order, each under its own name, which is its namespace too.
#[verifier::rlimit(60)]
#[verifier::spinoff_prover]
pub proof fn law_other_servers_follow(set: BuiltinSet)
    ensures
        ({
            let all = servers_of(set);
            let k = counted(set.fileio) + counted(set.terminal) + counted(set.tasks);
            let c = k + counted(set.web);
            let d = c + counted(set.weather);
            let e = d + counted(set.internet_radio);
            let f = e + counted(set.openstreetmap);
            let g = f + counted(set.geocode);
            &&& all.len() == g + counted(set.skills)
            &&& set.web ==> all[k].name == "web"
            &&& set.weather ==> all[c].name == "weather-forecast"
            &&& set.internet_radio ==> all[d].name == "internet-radio"
            &&& set.openstreetmap ==> all[e].name == "openstreetmap"
            &&& set.geocode ==> all[f].name == "geocode"
            &&& set.skills ==> all[g].name == "skills"
            &&& forall|i: int| 0 <= i < all.len() ==> (#[trigger] all[i]).namespace == all[i].name
        }),
{
    let core = server_if(set.fileio, "fileio") + server_if(set.terminal, "terminal") + server_if(
        set.tasks,
        "tasks",
    );
    law_core_servers_come_first(set);
    let one = core + server_if(set.web, "web");
    let two = one + server_if(set.weather, "weather-forecast");
    let three = two + server_if(set.internet_radio, "internet-radio");
    let four = three + server_if(set.openstreetmap, "openstreetmap");
    let five = four + server_if(set.geocode, "geocode");
    let six = five + server_if(set.skills, "skills");
    assert(servers_of(set) == six);
    lemma_server_behind(core, set.web, "web");
    lemma_server_behind(one, set.weather, "weather-forecast");
    lemma_server_behind(two, set.internet_radio, "internet-radio");
    lemma_server_behind(three, set.openstreetmap, "openstreetmap");
    lemma_server_behind(four, set.geocode, "geocode");
    lemma_server_behind(five, set.skills, "skills");
    lemma_places_kept(one, two, three, four, five, six);
}

} // verus!
