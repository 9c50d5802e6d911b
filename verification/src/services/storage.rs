//! What the persistence layer does to the stored configurations.
//!
//! Each operation here is the step between reading a configuration file and writing it back:
//! it takes the configuration that was read and leaves the one to be written.
use vstd::prelude::*;
use crate::models::{
    KnownHost, KnownHostsConfig, ServerConfig, ServerData, ServerGroupData, SnippetCommand,
    SnippetGroup, SnippetsConfig,
};
use crate::seqs::{first_match, lemma_filter_take_step, lemma_first_match_at, lemma_first_match_none, none_before};
use crate::text::{decimal, decimal_chars, from_chars, opt_view, owned, push_chars, push_str, to_chars};

verus! {

// ======================================================================
// File locations
// ======================================================================
/// `dir` joined with the relative file name `name`, as `Path::join` does on Unix.
pub open spec fn join_path(dir: Seq<char>, name: Seq<char>) -> Seq<char> {
    if dir.len() == 0 {
        name
    } else if dir.last() == '/' {
        dir + name
    } else {
        dir.push('/') + name
    }
}

/// The path of the file `name` inside the configuration directory `dir`.
pub fn config_file(dir: &str, name: &str) -> (res: String)
    ensures
        res@ == join_path(dir@, name@),
{
    let mut v = to_chars(dir);
    let n = v.len();
    if n > 0 && v[n - 1] != '/' {
        v.push('/');
    }
    push_str(&mut v, name);
    from_chars(v.as_slice())
}

/// Path of the servers file inside the configuration directory.
pub fn get_servers_file(config_dir: &str) -> (res: String)
    ensures
        res@ == join_path(config_dir@, "servers.json"@),
{
    config_file(config_dir, "servers.json")
}

/// Path of the settings file inside the configuration directory.
pub fn get_settings_file(config_dir: &str) -> (res: String)
    ensures
        res@ == join_path(config_dir@, "settings.json"@),
{
    config_file(config_dir, "settings.json")
}

/// Path of the snippets file inside the configuration directory.
pub fn get_snippets_file(config_dir: &str) -> (res: String)
    ensures
        res@ == join_path(config_dir@, "snippets.json"@),
{
    config_file(config_dir, "snippets.json")
}

/// Path of the known-hosts file inside the configuration directory.
pub fn get_known_hosts_file(config_dir: &str) -> (res: String)
    ensures
        res@ == join_path(config_dir@, "known_hosts.json"@),
{
    config_file(config_dir, "known_hosts.json")
}

// ======================================================================
// Servers
// ======================================================================
/// The server has id `id`.
pub open spec fn server_id_is(id: Seq<char>) -> spec_fn(ServerData) -> bool {
    |s: ServerData| s.id@ == id
}

/// The server does not have id `id`.
pub open spec fn server_id_is_not(id: Seq<char>) -> spec_fn(ServerData) -> bool {
    |s: ServerData| s.id@ != id
}

/// Some group in `groups` has id `id`.
pub open spec fn group_exists(groups: Seq<ServerGroupData>, id: Seq<char>) -> bool {
    exists|i: int| 0 <= i < groups.len() && (#[trigger] groups[i]).id@ == id
}

/// Some server in `servers` belongs to the group `id`.
pub open spec fn group_has_server(servers: Seq<ServerData>, id: Seq<char>) -> bool {
    exists|i: int| 0 <= i < servers.len() && opt_view((#[trigger] servers[i]).group_id) == Some(id)
}

/// The group still holds a server of `servers`.
pub open spec fn group_in_use(servers: Seq<ServerData>) -> spec_fn(ServerGroupData) -> bool {
    |g: ServerGroupData| group_has_server(servers, g.id@)
}

/// What adding `server` does to the group list: a group named after an unknown group id is
/// created with the server icon.
pub open spec fn groups_after_add(
    old_groups: Seq<ServerGroupData>,
    server: ServerData,
    new_groups: Seq<ServerGroupData>,
) -> bool {
    match server.group_id {
        Some(g) => if group_exists(old_groups, g@) {
            new_groups == old_groups
        } else {
            &&& new_groups.len() == old_groups.len() + 1
            &&& new_groups.take(old_groups.len() as int) == old_groups
            &&& new_groups.last().id@ == g@
            &&& new_groups.last().name@ == g@
            &&& new_groups.last().icon_path@ == "icons/server.svg"@
        },
        None => new_groups == old_groups,
    }
}

fn find_group(groups: &Vec<ServerGroupData>, id: &String) -> (res: bool)
    ensures
        res == group_exists(groups@, id@),
{
    let mut i: usize = 0;
    while i < groups.len()
        invariant
            i <= groups@.len(),
            forall|k: int| 0 <= k < i ==> groups@[k].id@ != id@,
        decreases groups@.len() - i,
    {
        if groups[i].id == *id {
            return true;
        }
        i = i + 1;
    }
    false
}

/// Adds a server; an unknown group id gets a group of its own, named after the id.
pub fn add_server(config: &mut ServerConfig, server: ServerData)
    ensures
        final(config).servers@ == old(config).servers@.push(server),
        groups_after_add(old(config).groups@, server, final(config).groups@),
{
    match &server.group_id {
        Some(g) => {
            if !find_group(&config.groups, g) {
                let group = ServerGroupData {
                    id: g.clone(),
                    name: g.clone(),
                    icon_path: owned("icons/server.svg"),
                };
                config.groups.push(group);
                assert(config.groups@.take(old(config).groups@.len() as int) =~= old(
                    config,
                ).groups@);
            }
        },
        None => {},
    }
    config.servers.push(server);
}

fn position_of_server(servers: &Vec<ServerData>, id: &String) -> (res: Option<usize>)
    ensures
        match res {
            Some(i) => i < servers@.len() && first_match(servers@, server_id_is(id@)) == Some(
                i as int,
            ),
            None => first_match(servers@, server_id_is(id@)) is None,
        },
{
    let mut i: usize = 0;
    while i < servers.len()
        invariant
            i <= servers@.len(),
            none_before(servers@, server_id_is(id@), i as int),
        decreases servers@.len() - i,
    {
        if servers[i].id == *id {
            proof {
                lemma_first_match_at(servers@, server_id_is(id@), i as int);
            }
            return Some(i);
        }
        i = i + 1;
    }
    proof {
        lemma_first_match_none(servers@, server_id_is(id@));
    }
    None
}

/// Replaces the first server with the same id; returns whether one was found.
pub fn update_server(config: &mut ServerConfig, server: ServerData) -> (found: bool)
    ensures
        final(config).groups@ == old(config).groups@,
        match first_match(old(config).servers@, server_id_is(server.id@)) {
            Some(i) => found && final(config).servers@ == old(config).servers@.update(i, server),
            None => !found && final(config).servers@ == old(config).servers@,
        },
{
    match position_of_server(&config.servers, &server.id) {
        Some(pos) => {
            config.servers.set(pos, server);
            true
        },
        None => false,
    }
}

/// Sets the last-connected stamp of the first server with id `server_id`.
pub fn set_server_last_connected(config: &mut ServerConfig, server_id: &str, stamp: String) -> (found:
    bool)
    ensures
        final(config).groups@ == old(config).groups@,
        match first_match(old(config).servers@, server_id_is(server_id@)) {
            Some(i) => found && final(config).servers@ == old(config).servers@.update(
                i,
                ServerData { last_connected_at: Some(stamp), ..old(config).servers@[i] },
            ),
            None => !found && final(config).servers@ == old(config).servers@,
        },
{
    let id = owned(server_id);
    match position_of_server(&config.servers, &id) {
        Some(pos) => {
            let mut s = config.servers[pos].clone();
            s.last_connected_at = Some(stamp);
            config.servers.set(pos, s);
            true
        },
        None => false,
    }
}

/// Records that the server `server_id` was just connected to, stamped with the local time
/// (`%Y-%m-%d %H:%M`).
pub fn update_server_last_connected(config: &mut ServerConfig, server_id: &str) -> (found: bool)
    ensures
        final(config).groups@ == old(config).groups@,
        match first_match(old(config).servers@, server_id_is(server_id@)) {
            Some(i) => found && exists|stamp: String|
                final(config).servers@ == old(config).servers@.update(
                    i,
                    #[trigger] server_with_stamp(old(config).servers@[i], stamp),
                ),
            None => !found && final(config).servers@ == old(config).servers@,
        },
{
    let stamp = crate::clock::local_minute_stamp();
    let ghost st = stamp;
    let found = set_server_last_connected(config, server_id, stamp);
    proof {
        if let Some(i) = first_match(old(config).servers@, server_id_is(server_id@)) {
            assert(final(config).servers@ == old(config).servers@.update(
                i,
                server_with_stamp(old(config).servers@[i], st),
            ));
        }
    }
    found
}

/// `s` with its last-connected stamp set to `stamp`.
pub open spec fn server_with_stamp(s: ServerData, stamp: String) -> ServerData {
    ServerData { last_connected_at: Some(stamp), ..s }
}

fn group_used(servers: &Vec<ServerData>, id: &String) -> (res: bool)
    ensures
        res == group_has_server(servers@, id@),
{
    let mut i: usize = 0;
    while i < servers.len()
        invariant
            i <= servers@.len(),
            forall|k: int| 0 <= k < i ==> opt_view(#[trigger] servers@[k].group_id) != Some(id@),
        decreases servers@.len() - i,
    {
        match &servers[i].group_id {
            Some(g) => {
                if *g == *id {
                    return true;
                }
            },
            None => {},
        }
        i = i + 1;
    }
    false
}

/// Deleting a server removes every server with that id and keeps every other one; the groups
/// kept are exactly those that still have a server, so no group is left empty and no group in
/// use is lost.
pub proof fn lemma_delete_server_effects(old_servers: Seq<ServerData>, old_groups: Seq<ServerGroupData>, id: Seq<char>)
    ensures
        forall|k: int|
            0 <= k < old_servers.filter(server_id_is_not(id)).len() ==> (#[trigger] old_servers.filter(
                server_id_is_not(id),
            )[k]).id@ != id,
        forall|k: int|
            0 <= k < old_servers.len() && (#[trigger] old_servers[k]).id@ != id ==> old_servers.filter(
                server_id_is_not(id),
            ).contains(old_servers[k]),
        forall|k: int|
            0 <= k < old_groups.filter(group_in_use(old_servers.filter(server_id_is_not(id)))).len()
                ==> group_has_server(
                old_servers.filter(server_id_is_not(id)),
                (#[trigger] old_groups.filter(group_in_use(old_servers.filter(server_id_is_not(id))))[k]).id@,
            ),
        forall|k: int|
            0 <= k < old_groups.len() && group_has_server(
                old_servers.filter(server_id_is_not(id)),
                (#[trigger] old_groups[k]).id@,
            ) ==> old_groups.filter(group_in_use(old_servers.filter(server_id_is_not(id)))).contains(
                old_groups[k],
            ),
{
    let ns = old_servers.filter(server_id_is_not(id));
    let ng = old_groups.filter(group_in_use(ns));
    assert forall|k: int| 0 <= k < ns.len() implies (#[trigger] ns[k]).id@ != id by {
        old_servers.lemma_filter_pred(server_id_is_not(id), k);
    }
    assert forall|k: int| 0 <= k < old_servers.len() && (#[trigger] old_servers[k]).id@ != id implies ns.contains(
        old_servers[k],
    ) by {
        old_servers.lemma_filter_contains(server_id_is_not(id), k);
    }
    assert forall|k: int| 0 <= k < ng.len() implies group_has_server(ns, (#[trigger] ng[k]).id@) by {
        old_groups.lemma_filter_pred(group_in_use(ns), k);
    }
    assert forall|k: int| 0 <= k < old_groups.len() && group_has_server(ns, (#[trigger] old_groups[k]).id@)
        implies ng.contains(old_groups[k]) by {
        old_groups.lemma_filter_contains(group_in_use(ns), k);
    }
}

/// Deletes the servers with id `server_id`, then every group left without a server.
pub fn delete_server(config: &mut ServerConfig, server_id: &str)
    ensures
        final(config).servers@ == old(config).servers@.filter(server_id_is_not(server_id@)),
        final(config).groups@ == old(config).groups@.filter(
            group_in_use(final(config).servers@),
        ),
{
    let id = owned(server_id);
    let mut servers: Vec<ServerData> = Vec::new();
    let mut i: usize = 0;
    while i < config.servers.len()
        invariant
            config == old(config),
            i <= config.servers@.len(),
            servers@ == config.servers@.take(i as int).filter(server_id_is_not(id@)),
            id@ == server_id@,
        decreases config.servers@.len() - i,
    {
        proof {
            lemma_filter_take_step(config.servers@, server_id_is_not(id@), i as int);
        }
        if config.servers[i].id != id {
            servers.push(config.servers[i].clone());
        }
        i = i + 1;
    }
    assert(config.servers@.take(i as int) =~= config.servers@);
    let mut groups: Vec<ServerGroupData> = Vec::new();
    let mut j: usize = 0;
    while j < config.groups.len()
        invariant
            config == old(config),
            j <= config.groups@.len(),
            groups@ == config.groups@.take(j as int).filter(group_in_use(servers@)),
        decreases config.groups@.len() - j,
    {
        proof {
            lemma_filter_take_step(config.groups@, group_in_use(servers@), j as int);
        }
        if group_used(&servers, &config.groups[j].id) {
            groups.push(config.groups[j].clone());
        }
        j = j + 1;
    }
    assert(config.groups@.take(j as int) =~= config.groups@);
    config.servers = servers;
    config.groups = groups;
}

/// A copy of the group list.
pub fn get_groups(config: &ServerConfig) -> (res: Vec<ServerGroupData>)
    ensures
        res@ == config.groups@,
{
    let mut res: Vec<ServerGroupData> = Vec::new();
    let mut i: usize = 0;
    while i < config.groups.len()
        invariant
            i <= config.groups@.len(),
            res@ == config.groups@.take(i as int),
        decreases config.groups@.len() - i,
    {
        res.push(config.groups[i].clone());
        i = i + 1;
        assert(res@ =~= config.groups@.take(i as int));
    }
    assert(config.groups@.take(i as int) =~= config.groups@);
    res
}

// ======================================================================
// Snippets
// ======================================================================
/// The group has id `id`.
pub open spec fn snippet_group_id_is(id: Seq<char>) -> spec_fn(SnippetGroup) -> bool {
    |g: SnippetGroup| g.id@ == id
}

/// The command has id `id`.
pub open spec fn command_id_is(id: Seq<char>) -> spec_fn(SnippetCommand) -> bool {
    |c: SnippetCommand| c.id@ == id
}

/// The command does not have id `id`.
pub open spec fn command_id_is_not(id: Seq<char>) -> spec_fn(SnippetCommand) -> bool {
    |c: SnippetCommand| c.id@ != id
}

/// Adds a snippet group at the end.
pub fn add_snippet_group(config: &mut SnippetsConfig, group: SnippetGroup)
    ensures
        final(config).groups@ == old(config).groups@.push(group),
        final(config).commands@ == old(config).commands@,
{
    config.groups.push(group);
}

fn position_of_group(groups: &Vec<SnippetGroup>, id: &String) -> (res: Option<usize>)
    ensures
        match res {
            Some(i) => i < groups@.len() && first_match(groups@, snippet_group_id_is(id@)) == Some(
                i as int,
            ),
            None => first_match(groups@, snippet_group_id_is(id@)) is None,
        },
{
    let mut i: usize = 0;
    while i < groups.len()
        invariant
            i <= groups@.len(),
            none_before(groups@, snippet_group_id_is(id@), i as int),
        decreases groups@.len() - i,
    {
        if groups[i].id == *id {
            proof {
                lemma_first_match_at(groups@, snippet_group_id_is(id@), i as int);
            }
            return Some(i);
        }
        i = i + 1;
    }
    proof {
        lemma_first_match_none(groups@, snippet_group_id_is(id@));
    }
    None
}

/// Replaces the first group with the same id; returns whether one was found.
pub fn update_snippet_group(config: &mut SnippetsConfig, group: SnippetGroup) -> (found: bool)
    ensures
        final(config).commands@ == old(config).commands@,
        match first_match(old(config).groups@, snippet_group_id_is(group.id@)) {
            Some(i) => found && final(config).groups@ == old(config).groups@.update(i, group),
            None => !found && final(config).groups@ == old(config).groups@,
        },
{
    match position_of_group(&config.groups, &group.id) {
        Some(pos) => {
            config.groups.set(pos, group);
            true
        },
        None => false,
    }
}

/// Adds a command at the end.
pub fn add_snippet_command(config: &mut SnippetsConfig, command: SnippetCommand)
    ensures
        final(config).commands@ == old(config).commands@.push(command),
        final(config).groups@ == old(config).groups@,
{
    config.commands.push(command);
}

fn position_of_command(commands: &Vec<SnippetCommand>, id: &String) -> (res: Option<usize>)
    ensures
        match res {
            Some(i) => i < commands@.len() && first_match(commands@, command_id_is(id@)) == Some(
                i as int,
            ),
            None => first_match(commands@, command_id_is(id@)) is None,
        },
{
    let mut i: usize = 0;
    while i < commands.len()
        invariant
            i <= commands@.len(),
            none_before(commands@, command_id_is(id@), i as int),
        decreases commands@.len() - i,
    {
        if commands[i].id == *id {
            proof {
                lemma_first_match_at(commands@, command_id_is(id@), i as int);
            }
            return Some(i);
        }
        i = i + 1;
    }
    proof {
        lemma_first_match_none(commands@, command_id_is(id@));
    }
    None
}

/// Replaces the first command with the same id; returns whether one was found.
pub fn update_snippet_command(config: &mut SnippetsConfig, command: SnippetCommand) -> (found: bool)
    ensures
        final(config).groups@ == old(config).groups@,
        match first_match(old(config).commands@, command_id_is(command.id@)) {
            Some(i) => found && final(config).commands@ == old(config).commands@.update(i, command),
            None => !found && final(config).commands@ == old(config).commands@,
        },
{
    match position_of_command(&config.commands, &command.id) {
        Some(pos) => {
            config.commands.set(pos, command);
            true
        },
        None => false,
    }
}

/// Deletes every command with id `command_id`.
pub fn delete_snippet_command(config: &mut SnippetsConfig, command_id: &str)
    ensures
        final(config).commands@ == old(config).commands@.filter(command_id_is_not(command_id@)),
        final(config).groups@ == old(config).groups@,
{
    let id = owned(command_id);
    let mut commands: Vec<SnippetCommand> = Vec::new();
    let mut i: usize = 0;
    while i < config.commands.len()
        invariant
            config == old(config),
            i <= config.commands@.len(),
            commands@ == config.commands@.take(i as int).filter(command_id_is_not(id@)),
            id@ == command_id@,
        decreases config.commands@.len() - i,
    {
        proof {
            lemma_filter_take_step(config.commands@, command_id_is_not(id@), i as int);
        }
        if config.commands[i].id != id {
            commands.push(config.commands[i].clone());
        }
        i = i + 1;
    }
    assert(config.commands@.take(i as int) =~= config.commands@);
    config.commands = commands;
}

// ----------------------------------------------------------------------
// Cascading deletion of a snippet group
// ----------------------------------------------------------------------
/// `x` is `root`, or a group whose parent chain reaches `root` in at most `k` steps.
pub open spec fn reach_within(groups: Seq<SnippetGroup>, root: Seq<char>, x: Seq<char>, k: nat) -> bool
    decreases k,
{
    x == root || (k > 0 && exists|j: int|
        0 <= j < groups.len() && (#[trigger] groups[j]).id@ == x && match groups[j].parent_id {
            Some(p) => reach_within(groups, root, p@, (k - 1) as nat),
            None => false,
        })
}

/// `x` is `root` or the id of a group that descends from `root` through `parent_id` links.
pub open spec fn in_subtree(groups: Seq<SnippetGroup>, root: Seq<char>, x: Seq<char>) -> bool {
    exists|k: nat| reach_within(groups, root, x, k)
}

/// The group lies outside the subtree of `root`.
pub open spec fn group_outside_subtree(groups: Seq<SnippetGroup>, root: Seq<char>) -> spec_fn(
    SnippetGroup,
) -> bool {
    |g: SnippetGroup| !in_subtree(groups, root, g.id@)
}

/// The command is at the top level or in a group outside the subtree of `root`.
pub open spec fn command_outside_subtree(groups: Seq<SnippetGroup>, root: Seq<char>) -> spec_fn(
    SnippetCommand,
) -> bool {
    |c: SnippetCommand|
        match c.group_id {
            Some(g) => !in_subtree(groups, root, g@),
            None => true,
        }
}

/// The text views of a list of strings.
pub open spec fn views(v: Seq<String>) -> Seq<Seq<char>> {
    v.map_values(|s: String| s@)
}

fn contains_string(v: &Vec<String>, s: &String) -> (res: bool)
    ensures
        res == views(v@).contains(s@),
{
    let mut i: usize = 0;
    while i < v.len()
        invariant
            i <= v@.len(),
            forall|k: int| 0 <= k < i ==> v@[k]@ != s@,
        decreases v@.len() - i,
    {
        if v[i] == *s {
            assert(views(v@)[i as int] == s@);
            return true;
        }
        i = i + 1;
    }
    assert forall|k: int| 0 <= k < views(v@).len() implies views(v@)[k] != s@ by {
        assert(views(v@)[k] == v@[k]@);
    }
    false
}

/// A list of distinct texts, each of which occurs in `ys`, is no longer than `ys`.
proof fn lemma_distinct_within(xs: Seq<Seq<char>>, ys: Seq<Seq<char>>)
    requires
        xs.no_duplicates(),
        forall|i: int| 0 <= i < xs.len() ==> ys.contains(#[trigger] xs[i]),
    ensures
        xs.len() <= ys.len(),
{
    xs.unique_seq_to_set();
    ys.lemma_cardinality_of_set();
    assert(xs.to_set().subset_of(ys.to_set())) by {
        assert forall|x: Seq<char>| xs.to_set().contains(x) implies ys.to_set().contains(x) by {
            let i = choose|i: int| 0 <= i < xs.len() && xs[i] == x;
            assert(ys.contains(xs[i]));
        }
    }
    vstd::set_lib::lemma_len_subset(xs.to_set(), ys.to_set());
}

/// Every group reached from `root` within `k` steps is in `d`, when `d` holds `root` and is
/// closed under taking children.
proof fn lemma_reach_in_closed(groups: Seq<SnippetGroup>, root: Seq<char>, d: Seq<Seq<char>>, x: Seq<char>, k: nat)
    requires
        d.contains(root),
        forall|j: int|
            0 <= j < groups.len() && (#[trigger] groups[j]).parent_id is Some && d.contains(
                groups[j].parent_id->0@,
            ) ==> d.contains(groups[j].id@),
        reach_within(groups, root, x, k),
    ensures
        d.contains(x),
    decreases k,
{
    if x != root {
        let j = choose|j: int|
            0 <= j < groups.len() && (#[trigger] groups[j]).id@ == x && match groups[j].parent_id {
                Some(p) => reach_within(groups, root, p@, (k - 1) as nat),
                None => false,
            };
        let p = groups[j].parent_id->0;
        lemma_reach_in_closed(groups, root, d, p@, (k - 1) as nat);
    }
}

/// The ids of `root` and of every group below it, each once.
fn subtree_ids(groups: &Vec<SnippetGroup>, root: &String) -> (res: Vec<String>)
    ensures
        forall|x: Seq<char>| views(res@).contains(x) <==> in_subtree(groups@, root@, x),
{
    let ghost g = groups@;
    let ghost ids = g.map_values(|sg: SnippetGroup| sg.id@);
    let mut to_delete: Vec<String> = Vec::new();
    to_delete.push(root.clone());
    proof {
        assert(reach_within(g, root@, root@, 0));
        assert(views(to_delete@) =~= seq![root@]);
    }
    let mut i: usize = 0;
    while i < to_delete.len()
        invariant
            g == groups@,
            ids == g.map_values(|sg: SnippetGroup| sg.id@),
            1 <= to_delete@.len(),
            i <= to_delete@.len(),
            views(to_delete@)[0] == root@,
            views(to_delete@).no_duplicates(),
            forall|m: int| 0 <= m < to_delete@.len() ==> in_subtree(g, root@, #[trigger] views(to_delete@)[m]),
            forall|m: int| 1 <= m < to_delete@.len() ==> ids.contains(#[trigger] views(to_delete@)[m]),
            forall|j: int|
                0 <= j < g.len() && (#[trigger] g[j]).parent_id is Some && views(
                    to_delete@,
                ).take(i as int).contains(g[j].parent_id->0@) ==> views(to_delete@).contains(g[j].id@),
        decreases g.len() + 1 - i,
    {
        proof {
            lemma_distinct_within(views(to_delete@).drop_first(), ids);
        }
        let parent = to_delete[i].clone();
        let ghost parent_v = parent@;
        let mut j: usize = 0;
        while j < groups.len()
            invariant
                g == groups@,
                ids == g.map_values(|sg: SnippetGroup| sg.id@),
                1 <= to_delete@.len(),
                i < to_delete@.len(),
                j <= g.len(),
                parent_v == views(to_delete@)[i as int],
                parent@ == parent_v,
                views(to_delete@)[0] == root@,
                views(to_delete@).no_duplicates(),
                forall|m: int| 0 <= m < to_delete@.len() ==> in_subtree(g, root@, #[trigger] views(to_delete@)[m]),
                forall|m: int| 1 <= m < to_delete@.len() ==> ids.contains(#[trigger] views(to_delete@)[m]),
                forall|q: int|
                    0 <= q < g.len() && (#[trigger] g[q]).parent_id is Some && views(
                        to_delete@,
                    ).take(i as int).contains(g[q].parent_id->0@) ==> views(to_delete@).contains(g[q].id@),
                forall|q: int|
                    0 <= q < j && (#[trigger] g[q]).parent_id is Some && g[q].parent_id->0@ == parent_v
                        ==> views(to_delete@).contains(g[q].id@),
            decreases g.len() - j,
        {
            let is_child = match &groups[j].parent_id {
                Some(p) => *p == parent,
                None => false,
            };
            assert(is_child == (g[j as int].parent_id is Some && g[j as int].parent_id->0@
                == parent_v));
            if is_child && !contains_string(&to_delete, &groups[j].id) {
                let ghost before = to_delete@;
                proof {
                    assert(in_subtree(g, root@, views(to_delete@)[i as int]));
                    let k = choose|k: nat| reach_within(g, root@, parent_v, k);
                    assert(reach_within(g, root@, parent_v, k));
                    let gj = g[j as int];
                    assert(0 <= j < g.len() && g[j as int].id@ == gj.id@ && match g[j as int].parent_id {
                        Some(p) => reach_within(g, root@, p@, k),
                        None => false,
                    });
                    assert(reach_within(g, root@, gj.id@, k + 1));
                    assert(ids[j as int] == g[j as int].id@);
                }
                to_delete.push(groups[j].id.clone());
                proof {
                    assert(views(to_delete@) =~= views(before).push(g[j as int].id@));
                    assert(views(to_delete@).take(i as int) =~= views(before).take(i as int));
                    assert forall|x: Seq<char>| views(before).contains(x) implies views(
                        to_delete@,
                    ).contains(x) by {
                        let m = choose|m: int| 0 <= m < views(before).len() && views(before)[m] == x;
                        assert(views(to_delete@)[m] == x);
                    }
                    assert(views(to_delete@)[views(before).len() as int] == g[j as int].id@);
                }
            }
            j = j + 1;
        }
        proof {
            assert forall|q: int|
                0 <= q < g.len() && (#[trigger] g[q]).parent_id is Some && views(to_delete@).take(
                    i + 1,
                ).contains(g[q].parent_id->0@) implies views(to_delete@).contains(g[q].id@) by {
                let pv = g[q].parent_id->0@;
                let m = choose|m: int| 0 <= m < i + 1 && #[trigger] views(to_delete@).take(i + 1)[m] == pv;
                if m < i {
                    assert(views(to_delete@).take(i as int)[m] == pv);
                }
            }
        }
        i = i + 1;
    }
    proof {
        assert(views(to_delete@).take(i as int) =~= views(to_delete@));
        assert forall|x: Seq<char>| views(to_delete@).contains(x) <==> in_subtree(g, root@, x) by {
            if views(to_delete@).contains(x) {
                let m = choose|m: int| 0 <= m < views(to_delete@).len() && views(to_delete@)[m] == x;
                assert(in_subtree(g, root@, views(to_delete@)[m]));
            }
            if in_subtree(g, root@, x) {
                let k = choose|k: nat| reach_within(g, root@, x, k);
                assert(views(to_delete@)[0] == root@);
                lemma_reach_in_closed(g, root@, views(to_delete@), x, k);
            }
        }
    }
    to_delete
}

/// Deletes the group `group_id`, every group below it, and every command in any of them.
///
/// The groups below are found by following `parent_id` links downwards; each group is visited
/// once, so the deletion also finishes when those links form a cycle.
pub fn delete_snippet_group(config: &mut SnippetsConfig, group_id: &str)
    ensures
        final(config).groups@ == old(config).groups@.filter(
            group_outside_subtree(old(config).groups@, group_id@),
        ),
        final(config).commands@ == old(config).commands@.filter(
            command_outside_subtree(old(config).groups@, group_id@),
        ),
{
    let root = owned(group_id);
    let to_delete = subtree_ids(&config.groups, &root);
    let ghost g = config.groups@;
    let mut groups: Vec<SnippetGroup> = Vec::new();
    let mut i: usize = 0;
    while i < config.groups.len()
        invariant
            config == old(config),
            g == config.groups@,
            root@ == group_id@,
            forall|x: Seq<char>| views(to_delete@).contains(x) <==> in_subtree(g, root@, x),
            i <= config.groups@.len(),
            groups@ == config.groups@.take(i as int).filter(group_outside_subtree(g, root@)),
        decreases config.groups@.len() - i,
    {
        proof {
            lemma_filter_take_step(config.groups@, group_outside_subtree(g, root@), i as int);
        }
        if !contains_string(&to_delete, &config.groups[i].id) {
            groups.push(config.groups[i].clone());
        }
        i = i + 1;
    }
    assert(config.groups@.take(i as int) =~= config.groups@);
    let mut commands: Vec<SnippetCommand> = Vec::new();
    let mut j: usize = 0;
    while j < config.commands.len()
        invariant
            config == old(config),
            g == config.groups@,
            root@ == group_id@,
            forall|x: Seq<char>| views(to_delete@).contains(x) <==> in_subtree(g, root@, x),
            j <= config.commands@.len(),
            commands@ == config.commands@.take(j as int).filter(command_outside_subtree(g, root@)),
        decreases config.commands@.len() - j,
    {
        proof {
            lemma_filter_take_step(config.commands@, command_outside_subtree(g, root@), j as int);
        }
        let keep = match &config.commands[j].group_id {
            Some(gid) => !contains_string(&to_delete, gid),
            None => true,
        };
        if keep {
            commands.push(config.commands[j].clone());
        }
        j = j + 1;
    }
    assert(config.commands@.take(j as int) =~= config.commands@);
    config.groups = groups;
    config.commands = commands;
}

/// After deleting the subtree of `root`, no remaining group has a deleted parent and no
/// remaining command sits in a deleted group.
pub proof fn lemma_delete_snippet_group_leaves_no_orphans(old_config: SnippetsConfig, root: Seq<char>, new_config: SnippetsConfig)
    requires
        new_config.groups@ == old_config.groups@.filter(group_outside_subtree(old_config.groups@, root)),
        new_config.commands@ == old_config.commands@.filter(command_outside_subtree(old_config.groups@, root)),
    ensures
        forall|i: int|
            0 <= i < new_config.groups@.len() ==> !in_subtree(old_config.groups@, root, (#[trigger] new_config.groups@[i]).id@),
        forall|i: int|
            0 <= i < new_config.groups@.len() && (#[trigger] new_config.groups@[i]).parent_id is Some ==> !in_subtree(
                old_config.groups@,
                root,
                new_config.groups@[i].parent_id->0@,
            ),
        forall|i: int|
            0 <= i < new_config.commands@.len() && (#[trigger] new_config.commands@[i]).group_id is Some ==> !in_subtree(
                old_config.groups@,
                root,
                new_config.commands@[i].group_id->0@,
            ),
{
    let g = old_config.groups@;
    let pg = group_outside_subtree(g, root);
    let pc = command_outside_subtree(g, root);
    assert forall|i: int| 0 <= i < new_config.groups@.len() implies !in_subtree(g, root, (#[trigger] new_config.groups@[i]).id@) && g.contains(new_config.groups@[i]) by {
        g.lemma_filter_pred(pg, i);
        assert(g.filter(pg).contains(g.filter(pg)[i]));
        g.lemma_filter_contains_rev(pg, g.filter(pg)[i]);
    }
    assert forall|i: int|
        0 <= i < new_config.groups@.len() && (#[trigger] new_config.groups@[i]).parent_id is Some implies !in_subtree(
            g,
            root,
            new_config.groups@[i].parent_id->0@,
        ) by {
        let ng = new_config.groups@[i];
        let p = ng.parent_id->0@;
        assert(g.contains(ng));
        let j = choose|j: int| 0 <= j < g.len() && g[j] == ng;
        if in_subtree(g, root, p) {
            let k = choose|k: nat| reach_within(g, root, p, k);
            assert(0 <= j < g.len() && g[j].id@ == ng.id@ && match g[j].parent_id {
                Some(pp) => reach_within(g, root, pp@, k),
                None => false,
            });
            assert(reach_within(g, root, ng.id@, k + 1));
            assert(!in_subtree(g, root, ng.id@));
        }
    }
    assert forall|i: int|
        0 <= i < new_config.commands@.len() && (#[trigger] new_config.commands@[i]).group_id is Some implies !in_subtree(
            g,
            root,
            new_config.commands@[i].group_id->0@,
        ) by {
        old_config.commands@.lemma_filter_pred(pc, i);
    }
}

impl SnippetsConfig {
    /// The groups whose parent is `parent` (`None`: the top-level groups), in order.
    pub fn get_child_groups(&self, parent: Option<&str>) -> (res: Vec<SnippetGroup>)
        ensures
            res@ == self.groups@.filter(parent_is(opt_str_view(parent))),
    {
        let want: Option<String> = match parent {
            Some(p) => Some(owned(p)),
            None => None,
        };
        let mut res: Vec<SnippetGroup> = Vec::new();
        let mut i: usize = 0;
        while i < self.groups.len()
            invariant
                i <= self.groups@.len(),
                opt_view(want) == opt_str_view(parent),
                res@ == self.groups@.take(i as int).filter(parent_is(opt_str_view(parent))),
            decreases self.groups@.len() - i,
        {
            proof {
                lemma_filter_take_step(self.groups@, parent_is(opt_str_view(parent)), i as int);
            }
            if crate::text::opt_str_eq(&self.groups[i].parent_id, &want) {
                res.push(self.groups[i].clone());
            }
            i = i + 1;
        }
        assert(self.groups@.take(i as int) =~= self.groups@);
        res
    }

    /// The commands in group `group` (`None`: the top-level commands), in order.
    pub fn get_commands_in_group(&self, group: Option<&str>) -> (res: Vec<SnippetCommand>)
        ensures
            res@ == self.commands@.filter(in_group(opt_str_view(group))),
    {
        let want: Option<String> = match group {
            Some(p) => Some(owned(p)),
            None => None,
        };
        let mut res: Vec<SnippetCommand> = Vec::new();
        let mut i: usize = 0;
        while i < self.commands.len()
            invariant
                i <= self.commands@.len(),
                opt_view(want) == opt_str_view(group),
                res@ == self.commands@.take(i as int).filter(in_group(opt_str_view(group))),
            decreases self.commands@.len() - i,
        {
            proof {
                lemma_filter_take_step(self.commands@, in_group(opt_str_view(group)), i as int);
            }
            if crate::text::opt_str_eq(&self.commands[i].group_id, &want) {
                res.push(self.commands[i].clone());
            }
            i = i + 1;
        }
        assert(self.commands@.take(i as int) =~= self.commands@);
        res
    }
}

/// The text view of an optional `&str`.
pub open spec fn opt_str_view(o: Option<&str>) -> Option<Seq<char>> {
    match o {
        Some(s) => Some(s@),
        None => None,
    }
}

/// The group's parent is `parent`.
pub open spec fn parent_is(parent: Option<Seq<char>>) -> spec_fn(SnippetGroup) -> bool {
    |g: SnippetGroup| opt_view(g.parent_id) == parent
}

/// The command's group is `group`.
pub open spec fn in_group(group: Option<Seq<char>>) -> spec_fn(SnippetCommand) -> bool {
    |c: SnippetCommand| opt_view(c.group_id) == group
}

// ======================================================================
// Known hosts
// ======================================================================
/// The key under which a host is remembered: `"<host>:<port>"`.
pub open spec fn known_host_key_spec(host: Seq<char>, port: u16) -> Seq<char> {
    host.push(':') + decimal(port as nat)
}

/// The entry is remembered under `key`.
pub open spec fn host_key_is(key: Seq<char>) -> spec_fn(KnownHost) -> bool {
    |h: KnownHost| h.host@ == key
}

/// The entry is not remembered under `key`.
pub open spec fn host_key_is_not(key: Seq<char>) -> spec_fn(KnownHost) -> bool {
    |h: KnownHost| h.host@ != key
}

/// The key under which `host:port` is remembered.
pub fn known_host_key(host: &str, port: u16) -> (res: String)
    ensures
        res@ == known_host_key_spec(host@, port),
{
    let mut v = to_chars(host);
    v.push(':');
    let d = decimal_chars(port as u64);
    push_chars(&mut v, d.as_slice());
    from_chars(v.as_slice())
}

fn position_of_host(hosts: &Vec<KnownHost>, key: &String) -> (res: Option<usize>)
    ensures
        match res {
            Some(i) => i < hosts@.len() && first_match(hosts@, host_key_is(key@)) == Some(i as int),
            None => first_match(hosts@, host_key_is(key@)) is None,
        },
{
    let mut i: usize = 0;
    while i < hosts.len()
        invariant
            i <= hosts@.len(),
            none_before(hosts@, host_key_is(key@), i as int),
        decreases hosts@.len() - i,
    {
        if hosts[i].host == *key {
            proof {
                lemma_first_match_at(hosts@, host_key_is(key@), i as int);
            }
            return Some(i);
        }
        i = i + 1;
    }
    proof {
        lemma_first_match_none(hosts@, host_key_is(key@));
    }
    None
}

/// The first entry remembered for `host:port`.
pub fn find_known_host(config: &KnownHostsConfig, host: &str, port: u16) -> (res: Option<KnownHost>)
    ensures
        match first_match(config.hosts@, host_key_is(known_host_key_spec(host@, port))) {
            Some(i) => res == Some(config.hosts@[i]),
            None => res is None,
        },
{
    let key = known_host_key(host, port);
    match position_of_host(&config.hosts, &key) {
        Some(i) => Some(config.hosts[i].clone()),
        None => None,
    }
}

/// What recording the key `(key_type, fingerprint)` for `key` at time `now` does to the list:
/// the first entry under `key` gets the new key and `now` as its last use; without one, a new
/// entry first seen and last used at `now` is appended.
pub open spec fn upserted(
    old_hosts: Seq<KnownHost>,
    key: Seq<char>,
    key_type: Seq<char>,
    fingerprint: Seq<char>,
    now: Seq<char>,
    new_hosts: Seq<KnownHost>,
) -> bool {
    match first_match(old_hosts, host_key_is(key)) {
        Some(i) => {
            &&& new_hosts.len() == old_hosts.len()
            &&& forall|k: int| 0 <= k < old_hosts.len() && k != i ==> new_hosts[k] == old_hosts[k]
            &&& new_hosts[i].host == old_hosts[i].host
            &&& new_hosts[i].first_seen == old_hosts[i].first_seen
            &&& new_hosts[i].last_used@ == now
            &&& new_hosts[i].key_type@ == key_type
            &&& new_hosts[i].fingerprint@ == fingerprint
        },
        None => {
            &&& new_hosts.len() == old_hosts.len() + 1
            &&& new_hosts.take(old_hosts.len() as int) == old_hosts
            &&& new_hosts.last().host@ == key
            &&& new_hosts.last().key_type@ == key_type
            &&& new_hosts.last().fingerprint@ == fingerprint
            &&& new_hosts.last().first_seen@ == now
            &&& new_hosts.last().last_used@ == now
        },
    }
}

/// Records the key of `host:port`, stamped `now`.
pub fn upsert_known_host(
    config: &mut KnownHostsConfig,
    host: &str,
    port: u16,
    key_type: &str,
    fingerprint: &str,
    now: &str,
)
    ensures
        upserted(
            old(config).hosts@,
            known_host_key_spec(host@, port),
            key_type@,
            fingerprint@,
            now@,
            final(config).hosts@,
        ),
{
    let key = known_host_key(host, port);
    match position_of_host(&config.hosts, &key) {
        Some(i) => {
            let mut h = config.hosts[i].clone();
            h.last_used = owned(now);
            h.fingerprint = owned(fingerprint);
            h.key_type = owned(key_type);
            config.hosts.set(i, h);
        },
        None => {
            config.hosts.push(
                KnownHost {
                    host: key,
                    key_type: owned(key_type),
                    fingerprint: owned(fingerprint),
                    first_seen: owned(now),
                    last_used: owned(now),
                },
            );
            assert(config.hosts@.take(old(config).hosts@.len() as int) =~= old(config).hosts@);
        },
    }
}

/// Records the key of `host:port`, stamped with the local time (`%Y-%m-%d %H:%M:%S`).
pub fn add_known_host(config: &mut KnownHostsConfig, host: &str, port: u16, key_type: &str, fingerprint: &str)
    ensures
        exists|now: Seq<char>|
            upserted(
                old(config).hosts@,
                known_host_key_spec(host@, port),
                key_type@,
                fingerprint@,
                now,
                final(config).hosts@,
            ),
{
    let now = crate::clock::local_second_stamp();
    upsert_known_host(config, host, port, key_type, fingerprint, now.as_str());
}

/// Forgets every entry of `host:port`.
pub fn remove_known_host(config: &mut KnownHostsConfig, host: &str, port: u16)
    ensures
        final(config).hosts@ == old(config).hosts@.filter(
            host_key_is_not(known_host_key_spec(host@, port)),
        ),
{
    let key = known_host_key(host, port);
    let mut hosts: Vec<KnownHost> = Vec::new();
    let mut i: usize = 0;
    while i < config.hosts.len()
        invariant
            config == old(config),
            key@ == known_host_key_spec(host@, port),
            i <= config.hosts@.len(),
            hosts@ == config.hosts@.take(i as int).filter(host_key_is_not(key@)),
        decreases config.hosts@.len() - i,
    {
        proof {
            lemma_filter_take_step(config.hosts@, host_key_is_not(key@), i as int);
        }
        if config.hosts[i].host != key {
            hosts.push(config.hosts[i].clone());
        }
        i = i + 1;
    }
    assert(config.hosts@.take(i as int) =~= config.hosts@);
    config.hosts = hosts;
}

/// A key just recorded for a host is the one found for it afterwards: the first entry under
/// its key carries the recorded key type and fingerprint.
#[verifier::spinoff_prover]
pub proof fn lemma_recorded_key_is_found(
    old_hosts: Seq<KnownHost>,
    key: Seq<char>,
    key_type: Seq<char>,
    fingerprint: Seq<char>,
    now: Seq<char>,
    new_hosts: Seq<KnownHost>,
)
    requires
        upserted(old_hosts, key, key_type, fingerprint, now, new_hosts),
    ensures
        first_match(new_hosts, host_key_is(key)) matches Some(i) && new_hosts[i].key_type@ == key_type
            && new_hosts[i].fingerprint@ == fingerprint,
{
    let p = host_key_is(key);
    crate::seqs::lemma_first_match_props(old_hosts, p);
    match first_match(old_hosts, p) {
        Some(i) => {
            assert(p(new_hosts[i]));
            assert forall|k: int| 0 <= k < i implies #[trigger] new_hosts[k] == old_hosts[k] by {
                assert(k != i);
            }
            crate::seqs::lemma_match_kept(old_hosts, new_hosts, p, i);
        },
        None => {
            crate::seqs::lemma_match_appended(old_hosts, new_hosts, p);
        },
    }
}

/// After a host is forgotten, nothing is found for it.
pub proof fn lemma_removed_host_is_not_found(hosts: Seq<KnownHost>, key: Seq<char>)
    ensures
        first_match(hosts.filter(host_key_is_not(key)), host_key_is(key)) is None,
{
    let f = hosts.filter(host_key_is_not(key));
    assert forall|k: int| 0 <= k < f.len() implies !host_key_is(key)(#[trigger] f[k]) by {
        hosts.lemma_filter_pred(host_key_is_not(key), k);
    }
    lemma_first_match_none(f, host_key_is(key));
}

/// A server key the user chose to remember is trusted at the next connection: once recorded,
/// checking the same fingerprint against the entry found for the host trusts it.
pub proof fn lemma_saved_key_is_trusted(
    old_hosts: Seq<KnownHost>,
    key: Seq<char>,
    key_type: Seq<char>,
    fingerprint: Seq<char>,
    now: Seq<char>,
    new_hosts: Seq<KnownHost>,
    host: Seq<char>,
    port: u16,
    res: crate::ssh::handler::HostKeyCheck,
)
    requires
        upserted(old_hosts, key, key_type, fingerprint, now, new_hosts),
        crate::ssh::handler::host_key_check_spec(
            Ok(Some(new_hosts[first_match(new_hosts, host_key_is(key))->0])),
            host,
            port,
            key_type,
            fingerprint,
            res,
        ),
    ensures
        res is Trusted,
{
    lemma_recorded_key_is_found(old_hosts, key, key_type, fingerprint, now, new_hosts);
}

/// `new_hosts` is `old_hosts` where only the last use of entry `i` may differ.
pub open spec fn touched_at(old_hosts: Seq<KnownHost>, i: int, new_hosts: Seq<KnownHost>) -> bool {
    &&& new_hosts.len() == old_hosts.len()
    &&& forall|k: int| 0 <= k < old_hosts.len() && k != i ==> new_hosts[k] == old_hosts[k]
    &&& new_hosts[i].host == old_hosts[i].host
    &&& new_hosts[i].key_type == old_hosts[i].key_type
    &&& new_hosts[i].fingerprint == old_hosts[i].fingerprint
    &&& new_hosts[i].first_seen == old_hosts[i].first_seen
}

/// Sets the last use of the first entry of `host:port` to `now`; returns whether there was one.
pub fn set_known_host_last_used(config: &mut KnownHostsConfig, host: &str, port: u16, now: &str) -> (found: bool)
    ensures
        match first_match(old(config).hosts@, host_key_is(known_host_key_spec(host@, port))) {
            Some(i) => found && touched_at(old(config).hosts@, i, final(config).hosts@)
                && final(config).hosts@[i].last_used@ == now@,
            None => !found && final(config).hosts@ == old(config).hosts@,
        },
{
    let key = known_host_key(host, port);
    match position_of_host(&config.hosts, &key) {
        Some(i) => {
            let mut h = config.hosts[i].clone();
            h.last_used = owned(now);
            config.hosts.set(i, h);
            true
        },
        None => false,
    }
}

/// Sets the last use of the first entry of `host:port` to the local time; returns whether there
/// was one.
pub fn update_known_host_last_used(config: &mut KnownHostsConfig, host: &str, port: u16) -> (found: bool)
    ensures
        match first_match(old(config).hosts@, host_key_is(known_host_key_spec(host@, port))) {
            Some(i) => found && touched_at(old(config).hosts@, i, final(config).hosts@),
            None => !found && final(config).hosts@ == old(config).hosts@,
        },
{
    let now = crate::clock::local_second_stamp();
    set_known_host_last_used(config, host, port, now.as_str())
}

// ======================================================================
// Private key migration
// ======================================================================
/// The server still names its private key by a legacy path.
pub open spec fn uses_legacy_key(s: ServerData) -> bool {
    s.private_key_filename is None && s.private_key_path is Some
}

/// `s` after its key was stored as `stored` (when it was).
pub open spec fn migrated(s: ServerData, stored: Option<String>) -> ServerData {
    if uses_legacy_key(s) && stored is Some {
        ServerData { private_key_filename: stored, private_key_path: None, ..s }
    } else {
        s
    }
}

/// The servers whose key is still named by a legacy path, with that path, in order.
pub fn legacy_key_candidates(config: &ServerConfig) -> (res: Vec<(usize, String)>)
    ensures
        forall|k: int|
            0 <= k < res@.len() ==> (#[trigger] res@[k]).0 < config.servers@.len() && uses_legacy_key(
                config.servers@[res@[k].0 as int],
            ) && config.servers@[res@[k].0 as int].private_key_path == Some(res@[k].1),
        forall|k: int, l: int| 0 <= k < l < res@.len() ==> res@[k].0 < res@[l].0,
        forall|i: int|
            0 <= i < config.servers@.len() && uses_legacy_key(#[trigger] config.servers@[i]) ==> exists|k: int|
                0 <= k < res@.len() && res@[k].0 == i,
{
    let mut res: Vec<(usize, String)> = Vec::new();
    let mut i: usize = 0;
    while i < config.servers.len()
        invariant
            i <= config.servers@.len(),
            forall|k: int|
                0 <= k < res@.len() ==> (#[trigger] res@[k]).0 < i && uses_legacy_key(
                    config.servers@[res@[k].0 as int],
                ) && config.servers@[res@[k].0 as int].private_key_path == Some(res@[k].1),
            forall|k: int, l: int| 0 <= k < l < res@.len() ==> res@[k].0 < res@[l].0,
            forall|j: int|
                0 <= j < i && uses_legacy_key(#[trigger] config.servers@[j]) ==> exists|k: int|
                    0 <= k < res@.len() && res@[k].0 == j,
        decreases config.servers@.len() - i,
    {
        if config.servers[i].private_key_filename.is_none() {
            match &config.servers[i].private_key_path {
                Some(p) => {
                    let ghost before = res@;
                    res.push((i, p.clone()));
                    proof {
                        assert forall|j: int|
                            0 <= j < i && uses_legacy_key(#[trigger] config.servers@[j]) implies exists|k: int|
                                0 <= k < res@.len() && res@[k].0 == j by {
                            let k = choose|k: int| 0 <= k < before.len() && before[k].0 == j;
                            assert(res@[k] == before[k]);
                        }
                        assert(res@[before.len() as int].0 == i);
                    }
                },
                None => {},
            }
        }
        i = i + 1;
    }
    res
}

/// Applies the outcome of storing legacy keys: `stored[i]` is the file name under which the key
/// of server `i` was stored, if it was. Returns whether any server changed.
pub fn migrate_legacy_private_keys(config: &mut ServerConfig, stored: &Vec<Option<String>>) -> (updated: bool)
    requires
        stored@.len() == old(config).servers@.len(),
    ensures
        final(config).groups@ == old(config).groups@,
        final(config).servers@.len() == old(config).servers@.len(),
        forall|i: int|
            0 <= i < old(config).servers@.len() ==> #[trigger] final(config).servers@[i] == migrated(
                old(config).servers@[i],
                stored@[i],
            ),
        updated == exists|i: int|
            0 <= i < old(config).servers@.len() && uses_legacy_key(#[trigger] old(config).servers@[i])
                && stored@[i] is Some,
{
    let mut updated = false;
    let mut i: usize = 0;
    while i < config.servers.len()
        invariant
            stored@.len() == old(config).servers@.len(),
            config.groups@ == old(config).groups@,
            config.servers@.len() == old(config).servers@.len(),
            i <= config.servers@.len(),
            forall|k: int| 0 <= k < i ==> #[trigger] config.servers@[k] == migrated(old(config).servers@[k], stored@[k]),
            forall|k: int| i <= k < config.servers@.len() ==> #[trigger] config.servers@[k] == old(config).servers@[k],
            updated == exists|k: int|
                0 <= k < i && uses_legacy_key(#[trigger] old(config).servers@[k]) && stored@[k] is Some,
        decreases config.servers@.len() - i,
    {
        let legacy = config.servers[i].private_key_filename.is_none() && config.servers[i].private_key_path.is_some();
        if legacy {
            match &stored[i] {
                Some(name) => {
                    let mut s = config.servers[i].clone();
                    s.private_key_filename = Some(name.clone());
                    s.private_key_path = None;
                    config.servers.set(i, s);
                    updated = true;
                },
                None => {},
            }
        }
        proof {
            assert(config.servers@[i as int] == migrated(old(config).servers@[i as int], stored@[i as int]));
        }
        i = i + 1;
    }
    updated
}

} // verus!
