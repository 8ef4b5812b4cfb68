//! The command tree: groups of commands, commands with their subcommands, and
//! how granted command permissions cascade down the tree.
use vstd::prelude::*;
use vstd::multiset::Multiset;
use vstd::string::StrSliceExecFns;

use crate::perms::{
    has_all, ABOUT_COMMAND, BASIC_GROUP, BOT_ADMIN, COINFLIP_COMMAND, CONFIG_COMMAND, EMBED_LINKS,
    EMOJI_COMMAND, EMOJI_LIST_COMMAND, GUILD_ADMIN_GROUP, MISC_GROUP, MODERATION_GROUP,
    PING_COMMAND, QUOTE_COMMAND, READ_CONFIG, UID_COMMAND, USERINFO_COMMAND, WRITE_CONFIG,
};
use vstd::string::StringExecFns;

verus! {

/// The groups commands belong to.
#[derive(Clone, Copy, Debug, PartialEq, Eq, Hash, Structural)]
pub enum CommandGroup {
    Basic,
    GuildAdmin,
    Moderation,
    BotAdmin,
    Misc,
}

/// The permission that grants a whole group.
pub open spec fn group_permission(g: CommandGroup) -> u64 {
    match g {
        CommandGroup::Basic => BASIC_GROUP,
        CommandGroup::GuildAdmin => GUILD_ADMIN_GROUP,
        CommandGroup::Moderation => MODERATION_GROUP,
        CommandGroup::BotAdmin => BOT_ADMIN,
        CommandGroup::Misc => MISC_GROUP,
    }
}

/// The name of a group.
pub open spec fn group_name(g: CommandGroup) -> Seq<char> {
    match g {
        CommandGroup::Basic => "basic"@,
        CommandGroup::GuildAdmin => "guild_admin"@,
        CommandGroup::Moderation => "moderation"@,
        CommandGroup::BotAdmin => "bot_admin"@,
        CommandGroup::Misc => "misc"@,
    }
}

impl CommandGroup {
    /// The permission that grants the whole group.
    pub fn get_permission(&self) -> (r: u64)
        ensures
            r == group_permission(*self),
    {
        match self {
            CommandGroup::Basic => BASIC_GROUP,
            CommandGroup::GuildAdmin => GUILD_ADMIN_GROUP,
            CommandGroup::Moderation => MODERATION_GROUP,
            CommandGroup::BotAdmin => BOT_ADMIN,
            CommandGroup::Misc => MISC_GROUP,
        }
    }

    /// The group's name.
    pub fn get_name(&self) -> (r: &'static str)
        ensures
            r@ == group_name(*self),
    {
        match self {
            CommandGroup::Basic => "basic",
            CommandGroup::GuildAdmin => "guild_admin",
            CommandGroup::Moderation => "moderation",
            CommandGroup::BotAdmin => "bot_admin",
            CommandGroup::Misc => "misc",
        }
    }
}

/// A command: its name and aliases, whether it does something itself (a
/// handler) or only groups subcommands, the Discord permissions the bot needs
/// to run it, the command permission a member needs, its group, and its
/// subcommands.
pub struct CommandNode {
    pub name: String,
    pub has_handler: bool,
    pub node_list: Vec<CommandNode>,
    pub bot_permissions: u64,
    pub command_permission: u64,
    pub group: CommandGroup,
    pub aliases: Vec<String>,
}

/// The command is denied: a deny that no grant negated holds its permission,
/// or its parent is not available and the permission was not granted.
pub open spec fn node_denied(
    perms: u64,
    denies: u64,
    node: CommandNode,
    parent_available: bool,
) -> bool {
    has_all(denies, node.command_permission) || (!parent_available && !has_all(
        perms,
        node.command_permission,
    ))
}

/// The permissions after cascading through a command: a command that is not
/// denied is granted; its subcommands follow, available when it is not
/// denied; a denied command without a handler and without a deny of its own
/// is still granted when one of its subcommands is, since it then only shows
/// help.
pub open spec fn cascade_node_result(
    perms: u64,
    denies: u64,
    node: CommandNode,
    parent_available: bool,
) -> u64
    decreases node,
{
    let denied = node_denied(perms, denies, node, parent_available);
    let p1 = if denied {
        perms
    } else {
        perms | node.command_permission
    };
    let (p2, any) = cascade_list_result(p1, denies, node.node_list@, !denied);
    if denied && !has_all(denies, node.command_permission) && any && !node.has_handler {
        p2 | node.command_permission
    } else {
        p2
    }
}

/// The permissions after cascading through the commands one after the other,
/// and whether any of them ended up granted.
pub open spec fn cascade_list_result(
    perms: u64,
    denies: u64,
    nodes: Seq<CommandNode>,
    available: bool,
) -> (u64, bool)
    decreases nodes,
{
    if nodes.len() == 0 {
        (perms, false)
    } else {
        let (p, any) = cascade_list_result(perms, denies, nodes.drop_last(), available);
        let p2 = cascade_node_result(p, denies, nodes.last(), available);
        (p2, any || has_all(p2, nodes.last().command_permission))
    }
}

/// Cascades granted permissions through a command and its subcommands.
pub fn cascade_node(
    permissions: &mut u64,
    not_negated_denies: u64,
    node: &CommandNode,
    parent_available: bool,
)
    ensures
        *final(permissions) == cascade_node_result(
            *old(permissions),
            not_negated_denies,
            *node,
            parent_available,
        ),
    decreases node,
{
    let perm = node.command_permission;
    let denied = (not_negated_denies & perm == perm) || (!parent_available && !(*permissions & perm
        == perm));
    if !denied {
        *permissions = *permissions | perm;
    }
    let ghost p1 = *permissions;
    let mut any_granted = false;
    let mut i: usize = 0;
    while i < node.node_list.len()
        invariant
            i <= node.node_list.len(),
            (*permissions, any_granted) == cascade_list_result(
                p1,
                not_negated_denies,
                node.node_list@.take(i as int),
                !denied,
            ),
        decreases node.node_list.len() - i,
    {
        let child = &node.node_list[i];
        proof {
            assert(decreases_to!(*node => node.node_list));
            assert(decreases_to!(node.node_list => node.node_list@));
            assert(decreases_to!(node.node_list@ => node.node_list@[i as int]));
        }
        cascade_node(permissions, not_negated_denies, child, !denied);
        if *permissions & child.command_permission == child.command_permission {
            any_granted = true;
        }
        proof {
            assert(node.node_list@.take(i + 1).drop_last() == node.node_list@.take(i as int));
            assert(node.node_list@.take(i + 1).last() == *child);
        }
        i = i + 1;
    }
    proof {
        assert(node.node_list@.take(node.node_list.len() as int) == node.node_list@);
    }
    if denied && !(not_negated_denies & perm == perm) && any_granted && !node.has_handler {
        *permissions = *permissions | perm;
    }
}

/// Comparing two names from position `i` on, character by character: the
/// first name comes first (or ties) when it runs out first or has the smaller
/// character at the first difference.
pub open spec fn name_le_from(a: Seq<char>, b: Seq<char>, i: int) -> bool
    decreases a.len() - i,
{
    if i >= a.len() {
        true
    } else if i >= b.len() {
        false
    } else if a[i] != b[i] {
        a[i] < b[i]
    } else {
        name_le_from(a, b, i + 1)
    }
}

/// The name `a` sorts before `b` or ties with it (the order of Rust's string
/// comparison).
pub open spec fn name_le(a: Seq<char>, b: Seq<char>) -> bool {
    name_le_from(a, b, 0)
}

proof fn lemma_name_le_total(a: Seq<char>, b: Seq<char>, i: int)
    requires
        0 <= i,
    ensures
        name_le_from(a, b, i) || name_le_from(b, a, i),
    decreases a.len() - i,
{
    if i < a.len() && i < b.len() && a[i] == b[i] {
        lemma_name_le_total(a, b, i + 1);
    }
}

/// Whether name `a` sorts before `b` or ties with it.
pub fn name_le_exec(a: &str, b: &str) -> (r: bool)
    ensures
        r == name_le(a@, b@),
{
    let la = a.unicode_len();
    let lb = b.unicode_len();
    let mut i: usize = 0;
    while i < la
        invariant
            i <= la,
            la == a@.len(),
            lb == b@.len(),
            i <= lb,
            name_le(a@, b@) == name_le_from(a@, b@, i as int),
            forall|j: int| 0 <= j < i ==> a@[j] == b@[j],
        decreases la - i,
    {
        if i >= lb {
            return false;
        }
        let ca = a.get_char(i);
        let cb = b.get_char(i);
        if ca != cb {
            return ca < cb;
        }
        i = i + 1;
    }
    true
}

/// The commands are in order of their names.
pub open spec fn sorted_by_name(nodes: Seq<CommandNode>) -> bool {
    forall|i: int| 0 <= i < nodes.len() - 1 ==> name_le(#[trigger] nodes[i].name@, nodes[i + 1].name@)
}

/// The name, or one of the aliases, of the command is `name`.
pub open spec fn answers_to(node: CommandNode, name: Seq<char>) -> bool {
    node.name@ == name || exists|i: int| 0 <= i < node.aliases@.len() && #[trigger] node.aliases@[i]@ == name
}

/// The names a command registers: its name, then its aliases.
pub open spec fn names_of(node: CommandNode) -> Seq<Seq<char>> {
    seq![node.name@] + node.aliases@.map_values(|a: String| a@)
}

/// Every name the commands register, one command after the other.
pub open spec fn registered_names(nodes: Seq<CommandNode>) -> Seq<Seq<char>>
    decreases nodes.len(),
{
    if nodes.len() == 0 {
        Seq::empty()
    } else {
        registered_names(nodes.drop_last()) + names_of(nodes.last())
    }
}

/// No name is registered twice.
pub open spec fn registrable(nodes: Seq<CommandNode>) -> bool {
    registered_names(nodes).no_duplicates()
}

/// Every name the commands register, in order.
pub fn list_names(nodes: &Vec<CommandNode>) -> (r: Vec<String>)
    ensures
        r@.map_values(|s: String| s@) == registered_names(nodes@),
{
    let mut out: Vec<String> = Vec::new();
    let mut i: usize = 0;
    while i < nodes.len()
        invariant
            i <= nodes.len(),
            out@.map_values(|s: String| s@) == registered_names(nodes@.take(i as int)),
        decreases nodes.len() - i,
    {
        let node = &nodes[i];
        let ghost start = out@.map_values(|s: String| s@);
        let ghost before = out@;
        out.push(node.name.clone());
        proof {
            assert(out@ == before.push(node.name));
            assert(out@.map_values(|s: String| s@) =~= start.push(node.name@));
            assert(node.aliases@.take(0).map_values(|a: String| a@) =~= Seq::<Seq<char>>::empty());
            assert(out@.map_values(|s: String| s@) =~= start + seq![node.name@] + node.aliases@.take(
                0,
            ).map_values(|a: String| a@));
        }
        let mut j: usize = 0;
        while j < node.aliases.len()
            invariant
                j <= node.aliases.len(),
                out@.map_values(|s: String| s@) == start + seq![node.name@] + node.aliases@.take(
                    j as int,
                ).map_values(|a: String| a@),
            decreases node.aliases.len() - j,
        {
            let ghost before = out@;
            out.push(node.aliases[j].clone());
            proof {
                assert(out@ == before.push(node.aliases@[j as int]));
                assert(out@.map_values(|s: String| s@) =~= before.map_values(|s: String| s@).push(
                    node.aliases@[j as int]@,
                ));
                assert(node.aliases@.take(j + 1).map_values(|a: String| a@) == node.aliases@.take(
                    j as int,
                ).map_values(|a: String| a@).push(node.aliases@[j as int]@));
                assert(out@.map_values(|s: String| s@) =~= start + seq![node.name@] + node.aliases@.take(
                    j + 1,
                ).map_values(|a: String| a@));
            }
            j = j + 1;
        }
        proof {
            assert(node.aliases@.take(node.aliases.len() as int) == node.aliases@);
            assert(nodes@.take(i + 1).drop_last() == nodes@.take(i as int));
            assert(nodes@.take(i + 1).last() == *node);
            assert(out@.map_values(|s: String| s@) =~= registered_names(nodes@.take(i + 1)));
        }
        i = i + 1;
    }
    proof {
        assert(nodes@.take(nodes.len() as int) == nodes@);
    }
    out
}

/// The first name registered a second time, if any: the registration of the
/// command tree refuses such a name.
pub fn find_conflict(nodes: &Vec<CommandNode>) -> (r: Option<String>)
    ensures
        r is None <==> registrable(nodes@),
        r matches Some(name) ==> exists|i: int, j: int|
            0 <= i < j < registered_names(nodes@).len() && registered_names(nodes@)[i] == name@
                && registered_names(nodes@)[j] == name@,
{
    let names = list_names(nodes);
    let ghost view = names@.map_values(|s: String| s@);
    let mut j: usize = 0;
    while j < names.len()
        invariant
            j <= names.len(),
            view == names@.map_values(|s: String| s@),
            view == registered_names(nodes@),
            forall|a: int, b: int| 0 <= a < b < j ==> view[a] != view[b],
        decreases names.len() - j,
    {
        let mut i: usize = 0;
        while i < j
            invariant
                i <= j,
                j < names.len(),
                view == names@.map_values(|s: String| s@),
                view == registered_names(nodes@),
                forall|a: int| 0 <= a < i ==> view[a] != view[j as int],
            decreases j - i,
        {
            if str_eq(names[i].as_str(), names[j].as_str()) {
                proof {
                    assert(view[i as int] == names@[i as int]@);
                    assert(view[j as int] == names@[j as int]@);
                    assert(!view.no_duplicates());
                }
                let name = names[j].clone();
                proof {
                    assert(0 <= i < j < registered_names(nodes@).len() && registered_names(nodes@)[i as int]
                        == name@ && registered_names(nodes@)[j as int] == name@);
                }
                return Some(name);
            }
            i = i + 1;
        }
        j = j + 1;
    }
    None
}

/// The commands of one group, by their place in the command list.
pub struct GroupCommands {
    pub group: CommandGroup,
    pub indices: Vec<usize>,
}

/// The command tree: the top-level commands in order of their names, their
/// places by group (groups in order of their first command), and the groups
/// shown in help.
pub struct RootNode {
    pub command_list: Vec<CommandNode>,
    pub by_group: Vec<GroupCommands>,
    pub groups: Vec<CommandGroup>,
}

/// The places of the commands of group `g`, in order.
pub open spec fn group_indices(nodes: Seq<CommandNode>, g: CommandGroup) -> Seq<usize>
    decreases nodes.len(),
{
    if nodes.len() == 0 {
        Seq::empty()
    } else if nodes.last().group == g {
        group_indices(nodes.drop_last(), g).push((nodes.len() - 1) as usize)
    } else {
        group_indices(nodes.drop_last(), g)
    }
}

/// The groups of the commands, each once, in order of its first command.
pub open spec fn groups_in_order(nodes: Seq<CommandNode>) -> Seq<CommandGroup>
    decreases nodes.len(),
{
    if nodes.len() == 0 {
        Seq::empty()
    } else if groups_in_order(nodes.drop_last()).contains(nodes.last().group) {
        groups_in_order(nodes.drop_last())
    } else {
        groups_in_order(nodes.drop_last()).push(nodes.last().group)
    }
}

/// The index of commands by group: one entry per group, in order of its first
/// command, with the places of its commands in order.
pub open spec fn indexed_by_group(by_group: Seq<GroupCommands>, nodes: Seq<CommandNode>) -> bool {
    &&& by_group.len() == groups_in_order(nodes).len()
    &&& forall|k: int|
        0 <= k < by_group.len() ==> (#[trigger] by_group[k]).group == groups_in_order(nodes)[k]
            && by_group[k].indices@ == group_indices(nodes, by_group[k].group)
}

/// Sorts the commands by name, keeping the order of commands with equal
/// names.
fn sort_by_name(commands: Vec<CommandNode>) -> (r: Vec<CommandNode>)
    ensures
        sorted_by_name(r@),
        r@.to_multiset() == commands@.to_multiset(),
{
    let mut rest = commands;
    let mut sorted: Vec<CommandNode> = Vec::new();
    let ghost all = rest@;
    proof {
        broadcast use {
            vstd::multiset::group_multiset_axioms,
            vstd::multiset::lemma_multiset_empty_len,
            vstd::seq_lib::group_to_multiset_ensures,
        };
        assert(sorted@.to_multiset() =~= Multiset::<CommandNode>::empty());
        assert(sorted@.to_multiset().add(rest@.to_multiset()) =~= all.to_multiset());
    }
    while rest.len() > 0
        invariant
            sorted_by_name(sorted@),
            sorted@.to_multiset().add(rest@.to_multiset()) == all.to_multiset(),
        decreases rest.len(),
    {
        let ghost rest_before = rest@;
        let node = rest.remove(0);
        let ghost removed = node;
        let mut p: usize = 0;
        while p < sorted.len() && name_le_exec(sorted[p].name.as_str(), node.name.as_str())
            invariant
                p <= sorted.len(),
                sorted_by_name(sorted@),
                forall|j: int| 0 <= j < p ==> name_le(#[trigger] sorted@[j].name@, node.name@),
            decreases sorted.len() - p,
        {
            p = p + 1;
        }
        let ghost before = sorted@;
        proof {
            if p < sorted.len() {
                assert(!name_le(sorted@[p as int].name@, node.name@));
                lemma_name_le_total(sorted@[p as int].name@, node.name@, 0);
            }
        }
        sorted.insert(p, node);
        proof {
            assert(sorted@ == before.insert(p as int, removed));
            assert forall|i: int| 0 <= i < sorted@.len() - 1 implies name_le(
                #[trigger] sorted@[i].name@,
                sorted@[i + 1].name@,
            ) by {
                if i < p - 1 {
                    assert(sorted@[i] == before[i] && sorted@[i + 1] == before[i + 1]);
                } else if i == p - 1 {
                    assert(sorted@[i] == before[i]);
                } else if i == p {
                } else {
                    assert(sorted@[i] == before[i - 1] && sorted@[i + 1] == before[i]);
                }
            }
            vstd::seq_lib::to_multiset_insert(before, p as int, removed);
            vstd::seq_lib::to_multiset_remove(rest_before, 0);
            broadcast use vstd::multiset::group_multiset_axioms;
            assert(rest_before[0] == removed);
            assert(rest@ == rest_before.remove(0));
            assert(rest_before.contains(removed));
            vstd::seq_lib::to_multiset_contains(rest_before, removed);
            assert(rest_before.to_multiset().count(removed) > 0);
            assert(sorted@.to_multiset().add(rest@.to_multiset()) =~= all.to_multiset());
        }
    }
    proof {
        broadcast use {
            vstd::multiset::group_multiset_axioms,
            vstd::multiset::lemma_multiset_empty_len,
            vstd::seq_lib::group_to_multiset_ensures,
        };
        assert(rest@.to_multiset() =~= Multiset::<CommandNode>::empty());
        assert(sorted@.to_multiset() =~= all.to_multiset());
    }
    sorted
}

impl RootNode {
    /// The command tree of the given top-level commands: sorted by name and
    /// indexed by group. Help shows the basic, moderation and guild admin
    /// groups.
    pub fn new(commands: Vec<CommandNode>) -> (r: RootNode)
        requires
            registrable(commands@),
        ensures
            sorted_by_name(r.command_list@),
            r.command_list@.to_multiset() == commands@.to_multiset(),
            indexed_by_group(r.by_group@, r.command_list@),
            r.groups@ == seq![CommandGroup::Basic, CommandGroup::Moderation, CommandGroup::GuildAdmin],
    {
        let command_list = sort_by_name(commands);
        let by_group = index_groups(&command_list);
        let mut groups: Vec<CommandGroup> = Vec::new();
        groups.push(CommandGroup::Basic);
        groups.push(CommandGroup::Moderation);
        groups.push(CommandGroup::GuildAdmin);
        RootNode { command_list, by_group, groups }
    }

    /// The top-level command that answers to this name or alias, if any.
    pub fn find_command(&self, name: &str) -> (r: Option<&CommandNode>)
        ensures
            match r {
                Some(node) => self.command_list@.contains(*node) && answers_to(*node, name@),
                None => forall|i: int|
                    0 <= i < self.command_list@.len() ==> !answers_to(
                        #[trigger] self.command_list@[i],
                        name@,
                    ),
            },
    {
        let mut i: usize = 0;
        while i < self.command_list.len()
            invariant
                i <= self.command_list.len(),
                forall|j: int| 0 <= j < i ==> !answers_to(#[trigger] self.command_list@[j], name@),
            decreases self.command_list.len() - i,
        {
            let node = &self.command_list[i];
            if answers(node, name) {
                return Some(node);
            }
            i = i + 1;
        }
        None
    }
}

/// Whether the command answers to this name or alias.
pub fn answers(node: &CommandNode, name: &str) -> (r: bool)
    ensures
        r == answers_to(*node, name@),
{
    if str_eq(node.name.as_str(), name) {
        return true;
    }
    let mut i: usize = 0;
    while i < node.aliases.len()
        invariant
            i <= node.aliases.len(),
            node.name@ != name@,
            forall|j: int| 0 <= j < i ==> #[trigger] node.aliases@[j]@ != name@,
        decreases node.aliases.len() - i,
    {
        if str_eq(node.aliases[i].as_str(), name) {
            return true;
        }
        i = i + 1;
    }
    false
}

/// Whether two texts are the same.
pub fn str_eq(a: &str, b: &str) -> (r: bool)
    ensures
        r == (a@ == b@),
{
    let la = a.unicode_len();
    let lb = b.unicode_len();
    if la != lb {
        return false;
    }
    let mut i: usize = 0;
    while i < la
        invariant
            i <= la,
            la == a@.len(),
            lb == b@.len(),
            la == lb,
            forall|j: int| 0 <= j < i ==> a@[j] == b@[j],
        decreases la - i,
    {
        if a.get_char(i) != b.get_char(i) {
            return false;
        }
        i = i + 1;
    }
    assert(a@ =~= b@);
    true
}

/// The places of the commands by group, groups in order of their first
/// command.
fn index_groups(nodes: &Vec<CommandNode>) -> (r: Vec<GroupCommands>)
    ensures
        indexed_by_group(r@, nodes@),
{
    let mut out: Vec<GroupCommands> = Vec::new();
    let mut i: usize = 0;
    while i < nodes.len()
        invariant
            i <= nodes.len(),
            indexed_by_group(out@, nodes@.take(i as int)),
        decreases nodes.len() - i,
    {
        let g = nodes[i].group;
        let mut k: usize = 0;
        while k < out.len() && out[k].group != g
            invariant
                k <= out.len(),
                forall|j: int| 0 <= j < k ==> (#[trigger] out@[j]).group != g,
            decreases out.len() - k,
        {
            k = k + 1;
        }
        let ghost prefix = nodes@.take(i as int);
        let ghost next = nodes@.take(i + 1);
        let ghost before = out@;
        proof {
            assert(next.drop_last() == prefix);
            assert(next.last() == nodes@[i as int]);
        }
        if k < out.len() {
            let mut entry = out.remove(k);
            entry.indices.push(i);
            out.insert(k, entry);
            proof {
                assert(groups_in_order(prefix).contains(g)) by {
                    assert(groups_in_order(prefix)[k as int] == g);
                }
                assert forall|j: int| 0 <= j < out@.len() implies (#[trigger] out@[j]).group == groups_in_order(next)[j]
                    && out@[j].indices@ == group_indices(next, out@[j].group) by {
                    if j != k {
                        assert(out@[j] == before[j]);
                        lemma_groups_distinct(prefix, j, k as int);
                    }
                }
            }
        } else {
            let mut indices: Vec<usize> = Vec::new();
            indices.push(i);
            out.push(GroupCommands { group: g, indices });
            proof {
                assert(!groups_in_order(prefix).contains(g)) by {
                    if groups_in_order(prefix).contains(g) {
                        let j = choose|j: int| 0 <= j < groups_in_order(prefix).len() && groups_in_order(prefix)[j] == g;
                        assert(before[j].group == g);
                    }
                }
                lemma_group_indices_absent(prefix, g);
                assert forall|j: int| 0 <= j < out@.len() implies (#[trigger] out@[j]).group == groups_in_order(next)[j]
                    && out@[j].indices@ == group_indices(next, out@[j].group) by {
                    if j < before.len() {
                        assert(out@[j] == before[j]);
                        assert(before[j].group != g);
                    }
                }
            }
        }
        i = i + 1;
    }
    proof {
        assert(nodes@.take(nodes.len() as int) == nodes@);
    }
    out
}

/// The groups in order of first command are all different.
proof fn lemma_groups_distinct(nodes: Seq<CommandNode>, a: int, b: int)
    requires
        0 <= a < groups_in_order(nodes).len(),
        0 <= b < groups_in_order(nodes).len(),
        a != b,
    ensures
        groups_in_order(nodes)[a] != groups_in_order(nodes)[b],
    decreases nodes.len(),
{
    let p = nodes.drop_last();
    if nodes.len() > 0 {
        if groups_in_order(p).contains(nodes.last().group) {
            lemma_groups_distinct(p, a, b);
        } else {
            let n = groups_in_order(p).len() as int;
            if a < n && b < n {
                lemma_groups_distinct(p, a, b);
            } else if a == n {
                assert(groups_in_order(p)[b] != nodes.last().group);
            } else {
                assert(groups_in_order(p)[a] != nodes.last().group);
            }
        }
    }
}

/// A group that no command has yet has no places.
proof fn lemma_group_indices_absent(nodes: Seq<CommandNode>, g: CommandGroup)
    requires
        !groups_in_order(nodes).contains(g),
    ensures
        group_indices(nodes, g) == Seq::<usize>::empty(),
    decreases nodes.len(),
{
    if nodes.len() > 0 {
        let p = nodes.drop_last();
        if nodes.last().group == g {
            if !groups_in_order(p).contains(g) {
                assert(groups_in_order(nodes).last() == g);
                assert(groups_in_order(nodes).contains(g));
            } else {
                assert(groups_in_order(nodes) == groups_in_order(p));
            }
        }
        assert(!groups_in_order(p).contains(g)) by {
            if groups_in_order(p).contains(g) {
                let j = choose|j: int| 0 <= j < groups_in_order(p).len() && groups_in_order(p)[j] == g;
                assert(groups_in_order(nodes)[j] == g);
            }
        }
        lemma_group_indices_absent(p, g);
    }
}

/// The permissions after cascading through the listed commands of a group
/// one after the other: each command's parent is available when the group's
/// permission is granted (at that point) and not denied.
pub open spec fn cascade_group_result(
    perms: u64,
    denies: u64,
    group_perm: u64,
    nodes: Seq<CommandNode>,
    indices: Seq<usize>,
) -> u64
    decreases indices.len(),
{
    if indices.len() == 0 {
        perms
    } else {
        let p = cascade_group_result(perms, denies, group_perm, nodes, indices.drop_last());
        let denied = has_all(denies, group_perm) || !has_all(p, group_perm);
        cascade_node_result(p, denies, nodes[indices.last() as int], !denied)
    }
}

/// The permissions after cascading through every group of the tree in turn.
pub open spec fn cascade_groups_result(
    perms: u64,
    denies: u64,
    nodes: Seq<CommandNode>,
    groups: Seq<GroupCommands>,
) -> u64
    decreases groups.len(),
{
    if groups.len() == 0 {
        perms
    } else {
        cascade_group_result(
            cascade_groups_result(perms, denies, nodes, groups.drop_last()),
            denies,
            group_permission(groups.last().group),
            nodes,
            groups.last().indices@,
        )
    }
}

/// Cascades granted permissions down the command tree, group by group.
pub fn cascade_groups(permissions: &mut u64, not_negated_denies: u64, root: &RootNode)
    requires
        forall|k: int, j: int|
            0 <= k < root.by_group@.len() && 0 <= j < root.by_group@[k].indices@.len()
                ==> #[trigger] root.by_group@[k].indices@[j] < root.command_list@.len(),
    ensures
        *final(permissions) == cascade_groups_result(
            *old(permissions),
            not_negated_denies,
            root.command_list@,
            root.by_group@,
        ),
{
    let mut k: usize = 0;
    while k < root.by_group.len()
        invariant
            k <= root.by_group.len(),
            forall|a: int, j: int|
                0 <= a < root.by_group@.len() && 0 <= j < root.by_group@[a].indices@.len()
                    ==> #[trigger] root.by_group@[a].indices@[j] < root.command_list@.len(),
            *permissions == cascade_groups_result(
                *old(permissions),
                not_negated_denies,
                root.command_list@,
                root.by_group@.take(k as int),
            ),
        decreases root.by_group.len() - k,
    {
        let entry = &root.by_group[k];
        let gp = entry.group.get_permission();
        let ghost start = *permissions;
        let mut j: usize = 0;
        while j < entry.indices.len()
            invariant
                j <= entry.indices.len(),
                k < root.by_group.len(),
                *entry == root.by_group@[k as int],
                gp == group_permission(entry.group),
                forall|a: int, b: int|
                    0 <= a < root.by_group@.len() && 0 <= b < root.by_group@[a].indices@.len()
                        ==> #[trigger] root.by_group@[a].indices@[b] < root.command_list@.len(),
                *permissions == cascade_group_result(
                    start,
                    not_negated_denies,
                    gp,
                    root.command_list@,
                    entry.indices@.take(j as int),
                ),
            decreases entry.indices.len() - j,
        {
            let index = entry.indices[j];
            assert(root.by_group@[k as int].indices@[j as int] < root.command_list@.len());
            let denied = (not_negated_denies & gp == gp) || !(*permissions & gp == gp);
            cascade_node(permissions, not_negated_denies, &root.command_list[index], !denied);
            proof {
                assert(entry.indices@.take(j + 1).drop_last() == entry.indices@.take(j as int));
                assert(entry.indices@.take(j + 1).last() == index);
            }
            j = j + 1;
        }
        proof {
            assert(entry.indices@.take(entry.indices.len() as int) == entry.indices@);
            assert(root.by_group@.take(k + 1).drop_last() == root.by_group@.take(k as int));
            assert(root.by_group@.take(k + 1).last() == *entry);
        }
        k = k + 1;
    }
    proof {
        assert(root.by_group@.take(root.by_group.len() as int) == root.by_group@);
    }
}

/// A command with the given fields and subcommands.
fn node(
    name: &str,
    aliases: Vec<String>,
    has_handler: bool,
    bot_permissions: u64,
    command_permission: u64,
    group: CommandGroup,
    node_list: Vec<CommandNode>,
) -> (r: CommandNode)
    ensures
        r.name@ == name@,
        r.aliases == aliases,
        r.has_handler == has_handler,
        r.bot_permissions == bot_permissions,
        r.command_permission == command_permission,
        r.group == group,
        r.node_list == node_list,
{
    CommandNode {
        name: String::from_str(name),
        has_handler,
        node_list,
        bot_permissions,
        command_permission,
        group,
        aliases,
    }
}

/// A list holding one alias.
fn alias(a: &str) -> (r: Vec<String>)
    ensures
        r@.len() == 1,
        r@[0]@ == a@,
{
    let mut v: Vec<String> = Vec::new();
    v.push(String::from_str(a));
    v
}

/// The command is `name`, grants `perm`, belongs to `group`, and has or lacks
/// a handler and subcommands as given.
pub open spec fn command_is(
    c: CommandNode,
    name: Seq<char>,
    perm: u64,
    group: CommandGroup,
    has_handler: bool,
    subcommands: nat,
) -> bool {
    &&& c.name@ == name
    &&& c.command_permission == perm
    &&& c.group == group
    &&& c.has_handler == has_handler
    &&& c.node_list@.len() == subcommands
}

/// The bot's commands: about, coinflip, ping, quote and uid (basic); config
/// with get (and its pretty form), set and reset (guild admin); userinfo
/// (moderation); check with cache, redis_test, perms and test (bot admin);
/// emoji with list (misc).
pub fn default_commands() -> (r: Vec<CommandNode>)
    ensures
        r@.len() == 12,
        command_is(r@[0], "about"@, ABOUT_COMMAND, CommandGroup::Basic, true, 0),
        command_is(r@[1], "coinflip"@, COINFLIP_COMMAND, CommandGroup::Basic, true, 0),
        command_is(r@[2], "ping"@, PING_COMMAND, CommandGroup::Basic, true, 0),
        command_is(r@[3], "quote"@, QUOTE_COMMAND, CommandGroup::Basic, true, 0),
        command_is(r@[4], "uid"@, UID_COMMAND, CommandGroup::Basic, true, 0),
        command_is(r@[5], "config"@, CONFIG_COMMAND, CommandGroup::GuildAdmin, false, 3),
        command_is(r@[5].node_list@[0], "get"@, READ_CONFIG, CommandGroup::GuildAdmin, true, 1),
        command_is(
            r@[5].node_list@[0].node_list@[0],
            "pretty"@,
            READ_CONFIG,
            CommandGroup::GuildAdmin,
            true,
            0,
        ),
        command_is(r@[5].node_list@[1], "set"@, WRITE_CONFIG, CommandGroup::GuildAdmin, true, 0),
        command_is(r@[5].node_list@[2], "reset"@, WRITE_CONFIG, CommandGroup::GuildAdmin, true, 0),
        command_is(r@[6], "userinfo"@, USERINFO_COMMAND, CommandGroup::Moderation, true, 0),
        command_is(r@[7], "check"@, BOT_ADMIN, CommandGroup::BotAdmin, false, 1),
        command_is(r@[7].node_list@[0], "cache"@, BOT_ADMIN, CommandGroup::BotAdmin, true, 0),
        command_is(r@[8], "redis_test"@, BOT_ADMIN, CommandGroup::BotAdmin, true, 0),
        command_is(r@[9], "perms"@, BOT_ADMIN, CommandGroup::BotAdmin, true, 0),
        command_is(r@[10], "test"@, BOT_ADMIN, CommandGroup::BotAdmin, true, 0),
        command_is(r@[11], "emoji"@, EMOJI_COMMAND, CommandGroup::Misc, false, 1),
        command_is(r@[11].node_list@[0], "list"@, EMOJI_LIST_COMMAND, CommandGroup::Misc, true, 0),
        r@[5].aliases@.len() == 1 && r@[5].aliases@[0]@ == "c"@,
        r@[5].node_list@[0].aliases@.len() == 1 && r@[5].node_list@[0].aliases@[0]@ == "g"@,
        r@[5].node_list@[0].node_list@[0].aliases@.len() == 1
            && r@[5].node_list@[0].node_list@[0].aliases@[0]@ == "p"@,
{
    let mut list: Vec<CommandNode> = Vec::new();
    list.push(node("about", Vec::new(), true, EMBED_LINKS, ABOUT_COMMAND, CommandGroup::Basic, Vec::new()));
    list.push(node("coinflip", Vec::new(), true, 0, COINFLIP_COMMAND, CommandGroup::Basic, Vec::new()));
    list.push(node("ping", Vec::new(), true, 0, PING_COMMAND, CommandGroup::Basic, Vec::new()));
    list.push(node("quote", Vec::new(), true, EMBED_LINKS, QUOTE_COMMAND, CommandGroup::Basic, Vec::new()));
    list.push(node("uid", Vec::new(), true, 0, UID_COMMAND, CommandGroup::Basic, Vec::new()));
    let pretty = node("pretty", alias("p"), true, 0, READ_CONFIG, CommandGroup::GuildAdmin, Vec::new());
    let mut get_subs: Vec<CommandNode> = Vec::new();
    get_subs.push(pretty);
    let get = node("get", alias("g"), true, 0, READ_CONFIG, CommandGroup::GuildAdmin, get_subs);
    let set = node("set", Vec::new(), true, 0, WRITE_CONFIG, CommandGroup::GuildAdmin, Vec::new());
    let reset = node("reset", Vec::new(), true, 0, WRITE_CONFIG, CommandGroup::GuildAdmin, Vec::new());
    let mut config_subs: Vec<CommandNode> = Vec::new();
    config_subs.push(get);
    config_subs.push(set);
    config_subs.push(reset);
    list.push(node("config", alias("c"), false, 0, CONFIG_COMMAND, CommandGroup::GuildAdmin, config_subs));
    list.push(node("userinfo", Vec::new(), true, EMBED_LINKS, USERINFO_COMMAND, CommandGroup::Moderation, Vec::new()));
    let cache = node("cache", Vec::new(), true, EMBED_LINKS, BOT_ADMIN, CommandGroup::BotAdmin, Vec::new());
    let mut check_subs: Vec<CommandNode> = Vec::new();
    check_subs.push(cache);
    list.push(node("check", Vec::new(), false, 0, BOT_ADMIN, CommandGroup::BotAdmin, check_subs));
    list.push(node("redis_test", Vec::new(), true, 0, BOT_ADMIN, CommandGroup::BotAdmin, Vec::new()));
    list.push(node("perms", Vec::new(), true, 0, BOT_ADMIN, CommandGroup::BotAdmin, Vec::new()));
    list.push(node("test", Vec::new(), true, 0, BOT_ADMIN, CommandGroup::BotAdmin, Vec::new()));
    let emoji_list = node("list", Vec::new(), true, EMBED_LINKS, EMOJI_LIST_COMMAND, CommandGroup::Misc, Vec::new());
    let mut emoji_subs: Vec<CommandNode> = Vec::new();
    emoji_subs.push(emoji_list);
    list.push(node("emoji", Vec::new(), false, 0, EMOJI_COMMAND, CommandGroup::Misc, emoji_subs));
    list
}

/// The command's permission is denied whole or not at all, and so is every
/// subcommand's.
pub open spec fn denied_whole(denies: u64, node: CommandNode) -> bool
    decreases node,
{
    (has_all(denies, node.command_permission) || node.command_permission & denies == 0)
        && denied_whole_list(denies, node.node_list@)
}

/// Every command of the list is denied whole or not at all.
pub open spec fn denied_whole_list(denies: u64, nodes: Seq<CommandNode>) -> bool
    decreases nodes,
{
    if nodes.len() == 0 {
        true
    } else {
        denied_whole_list(denies, nodes.drop_last()) && denied_whole(denies, nodes.last())
    }
}

/// `after` keeps every permission of `before`, and holds of the denied
/// permissions exactly those that `before` held.
pub open spec fn grants_kept(before: u64, after: u64, denies: u64) -> bool {
    has_all(after, before) && after & denies == before & denies
}

proof fn lemma_grants_kept_trans(a: u64, b: u64, c: u64, d: u64)
    requires
        grants_kept(a, b, d),
        grants_kept(b, c, d),
    ensures
        grants_kept(a, c, d),
{
    assert((b & a == a && c & b == b) ==> c & a == a) by (bit_vector);
}

/// Granting a permission that no deny touches keeps the grants and denies.
proof fn lemma_grant_clean(p: u64, cp: u64, d: u64)
    requires
        cp & d == 0,
    ensures
        grants_kept(p, p | cp, d),
{
    assert(cp & d == 0 ==> ((p | cp) & p == p && (p | cp) & d == p & d)) by (bit_vector);
}

proof fn lemma_grants_kept_refl(p: u64, d: u64)
    ensures
        grants_kept(p, p, d),
{
    assert(p & p == p) by (bit_vector);
}

/// Cascading through a command keeps what was granted and grants nothing
/// that is denied.
proof fn lemma_cascade_node_kept(perms: u64, denies: u64, node: CommandNode, available: bool)
    requires
        denied_whole(denies, node),
    ensures
        grants_kept(perms, cascade_node_result(perms, denies, node, available), denies),
    decreases node,
{
    let cp = node.command_permission;
    let denied = node_denied(perms, denies, node, available);
    let p1 = if denied {
        perms
    } else {
        perms | cp
    };
    if denied {
        lemma_grants_kept_refl(perms, denies);
    } else {
        assert(cp & denies == 0);
        lemma_grant_clean(perms, cp, denies);
    }
    assert(decreases_to!(node => node.node_list));
    assert(decreases_to!(node.node_list => node.node_list@));
    lemma_cascade_list_kept(p1, denies, node.node_list@, !denied);
    let (p2, any) = cascade_list_result(p1, denies, node.node_list@, !denied);
    lemma_grants_kept_trans(perms, p1, p2, denies);
    if denied && !has_all(denies, cp) && any && !node.has_handler {
        assert(cp & denies == 0);
        lemma_grant_clean(p2, cp, denies);
        lemma_grants_kept_trans(perms, p2, p2 | cp, denies);
    }
}

/// Cascading through a list of commands keeps what was granted and grants
/// nothing that is denied.
proof fn lemma_cascade_list_kept(perms: u64, denies: u64, nodes: Seq<CommandNode>, available: bool)
    requires
        denied_whole_list(denies, nodes),
    ensures
        grants_kept(perms, cascade_list_result(perms, denies, nodes, available).0, denies),
    decreases nodes,
{
    if nodes.len() == 0 {
        lemma_grants_kept_refl(perms, denies);
    } else {
        assert(decreases_to!(nodes => nodes.drop_last()));
        assert(decreases_to!(nodes => nodes[nodes.len() - 1]));
        lemma_cascade_list_kept(perms, denies, nodes.drop_last(), available);
        let (p, any) = cascade_list_result(perms, denies, nodes.drop_last(), available);
        lemma_cascade_node_kept(p, denies, nodes.last(), available);
        lemma_grants_kept_trans(
            perms,
            p,
            cascade_node_result(p, denies, nodes.last(), available),
            denies,
        );
    }
}

/// Cascading through one group's commands keeps what was granted and grants
/// nothing that is denied.
proof fn lemma_cascade_group_kept(
    perms: u64,
    denies: u64,
    group_perm: u64,
    nodes: Seq<CommandNode>,
    indices: Seq<usize>,
)
    requires
        forall|j: int| 0 <= j < indices.len() ==> #[trigger] indices[j] < nodes.len(),
        forall|i: int| 0 <= i < nodes.len() ==> denied_whole(denies, #[trigger] nodes[i]),
    ensures
        grants_kept(perms, cascade_group_result(perms, denies, group_perm, nodes, indices), denies),
    decreases indices.len(),
{
    if indices.len() == 0 {
        lemma_grants_kept_refl(perms, denies);
    } else {
        let q = indices.drop_last();
        assert forall|j: int| 0 <= j < q.len() implies #[trigger] q[j] < nodes.len() by {
            assert(q[j] == indices[j]);
        }
        lemma_cascade_group_kept(perms, denies, group_perm, nodes, q);
        let p = cascade_group_result(perms, denies, group_perm, nodes, q);
        let denied = has_all(denies, group_perm) || !has_all(p, group_perm);
        let k = indices.last() as int;
        assert(indices[indices.len() - 1] < nodes.len());
        lemma_cascade_node_kept(p, denies, nodes[k], !denied);
        lemma_grants_kept_trans(perms, p, cascade_node_result(p, denies, nodes[k], !denied), denies);
    }
}

/// Cascading granted permissions down the command tree never takes away a
/// permission that was granted and never grants one that is denied: the
/// result holds every permission it started with, and of the denied
/// permissions exactly those it started with. (A command whose permission
/// is denied only in part would be granted in full, denied part included,
/// so every command's permission is taken to be denied whole or not at all,
/// as the bot's single-flag command permissions are.)
pub proof fn lemma_cascade_keeps_grants_and_denies(
    perms: u64,
    denies: u64,
    nodes: Seq<CommandNode>,
    groups: Seq<GroupCommands>,
)
    requires
        forall|k: int, j: int|
            0 <= k < groups.len() && 0 <= j < groups[k].indices@.len() ==> #[trigger] groups[k].indices@[j]
                < nodes.len(),
        forall|i: int| 0 <= i < nodes.len() ==> denied_whole(denies, #[trigger] nodes[i]),
    ensures
        has_all(cascade_groups_result(perms, denies, nodes, groups), perms),
        cascade_groups_result(perms, denies, nodes, groups) & denies == perms & denies,
    decreases groups.len(),
{
    if groups.len() == 0 {
        lemma_grants_kept_refl(perms, denies);
    } else {
        let g = groups.drop_last();
        assert forall|k: int, j: int|
            0 <= k < g.len() && 0 <= j < g[k].indices@.len() implies #[trigger] g[k].indices@[j]
                < nodes.len() by {
            assert(g[k] == groups[k]);
        }
        lemma_cascade_keeps_grants_and_denies(perms, denies, nodes, g);
        let p = cascade_groups_result(perms, denies, nodes, g);
        let last = groups[groups.len() - 1];
        assert forall|j: int| 0 <= j < last.indices@.len() implies #[trigger] last.indices@[j] < nodes.len() by {
            assert(groups[groups.len() - 1].indices@[j] < nodes.len());
        }
        lemma_cascade_group_kept(p, denies, group_permission(last.group), nodes, last.indices@);
        lemma_grants_kept_trans(
            perms,
            p,
            cascade_groups_result(perms, denies, nodes, groups),
            denies,
        );
    }
}

proof fn lemma_has_all_trans(a: u64, b: u64, c: u64)
    requires
        has_all(b, a),
        has_all(c, b),
    ensures
        has_all(c, a),
{
    assert((b & a == a && c & b == b) ==> c & a == a) by (bit_vector);
}

proof fn lemma_has_all_refl(a: u64)
    ensures
        has_all(a, a),
{
    assert(a & a == a) by (bit_vector);
}

proof fn lemma_has_all_or(a: u64, b: u64)
    ensures
        has_all(a | b, a),
{
    assert((a | b) & a == a) by (bit_vector);
}

/// Cascading through a command only ever adds permissions.
proof fn lemma_cascade_node_grows(perms: u64, denies: u64, node: CommandNode, available: bool)
    ensures
        has_all(cascade_node_result(perms, denies, node, available), perms),
    decreases node,
{
    let cp = node.command_permission;
    let denied = node_denied(perms, denies, node, available);
    let p1 = if denied {
        perms
    } else {
        perms | cp
    };
    if denied {
        lemma_has_all_refl(perms);
    } else {
        lemma_has_all_or(perms, cp);
    }
    assert(decreases_to!(node => node.node_list));
    assert(decreases_to!(node.node_list => node.node_list@));
    lemma_cascade_list_grows(p1, denies, node.node_list@, !denied);
    let (p2, any) = cascade_list_result(p1, denies, node.node_list@, !denied);
    lemma_has_all_trans(perms, p1, p2);
    if denied && !has_all(denies, cp) && any && !node.has_handler {
        lemma_has_all_or(p2, cp);
        lemma_has_all_trans(perms, p2, p2 | cp);
    }
}

/// Cascading through a list of commands only ever adds permissions.
proof fn lemma_cascade_list_grows(perms: u64, denies: u64, nodes: Seq<CommandNode>, available: bool)
    ensures
        has_all(cascade_list_result(perms, denies, nodes, available).0, perms),
    decreases nodes,
{
    if nodes.len() == 0 {
        lemma_has_all_refl(perms);
    } else {
        assert(decreases_to!(nodes => nodes.drop_last()));
        assert(decreases_to!(nodes => nodes[nodes.len() - 1]));
        lemma_cascade_list_grows(perms, denies, nodes.drop_last(), available);
        let (p, any) = cascade_list_result(perms, denies, nodes.drop_last(), available);
        lemma_cascade_node_grows(p, denies, nodes.last(), available);
        lemma_has_all_trans(perms, p, cascade_node_result(p, denies, nodes.last(), available));
    }
}

/// Cascading through one group's commands only ever adds permissions.
proof fn lemma_cascade_group_grows(
    perms: u64,
    denies: u64,
    group_perm: u64,
    nodes: Seq<CommandNode>,
    indices: Seq<usize>,
)
    ensures
        has_all(cascade_group_result(perms, denies, group_perm, nodes, indices), perms),
    decreases indices.len(),
{
    if indices.len() == 0 {
        lemma_has_all_refl(perms);
    } else {
        let q = indices.drop_last();
        lemma_cascade_group_grows(perms, denies, group_perm, nodes, q);
        let p = cascade_group_result(perms, denies, group_perm, nodes, q);
        let denied = has_all(denies, group_perm) || !has_all(p, group_perm);
        let k = indices.last() as int;
        lemma_cascade_node_grows(p, denies, nodes[k], !denied);
        lemma_has_all_trans(perms, p, cascade_node_result(p, denies, nodes[k], !denied));
    }
}

/// Cascading granted permissions down any command tree never takes a
/// permission away: the result holds every permission it started with.
pub proof fn lemma_cascade_never_removes(
    perms: u64,
    denies: u64,
    nodes: Seq<CommandNode>,
    groups: Seq<GroupCommands>,
)
    ensures
        has_all(cascade_groups_result(perms, denies, nodes, groups), perms),
    decreases groups.len(),
{
    if groups.len() == 0 {
        lemma_has_all_refl(perms);
    } else {
        let g = groups.drop_last();
        lemma_cascade_never_removes(perms, denies, nodes, g);
        let p = cascade_groups_result(perms, denies, nodes, g);
        let last = groups.last();
        lemma_cascade_group_grows(p, denies, group_permission(last.group), nodes, last.indices@);
        lemma_has_all_trans(perms, p, cascade_groups_result(perms, denies, nodes, groups));
    }
}

} // verus!
