//! The cache of guilds, channels, users and emoji that gateway events keep up
//! to date.
//!
//! Every cached user knows in how many cached guilds it is a member
//! (`mutual_servers`); a user leaves the cache when that count drops to zero
//! through a member leaving or a guild going away.
use std::collections::HashMap;
use vstd::prelude::*;

use crate::cached::{
    member_updated, spec_update_user_with_user, update_user_with_user, same_emoji, same_member, spec_member_from, spec_role_from, spec_user_from,
    CachedEmoji, CachedMember, CachedRole, CachedUser,
};
use crate::channel::{channel_from_data, same_channel, spec_private_channel, CachedChannel};
use crate::events::{CacheAction, CacheEvent, MemberChunkData};
use crate::shards::{all_ready, shards_all_ready, ShardState};
use crate::guild::{guild_matches, keyed_by_id, roles_map, CachedGuild, GuildData, PartialGuildData};
use crate::keys::map_keys;
use crate::model::{
    ChannelData, GuildChannelData, MemberData, MemberUpdateData, PrivateChannelData, RoleData, UserData,
};

verus! {

broadcast use vstd::std_specs::hash::group_hash_axioms;

/// Counters of what the cache holds. They move by the same steps as the
/// bot's metric gauges, and like them wrap around instead of overflowing.
pub struct CacheStats {
    pub channel_count: i64,
    pub emoji_count: i64,
    pub role_count: i64,
    pub users_total: i64,
    pub users_unique: i64,
    pub guilds_partial: i64,
    pub guilds_loaded: i64,
    pub guilds_outage: i64,
}

/// All counters at zero.
pub open spec fn zero_stats() -> CacheStats {
    CacheStats {
        channel_count: 0,
        emoji_count: 0,
        role_count: 0,
        users_total: 0,
        users_unique: 0,
        guilds_partial: 0,
        guilds_loaded: 0,
        guilds_outage: 0,
    }
}

impl CacheStats {
    /// All counters at zero.
    pub fn new() -> (r: CacheStats)
        ensures
            r == zero_stats(),
    {
        CacheStats {
            channel_count: 0,
            emoji_count: 0,
            role_count: 0,
            users_total: 0,
            users_unique: 0,
            guilds_partial: 0,
            guilds_loaded: 0,
            guilds_outage: 0,
        }
    }
}

/// The ids of the cached guilds that have `user_id` as a member.
pub open spec fn guilds_with_member(guilds: Map<u64, CachedGuild>, user_id: u64) -> Set<u64> {
    guilds.dom().filter(|g: u64| guilds[g].members@.contains_key(user_id))
}

/// In how many cached guilds `user_id` is a member.
pub open spec fn mutual_count(guilds: Map<u64, CachedGuild>, user_id: u64) -> nat {
    guilds_with_member(guilds, user_id).len()
}

/// Putting guild `v` under `g` counts `g` for the members of `v` only.
pub(crate) proof fn lemma_mutual_insert(m: Map<u64, CachedGuild>, g: u64, v: CachedGuild, u: u64)
    requires
        m.dom().finite(),
    ensures
        mutual_count(m.insert(g, v), u) == mutual_count(m.remove(g), u) + (if v.members@.contains_key(
            u,
        ) {
            1nat
        } else {
            0nat
        }),
{
    let a = guilds_with_member(m.insert(g, v), u);
    let b = guilds_with_member(m.remove(g), u);
    assert(b.finite()) by {
        vstd::set_lib::lemma_len_subset(b, m.dom());
    }
    if v.members@.contains_key(u) {
        assert(a =~= b.insert(g));
        assert(!b.contains(g));
    } else {
        assert(a =~= b);
    }
}

/// Taking guild `g` away uncounts it for its members only.
proof fn lemma_mutual_remove(m: Map<u64, CachedGuild>, g: u64, u: u64)
    requires
        m.dom().finite(),
    ensures
        mutual_count(m, u) == mutual_count(m.remove(g), u) + (if m.contains_key(g)
            && m[g].members@.contains_key(u) {
            1nat
        } else {
            0nat
        }),
{
    if m.contains_key(g) {
        assert(m.remove(g).insert(g, m[g]) =~= m);
        assert(m.remove(g).remove(g) =~= m.remove(g));
        lemma_mutual_insert(m.remove(g), g, m[g], u);
    } else {
        assert(m.remove(g) =~= m);
    }
}

/// A user is a member of at most every cached guild, and of fewer when some
/// cached guild lacks it.
pub(crate) proof fn lemma_mutual_bound(m: Map<u64, CachedGuild>, g: u64, u: u64)
    requires
        m.dom().finite(),
    ensures
        mutual_count(m, u) <= m.dom().len(),
        m.contains_key(g) && !m[g].members@.contains_key(u) ==> mutual_count(m, u) < m.dom().len(),
{
    let s = guilds_with_member(m, u);
    vstd::set_lib::lemma_len_subset(s, m.dom());
    if m.contains_key(g) && !m[g].members@.contains_key(u) {
        vstd::set_lib::lemma_len_subset(s, m.dom().remove(g));
    }
}

/// The ids of a list of cached emoji.
pub open spec fn emoji_ids(v: Seq<CachedEmoji>) -> Set<u64> {
    Set::new(|id: u64| exists|i: int| 0 <= i < v.len() && #[trigger] v[i].id == id)
}

/// Takes the emoji of the list out of an emoji index.
fn remove_emoji_ids(index: &mut HashMap<u64, CachedEmoji>, emoji: &Vec<CachedEmoji>)
    ensures
        final(index)@ == old(index)@.remove_keys(emoji_ids(emoji@)),
{
    let mut i: usize = 0;
    while i < emoji.len()
        invariant
            i <= emoji.len(),
            index@ == old(index)@.remove_keys(emoji_ids(emoji@.subrange(0, i as int))),
        decreases emoji.len() - i,
    {
        let id = emoji[i].id;
        index.remove(&id);
        proof {
            let s = emoji@.subrange(0, i + 1);
            let p = emoji@.subrange(0, i as int);
            assert forall|k: u64| emoji_ids(s).contains(k) <==> emoji_ids(p).insert(id).contains(k) by {
                if emoji_ids(p).contains(k) {
                    let j = choose|j: int| 0 <= j < p.len() && #[trigger] p[j].id == k;
                    assert(s[j].id == k);
                }
                if k == id {
                    assert(s[i as int].id == k);
                }
                if emoji_ids(s).contains(k) {
                    let j = choose|j: int| 0 <= j < s.len() && #[trigger] s[j].id == k;
                    if j < i {
                        assert(p[j].id == k);
                    }
                }
            }
            assert(emoji_ids(s) =~= emoji_ids(p).insert(id));
            assert(index@ =~= old(index)@.remove_keys(emoji_ids(s)));
        }
        i = i + 1;
    }
    assert(emoji@.subrange(0, emoji.len() as int) == emoji@);
}

/// Takes the channels of a guild out of a channel index.
fn remove_channel_keys(
    index: &mut HashMap<u64, CachedChannel>,
    channels: &HashMap<u64, CachedChannel>,
)
    ensures
        final(index)@ == old(index)@.remove_keys(channels@.dom()),
{
    let keys = map_keys(channels);
    let mut i: usize = 0;
    while i < keys.len()
        invariant
            i <= keys.len(),
            keys@.to_set() == channels@.dom(),
            index@ == old(index)@.remove_keys(keys@.subrange(0, i as int).to_set()),
        decreases keys.len() - i,
    {
        let k = keys[i];
        index.remove(&k);
        proof {
            assert(keys@.subrange(0, i + 1) == keys@.subrange(0, i as int).push(k));
            keys@.subrange(0, i as int).lemma_push_to_set_commute(k);
            assert(index@ =~= old(index)@.remove_keys(keys@.subrange(0, i + 1).to_set()));
        }
        i = i + 1;
    }
    assert(keys@.subrange(0, keys.len() as int) == keys@);
}

/// Lets go of the members of a guild that left the cache: each member's user
/// counts one mutual server less, and users left in none are dropped.
/// Returns how many users were dropped.
fn release_members(
    users: &mut HashMap<u64, CachedUser>,
    members: &HashMap<u64, CachedMember>,
    Ghost(rest): Ghost<Map<u64, CachedGuild>>,
) -> (purged: usize)
    requires
        rest.dom().finite(),
        forall|u: u64| #[trigger]
            old(users)@.contains_key(u) ==> old(users)@[u].mutual_servers == mutual_count(rest, u)
                + (if members@.contains_key(u) {
                1nat
            } else {
                0nat
            }),
        forall|u: u64| #[trigger] members@.contains_key(u) ==> old(users)@.contains_key(u),
    ensures
        final(users)@.dom() == old(users)@.dom().filter(
            |u: u64| !(members@.contains_key(u) && mutual_count(rest, u) == 0),
        ),
        forall|u: u64| #[trigger]
            final(users)@.contains_key(u) ==> final(users)@[u] == (CachedUser {
                mutual_servers: mutual_count(rest, u) as u64,
                ..old(users)@[u]
            }),
        purged == old(users)@.len() - final(users)@.len(),
{
    let keys = map_keys(members);
    let mut purged: usize = 0;
    let mut i: usize = 0;
    while i < keys.len()
        invariant
            i <= keys.len(),
            keys@.to_set() == members@.dom(),
            keys@.no_duplicates(),
            rest.dom().finite(),
            forall|u: u64| #[trigger]
                old(users)@.contains_key(u) ==> old(users)@[u].mutual_servers == mutual_count(
                    rest,
                    u,
                ) + (if members@.contains_key(u) {
                    1nat
                } else {
                    0nat
                }),
            forall|u: u64| #[trigger] members@.contains_key(u) ==> old(users)@.contains_key(u),
            forall|u: u64| #[trigger]
                users@.contains_key(u) <==> (old(users)@.contains_key(u) && !(keys@.subrange(
                    0,
                    i as int,
                ).contains(u) && mutual_count(rest, u) == 0)),
            forall|u: u64| #[trigger]
                users@.contains_key(u) ==> users@[u] == (if keys@.subrange(0, i as int).contains(u) {
                    CachedUser { mutual_servers: mutual_count(rest, u) as u64, ..old(users)@[u] }
                } else {
                    old(users)@[u]
                }),
            users@.dom().subset_of(old(users)@.dom()),
            purged <= i,
            purged == old(users)@.len() - users@.len(),
        decreases keys.len() - i,
    {
        let k = keys[i];
        proof {
            assert(keys@.to_set().contains(keys@[i as int]));
            assert(!keys@.subrange(0, i as int).contains(k)) by {
                if keys@.subrange(0, i as int).contains(k) {
                    let j = choose|j: int| 0 <= j < i && #[trigger] keys@.subrange(0, i as int)[j] == k;
                    assert(keys@[j] == keys@[i as int]);
                }
            }
            assert(users@.contains_key(k));
        }
        let mut user = users.remove(&k).unwrap();
        user.mutual_servers = user.mutual_servers - 1;
        if user.mutual_servers == 0 {
            purged = purged + 1;
        } else {
            users.insert(k, user);
        }
        proof {
            let p = keys@.subrange(0, i as int);
            let q = keys@.subrange(0, i + 1);
            assert(q == p.push(k));
            assert forall|u: u64| q.contains(u) <==> (p.contains(u) || u == k) by {
                if q.contains(u) {
                    let j = choose|j: int| 0 <= j < q.len() && #[trigger] q[j] == u;
                    if j < i {
                        assert(p[j] == u);
                    }
                }
                if p.contains(u) {
                    let j = choose|j: int| 0 <= j < p.len() && #[trigger] p[j] == u;
                    assert(q[j] == u);
                }
                if u == k {
                    assert(q[i as int] == u);
                }
            }
            vstd::set_lib::lemma_len_subset(users@.dom(), old(users)@.dom());
        }
        i = i + 1;
    }
    proof {
        assert(keys@.subrange(0, keys.len() as int) == keys@);
        assert forall|u: u64| keys@.contains(u) <==> members@.contains_key(u) by {
            assert(keys@.to_set().contains(u) <==> keys@.contains(u));
        }
        assert(users@.dom() =~= old(users)@.dom().filter(
            |u: u64| !(members@.contains_key(u) && mutual_count(rest, u) == 0),
        ));
    }
    purged
}

/// `new` is index `old` with the channels of `added` put in (as copies),
/// each under its key.
pub open spec fn channel_index_with(
    new: Map<u64, CachedChannel>,
    old: Map<u64, CachedChannel>,
    added: Map<u64, CachedChannel>,
) -> bool {
    &&& new.dom() == old.dom().union(added.dom())
    &&& forall|k: u64| #[trigger]
        new.contains_key(k) ==> if added.contains_key(k) {
            same_channel(new[k], added[k])
        } else {
            new[k] == old[k]
        }
}

/// `new` is index `old` with the emoji of `added` put in (as copies), each
/// under its key.
pub open spec fn emoji_index_with(
    new: Map<u64, CachedEmoji>,
    old: Map<u64, CachedEmoji>,
    added: Map<u64, CachedEmoji>,
) -> bool {
    &&& new.dom() == old.dom().union(added.dom())
    &&& forall|k: u64| #[trigger]
        new.contains_key(k) ==> if added.contains_key(k) {
            same_emoji(new[k], added[k])
        } else {
            new[k] == old[k]
        }
}

/// The emoji of a list by id, a later emoji with the same id replacing an
/// earlier one.
pub open spec fn emoji_index(v: Seq<CachedEmoji>) -> Map<u64, CachedEmoji>
    decreases v.len(),
{
    if v.len() == 0 {
        Map::empty()
    } else {
        emoji_index(v.drop_last()).insert(v.last().id, v.last())
    }
}

/// The list without the first occurrence of `x` (unchanged when `x` does not
/// occur).
pub open spec fn remove_first(s: Seq<u64>, x: u64) -> Seq<u64>
    decreases s.len(),
{
    if s.len() == 0 {
        s
    } else if s[0] == x {
        s.drop_first()
    } else {
        seq![s[0]] + remove_first(s.drop_first(), x)
    }
}

proof fn lemma_remove_first_at(s: Seq<u64>, x: u64, i: int)
    requires
        0 <= i <= s.len(),
        forall|j: int| 0 <= j < i ==> s[j] != x,
        i < s.len() ==> s[i] == x,
    ensures
        remove_first(s, x) == if i < s.len() {
            s.remove(i)
        } else {
            s
        },
    decreases i,
{
    if s.len() == 0 {
    } else if i == 0 {
        assert(s.drop_first() =~= s.remove(0));
    } else {
        lemma_remove_first_at(s.drop_first(), x, i - 1);
        if i < s.len() {
            assert(seq![s[0]] + s.drop_first().remove(i - 1) =~= s.remove(i));
        } else {
            assert(seq![s[0]] + s.drop_first() =~= s);
        }
    }
}

/// Removes the first occurrence of `x` from the list, if there is one.
fn remove_first_occurrence(v: &mut Vec<u64>, x: u64) -> (found: bool)
    ensures
        final(v)@ == remove_first(old(v)@, x),
        found == old(v)@.contains(x),
{
    let mut i: usize = 0;
    while i < v.len()
        invariant
            i <= v.len(),
            v@ == old(v)@,
            forall|j: int| 0 <= j < i ==> v@[j] != x,
        decreases v.len() - i,
    {
        if v[i] == x {
            proof {
                lemma_remove_first_at(v@, x, i as int);
            }
            v.remove(i);
            return true;
        }
        i = i + 1;
    }
    proof {
        lemma_remove_first_at(v@, x, i as int);
    }
    false
}

/// Puts copies of a guild's channels into a channel index.
pub(crate) fn add_channels_to_index(
    index: &mut HashMap<u64, CachedChannel>,
    channels: &HashMap<u64, CachedChannel>,
)
    ensures
        channel_index_with(final(index)@, old(index)@, channels@),
{
    let keys = map_keys(channels);
    let mut i: usize = 0;
    proof {
        let e = channels@.restrict(keys@.subrange(0, 0).to_set());
        assert(e.dom() =~= Set::<u64>::empty());
        assert(index@.dom() =~= old(index)@.dom().union(e.dom()));
    }
    while i < keys.len()
        invariant
            i <= keys.len(),
            keys@.to_set() == channels@.dom(),
            channel_index_with(
                index@,
                old(index)@,
                channels@.restrict(keys@.subrange(0, i as int).to_set()),
            ),
        decreases keys.len() - i,
    {
        let k = keys[i];
        assert(keys@.to_set().contains(keys@[i as int]));
        let ch = channels.get(&k).unwrap().duplicate();
        index.insert(k, ch);
        proof {
            assert(keys@.subrange(0, i + 1) == keys@.subrange(0, i as int).push(k));
            keys@.subrange(0, i as int).lemma_push_to_set_commute(k);
            let added = channels@.restrict(keys@.subrange(0, i + 1).to_set());
            assert(added.dom() =~= channels@.restrict(keys@.subrange(0, i as int).to_set()).dom().insert(k));
            assert(index@.dom() =~= old(index)@.dom().union(added.dom()));
        }
        i = i + 1;
    }
    proof {
        assert(keys@.subrange(0, keys.len() as int) == keys@);
        assert(channels@.restrict(keys@.to_set()) =~= channels@);
    }
}

/// Puts copies of a guild's emoji into an emoji index.
pub(crate) fn add_emoji_to_index(index: &mut HashMap<u64, CachedEmoji>, emoji: &Vec<CachedEmoji>)
    ensures
        emoji_index_with(final(index)@, old(index)@, emoji_index(emoji@)),
{
    let mut i: usize = 0;
    proof {
        assert(emoji_index(emoji@.subrange(0, 0)) =~= Map::<u64, CachedEmoji>::empty());
        assert(index@.dom() =~= old(index)@.dom().union(Set::<u64>::empty()));
    }
    while i < emoji.len()
        invariant
            i <= emoji.len(),
            emoji_index_with(index@, old(index)@, emoji_index(emoji@.subrange(0, i as int))),
        decreases emoji.len() - i,
    {
        let e = emoji[i].duplicate();
        let id = emoji[i].id;
        index.insert(id, e);
        proof {
            let s = emoji@.subrange(0, i + 1);
            assert(s.drop_last() == emoji@.subrange(0, i as int));
            assert(emoji_index(s) == emoji_index(emoji@.subrange(0, i as int)).insert(id, emoji@[i as int]));
            assert(index@.dom() =~= old(index)@.dom().union(emoji_index(s).dom()));
        }
        i = i + 1;
    }
    assert(emoji@.subrange(0, emoji.len() as int) == emoji@);
}

/// Replacing a cached guild by one with the same member ids keeps the
/// cache's invariant.
proof fn lemma_wf_replace_guild(before: Cache, after: Cache, guild_id: u64, g2: CachedGuild)
    requires
        before.wf(),
        before.guilds@.contains_key(guild_id),
        after.guilds@ == before.guilds@.insert(guild_id, g2),
        after.users@ == before.users@,
        g2.id == guild_id,
        g2.members@.dom() == before.guilds@[guild_id].members@.dom(),
        keyed_by_id(g2),
    ensures
        after.wf(),
{
    assert forall|u: u64| #[trigger] after.users@.contains_key(u) implies after.users@[u].id == u
        && after.users@[u].mutual_servers == mutual_count(after.guilds@, u) by {
        lemma_mutual_insert(before.guilds@, guild_id, g2, u);
        lemma_mutual_remove(before.guilds@, guild_id, u);
        assert(g2.members@.contains_key(u) == before.guilds@[guild_id].members@.contains_key(u));
    }
    assert forall|g: u64, u: u64|
        #![trigger after.guilds@[g].members@.contains_key(u)]
        after.guilds@.contains_key(g) && after.guilds@[g].members@.contains_key(u) implies after.guilds@[g].members@[u].user_id
            == u && after.users@.contains_key(u) by {
        if g == guild_id {
            assert(before.guilds@[g].members@.contains_key(u));
        } else {
            assert(before.guilds@[g].members@.contains_key(u));
        }
    }
}

/// The user ids of a list of gateway members.
pub open spec fn member_ids(s: Seq<MemberData>) -> Set<u64> {
    Set::new(|u: u64| exists|i: int| 0 <= i < s.len() && #[trigger] s[i].user.id == u)
}

/// The first member of the list with this user id.
pub open spec fn first_member_with_id(s: Seq<MemberData>, u: u64) -> MemberData
    decreases s.len(),
{
    if s.len() == 0 {
        vstd::pervasive::arbitrary()
    } else if member_ids(s.drop_last()).contains(u) {
        first_member_with_id(s.drop_last(), u)
    } else {
        s.last()
    }
}

proof fn lemma_member_ids_push(p: Seq<MemberData>, q: Seq<MemberData>, k: u64)
    requires
        q.len() == p.len() + 1,
        q.drop_last() == p,
        q.last().user.id == k,
    ensures
        member_ids(q) == member_ids(p).insert(k),
{
    assert forall|j: int| 0 <= j < p.len() implies #[trigger] p[j] == q[j] by {
        assert(q.drop_last()[j] == q[j]);
    }
    assert forall|u: u64| member_ids(q).contains(u) implies member_ids(p).insert(k).contains(u) by {
        let j = choose|j: int| 0 <= j < q.len() && #[trigger] q[j].user.id == u;
        if j < p.len() {
            assert(p[j] == q[j]);
            assert(member_ids(p).contains(u));
        } else {
            assert(j == q.len() - 1);
        }
    }
    assert forall|u: u64| member_ids(p).insert(k).contains(u) implies member_ids(q).contains(u) by {
        if member_ids(p).contains(u) {
            let j = choose|j: int| 0 <= j < p.len() && #[trigger] p[j].user.id == u;
            assert(p[j] == q[j]);
            assert(q[j].user.id == u);
        } else {
            assert(q[q.len() - 1].user.id == u);
        }
    }
    assert(member_ids(q) =~= member_ids(p).insert(k));
}

/// The chunk is the last one of a request the bot did not tag with a nonce:
/// after it, the guild's members have all arrived.
pub open spec fn chunk_is_last(chunk: MemberChunkData) -> bool {
    chunk.chunk_count.wrapping_sub(1) == chunk.chunk_index && chunk.nonce is None
}

/// The cache. `guild_channels`, `private_channels` and `emoji` index what the
/// guilds and direct messages hold; `dm_channels_by_user` finds the direct
/// message channel of a user; `missing_per_shard` counts, per shard, the
/// guilds whose members have not all arrived yet.
pub struct Cache {
    pub cluster_id: u64,
    pub guilds: HashMap<u64, CachedGuild>,
    pub guild_channels: HashMap<u64, CachedChannel>,
    pub private_channels: HashMap<u64, CachedChannel>,
    pub dm_channels_by_user: HashMap<u64, CachedChannel>,
    pub users: HashMap<u64, CachedUser>,
    pub emoji: HashMap<u64, CachedEmoji>,
    pub filling: bool,
    pub unavailable_guilds: Vec<u64>,
    pub expected: Vec<u64>,
    pub stats: CacheStats,
    pub missing_per_shard: HashMap<u64, u64>,
}

impl Cache {
    /// The cache's invariant: every guild sits under its id, every member
    /// under its user id and with its user cached, and every cached user sits
    /// under its id and counts exactly the cached guilds it is a member of.
    pub open spec fn wf(&self) -> bool {
        &&& forall|g: u64| #[trigger] self.guilds@.contains_key(g) ==> self.guilds@[g].id == g
            && keyed_by_id(self.guilds@[g])
        &&& forall|g: u64, u: u64|
            #![trigger self.guilds@[g].members@.contains_key(u)]
            self.guilds@.contains_key(g) && self.guilds@[g].members@.contains_key(u)
                ==> self.guilds@[g].members@[u].user_id == u && self.users@.contains_key(u)
        &&& forall|u: u64| #[trigger]
            self.users@.contains_key(u) ==> self.users@[u].id == u && self.users@[u].mutual_servers
                == mutual_count(self.guilds@, u)
    }

    /// The parts of the cache that guild and member changes leave alone.
    pub open spec fn side_state_same(&self, other: &Cache) -> bool {
        &&& self.cluster_id == other.cluster_id
        &&& self.private_channels@ == other.private_channels@
        &&& self.dm_channels_by_user@ == other.dm_channels_by_user@
        &&& self.filling == other.filling
        &&& self.unavailable_guilds@ == other.unavailable_guilds@
        &&& self.expected@ == other.expected@
        &&& self.missing_per_shard@ == other.missing_per_shard@
    }

    /// What taking guild `guild_id` out of the cache leaves: the guild, its
    /// channels and emoji gone from the indexes, its members' users counting
    /// one mutual server less and gone when they have none left, and the
    /// counters lowered by what the guild held.
    pub open spec fn nuked(&self, old: &Cache, guild_id: u64) -> bool {
        let g = old.guilds@[guild_id];
        &&& self.guilds@ == old.guilds@.remove(guild_id)
        &&& self.guild_channels@ == old.guild_channels@.remove_keys(g.channels@.dom())
        &&& self.emoji@ == old.emoji@.remove_keys(emoji_ids(g.emoji@))
        &&& self.users@.dom() == old.users@.dom().filter(
            |u: u64| !(g.members@.contains_key(u) && mutual_count(self.guilds@, u) == 0),
        )
        &&& forall|u: u64| #[trigger]
            self.users@.contains_key(u) ==> self.users@[u] == (CachedUser {
                mutual_servers: mutual_count(self.guilds@, u) as u64,
                ..old.users@[u]
            })
        &&& self.stats == (CacheStats {
            channel_count: old.stats.channel_count.wrapping_sub(g.channels@.len() as i64),
            emoji_count: old.stats.emoji_count.wrapping_sub(g.emoji@.len() as i64),
            role_count: old.stats.role_count.wrapping_sub(g.roles@.len() as i64),
            users_total: old.stats.users_total.wrapping_sub(g.members@.len() as i64),
            users_unique: old.stats.users_unique.wrapping_sub(
                (old.users@.len() - self.users@.len()) as i64,
            ),
            guilds_partial: if g.complete {
                old.stats.guilds_partial
            } else {
                old.stats.guilds_partial.wrapping_sub(1)
            },
            guilds_loaded: if g.complete {
                old.stats.guilds_loaded.wrapping_sub(1)
            } else {
                old.stats.guilds_loaded
            },
            guilds_outage: old.stats.guilds_outage,
        })
        &&& self.side_state_same(old)
    }

    /// What caching the new guild `g` on top of `old` gives: the guild as the
    /// gateway sent it, its channels and emoji added to the indexes, it no
    /// longer listed as unavailable, one more partially loaded guild, and the
    /// counters raised by what it holds.
    pub open spec fn guild_added(&self, old: &Cache, g: GuildData) -> bool {
        let c = self.guilds@[g.id];
        &&& self.guilds@ == old.guilds@.insert(g.id, c)
        &&& guild_matches(c, g)
        &&& channel_index_with(self.guild_channels@, old.guild_channels@, c.channels@)
        &&& emoji_index_with(self.emoji@, old.emoji@, emoji_index(c.emoji@))
        &&& self.users@ == old.users@
        &&& self.unavailable_guilds@ == remove_first(old.unavailable_guilds@, g.id)
        &&& self.stats == (CacheStats {
            channel_count: old.stats.channel_count.wrapping_add(c.channels@.len() as i64),
            emoji_count: old.stats.emoji_count.wrapping_add(c.emoji@.len() as i64),
            role_count: old.stats.role_count.wrapping_add(c.roles@.len() as i64),
            guilds_partial: old.stats.guilds_partial.wrapping_add(1),
            ..old.stats
        })
        &&& self.cluster_id == old.cluster_id
        &&& self.private_channels@ == old.private_channels@
        &&& self.dm_channels_by_user@ == old.dm_channels_by_user@
        &&& self.filling == old.filling
        &&& self.expected@ == old.expected@
        &&& self.missing_per_shard@ == old.missing_per_shard@
    }

    /// What marking guild `id` as unavailable gives: it is listed as
    /// unavailable and counted as one more outage.
    pub open spec fn marked_unavailable(&self, old: &Cache, id: u64) -> bool {
        &&& *self == (Cache {
            unavailable_guilds: self.unavailable_guilds,
            stats: CacheStats { guilds_outage: old.stats.guilds_outage.wrapping_add(1), ..old.stats },
            ..*old
        })
        &&& self.unavailable_guilds@ == old.unavailable_guilds@.push(id)
    }

    /// What removing member `user_id` from the cached guild `guild_id` gives:
    /// nothing changes when the guild lacks it; otherwise the member is gone,
    /// its user counts one mutual server less and leaves the cache when it had
    /// only this one, and the counters follow.
    pub open spec fn member_removed(&self, old: &Cache, guild_id: u64, user_id: u64) -> bool {
        let g = old.guilds@[guild_id];
        if !g.members@.contains_key(user_id) {
            *self == *old
        } else {
            let count = old.users@[user_id].mutual_servers;
            &&& self.guilds@ == old.guilds@.insert(
                guild_id,
                CachedGuild { members: self.guilds@[guild_id].members, ..g },
            )
            &&& self.guilds@[guild_id].members@ == g.members@.remove(user_id)
            &&& self.users@ == if count == 1 {
                old.users@.remove(user_id)
            } else {
                old.users@.insert(
                    user_id,
                    CachedUser { mutual_servers: (count - 1) as u64, ..old.users@[user_id] },
                )
            }
            &&& self.stats == (CacheStats {
                users_total: old.stats.users_total.wrapping_sub(1),
                users_unique: if count == 1 {
                    old.stats.users_unique.wrapping_sub(1)
                } else {
                    old.stats.users_unique
                },
                ..old.stats
            })
            &&& self.guild_channels@ == old.guild_channels@
            &&& self.emoji@ == old.emoji@
            &&& self.side_state_same(old)
        }
    }

    /// What a member joining the cached guild `guild_id` gives: its user is
    /// cached if it was not (one more unique user); if the guild lacked the
    /// member, the member is added, its user counts one mutual server more,
    /// and the guild's member count and the total of members rise by one.
    pub open spec fn member_added(&self, old: &Cache, guild_id: u64, member: MemberData) -> bool {
        let g = old.guilds@[guild_id];
        let u = member.user.id;
        let known = old.users@.contains_key(u);
        let is_new = !g.members@.contains_key(u);
        let base = if known {
            old.users@[u]
        } else {
            spec_user_from(member.user)
        };
        &&& self.users@ == old.users@.insert(
            u,
            CachedUser {
                mutual_servers: if is_new {
                    (base.mutual_servers + 1) as u64
                } else {
                    base.mutual_servers
                },
                ..base
            },
        )
        &&& !is_new ==> self.guilds@ == old.guilds@
        &&& is_new ==> {
            &&& self.guilds@ == old.guilds@.insert(
                guild_id,
                CachedGuild {
                    members: self.guilds@[guild_id].members,
                    member_count: g.member_count.wrapping_add(1),
                    ..g
                },
            )
            &&& self.guilds@[guild_id].members@.dom() == g.members@.dom().insert(u)
            &&& same_member(self.guilds@[guild_id].members@[u], spec_member_from(member))
            &&& forall|k: u64| #[trigger]
                g.members@.contains_key(k) ==> self.guilds@[guild_id].members@[k] == g.members@[k]
        }
        &&& self.stats == (CacheStats {
            users_unique: if known {
                old.stats.users_unique
            } else {
                old.stats.users_unique.wrapping_add(1)
            },
            users_total: if is_new {
                old.stats.users_total.wrapping_add(1)
            } else {
                old.stats.users_total
            },
            ..old.stats
        })
        &&& self.guild_channels@ == old.guild_channels@
        &&& self.emoji@ == old.emoji@
        &&& self.side_state_same(old)
    }

    /// What a member update in the cached guild `guild_id` gives: a cached
    /// user that differs from the update's user takes the update's data
    /// (keeping its mutual server count); an uncached user is cached (in no
    /// mutual server) when the guild is complete; a member the guild has
    /// takes the update's nickname, roles and boost date.
    pub open spec fn member_update_applied(&self, old: &Cache, e: MemberUpdateData) -> bool {
        let g = old.guilds@[e.guild_id];
        let u = e.user.id;
        &&& self.users@ == if old.users@.contains_key(u) {
            if old.users@[u].spec_is_same_as(e.user) {
                old.users@
            } else {
                old.users@.insert(
                    u,
                    CachedUser {
                        mutual_servers: old.users@[u].mutual_servers,
                        ..spec_user_from(e.user)
                    },
                )
            }
        } else if g.complete {
            old.users@.insert(u, spec_user_from(e.user))
        } else {
            old.users@
        }
        &&& self.stats == (CacheStats {
            users_unique: if !old.users@.contains_key(u) && g.complete {
                old.stats.users_unique.wrapping_add(1)
            } else {
                old.stats.users_unique
            },
            ..old.stats
        })
        &&& !g.members@.contains_key(u) ==> self.guilds@ == old.guilds@
        &&& g.members@.contains_key(u) ==> {
            &&& self.guilds@ == old.guilds@.insert(
                e.guild_id,
                CachedGuild { members: self.guilds@[e.guild_id].members, ..g },
            )
            &&& self.guilds@[e.guild_id].members@ == g.members@.insert(
                u,
                self.guilds@[e.guild_id].members@[u],
            )
            &&& member_updated(self.guilds@[e.guild_id].members@[u], g.members@[u], e)
        }
        &&& self.guild_channels@ == old.guild_channels@
        &&& self.emoji@ == old.emoji@
        &&& self.side_state_same(old)
    }

    /// What putting the gateway channel `data` into the cached guild
    /// `guild_id` gives: the guild and the channel index hold the channel
    /// under its id, and when `counted` the channel counter rises by one.
    pub open spec fn channel_put(
        &self,
        old: &Cache,
        guild_id: u64,
        data: GuildChannelData,
        counted: bool,
    ) -> bool {
        let g = old.guilds@[guild_id];
        let id = data.spec_id();
        let c = self.guilds@[guild_id].channels@[id];
        &&& *self == (Cache {
            guilds: self.guilds,
            guild_channels: self.guild_channels,
            stats: CacheStats {
                channel_count: if counted {
                    old.stats.channel_count.wrapping_add(1)
                } else {
                    old.stats.channel_count
                },
                ..old.stats
            },
            ..*old
        })
        &&& self.guilds@ == old.guilds@.insert(
            guild_id,
            CachedGuild { channels: self.guilds@[guild_id].channels, ..g },
        )
        &&& self.guilds@[guild_id].channels@ == g.channels@.insert(id, c)
        &&& channel_from_data(c, data, Some(guild_id))
        &&& self.guild_channels@ == old.guild_channels@.insert(id, self.guild_channels@[id])
        &&& same_channel(self.guild_channels@[id], c)
    }

    /// What taking channel `channel_id` out of the cached guild `guild_id`
    /// gives: the guild and the channel index lose it, one channel less.
    pub open spec fn channel_taken(&self, old: &Cache, guild_id: u64, channel_id: u64) -> bool {
        let g = old.guilds@[guild_id];
        &&& *self == (Cache {
            guilds: self.guilds,
            guild_channels: self.guild_channels,
            stats: CacheStats {
                channel_count: old.stats.channel_count.wrapping_sub(1),
                ..old.stats
            },
            ..*old
        })
        &&& self.guilds@ == old.guilds@.insert(
            guild_id,
            CachedGuild { channels: self.guilds@[guild_id].channels, ..g },
        )
        &&& self.guilds@[guild_id].channels@ == g.channels@.remove(channel_id)
        &&& self.guild_channels@ == old.guild_channels@.remove(channel_id)
    }

    /// What caching a private channel gives: it is indexed under its id, and a
    /// one-to-one DM also under the id of its recipient.
    pub open spec fn private_channel_put(&self, old: &Cache, channel: PrivateChannelData) -> bool {
        let c = spec_private_channel(channel);
        &&& *self == (Cache {
            private_channels: self.private_channels,
            dm_channels_by_user: self.dm_channels_by_user,
            ..*old
        })
        &&& self.private_channels@ == old.private_channels@.insert(channel.id, c)
        &&& self.dm_channels_by_user@ == if channel.recipients@.len() == 1 {
            old.dm_channels_by_user@.insert(channel.recipients@[0], c)
        } else {
            old.dm_channels_by_user@
        }
    }

    /// What forgetting a private channel gives: it leaves the index of private
    /// channels, and when it has a single recipient, that recipient's DM
    /// channel is forgotten too.
    pub open spec fn private_channel_taken(&self, old: &Cache, channel: PrivateChannelData) -> bool {
        &&& *self == (Cache {
            private_channels: self.private_channels,
            dm_channels_by_user: self.dm_channels_by_user,
            ..*old
        })
        &&& self.private_channels@ == old.private_channels@.remove(channel.id)
        &&& self.dm_channels_by_user@ == if channel.recipients@.len() == 1 {
            old.dm_channels_by_user@.remove(channel.recipients@[0])
        } else {
            old.dm_channels_by_user@
        }
    }

    /// What caching the members of a chunk for the cached guild `guild_id`
    /// gives: every member the guild lacked joins it (the first of the chunk
    /// with its user id), every member's user is cached (as the chunk's first
    /// member with that id sent it, when it was not cached yet), and each
    /// cached user counts the cached guilds it is a member of.
    pub open spec fn chunk_members_cached(
        &self,
        old: &Cache,
        guild_id: u64,
        members: Seq<MemberData>,
    ) -> bool {
        let g = old.guilds@[guild_id];
        let ng = self.guilds@[guild_id];
        &&& ng.members@.dom() == g.members@.dom().union(member_ids(members))
        &&& forall|k: u64| #[trigger]
            ng.members@.contains_key(k) ==> if g.members@.contains_key(k) {
                ng.members@[k] == g.members@[k]
            } else {
                same_member(ng.members@[k], spec_member_from(first_member_with_id(members, k)))
            }
        &&& self.users@.dom() == old.users@.dom().union(member_ids(members))
        &&& forall|u: u64| #[trigger]
            self.users@.contains_key(u) ==> self.users@[u] == (CachedUser {
                mutual_servers: mutual_count(self.guilds@, u) as u64,
                ..(if old.users@.contains_key(u) {
                    old.users@[u]
                } else {
                    spec_user_from(first_member_with_id(members, u).user)
                })
            })
    }

    /// What a member chunk for the cached guild `chunk.guild_id` gives: its
    /// members cached, the member and user counters raised by what joined;
    /// after the last chunk, the guild complete, one partial guild less and
    /// one loaded guild more, the shard missing one guild less, and the cache
    /// done filling when no guild is partial and every shard is ready.
    pub open spec fn chunk_handled(
        &self,
        old: &Cache,
        shard_id: u64,
        chunk: MemberChunkData,
        states: Seq<ShardState>,
    ) -> bool {
        let gid = chunk.guild_id;
        let g = old.guilds@[gid];
        let last = chunk_is_last(chunk);
        let partial = if last {
            old.stats.guilds_partial.wrapping_sub(1)
        } else {
            old.stats.guilds_partial
        };
        &&& self.chunk_members_cached(old, gid, chunk.members@)
        &&& self.guilds@ == old.guilds@.insert(
            gid,
            CachedGuild {
                members: self.guilds@[gid].members,
                complete: g.complete || last,
                ..g
            },
        )
        &&& self.stats == (CacheStats {
            users_unique: old.stats.users_unique.wrapping_add(
                (self.users@.len() - old.users@.len()) as i64,
            ),
            users_total: old.stats.users_total.wrapping_add(
                (self.guilds@[gid].members@.len() - g.members@.len()) as i64,
            ),
            guilds_partial: partial,
            guilds_loaded: if last {
                old.stats.guilds_loaded.wrapping_add(1)
            } else {
                old.stats.guilds_loaded
            },
            ..old.stats
        })
        &&& self.missing_per_shard@ == if last {
            old.missing_per_shard@.insert(
                shard_id,
                old.missing_per_shard@[shard_id].wrapping_sub(1),
            )
        } else {
            old.missing_per_shard@
        }
        &&& self.filling == (old.filling && !(last && partial == 0 && all_ready(states)))
        &&& self.cluster_id == old.cluster_id
        &&& self.guild_channels@ == old.guild_channels@
        &&& self.private_channels@ == old.private_channels@
        &&& self.dm_channels_by_user@ == old.dm_channels_by_user@
        &&& self.emoji@ == old.emoji@
        &&& self.unavailable_guilds@ == old.unavailable_guilds@
        &&& self.expected@ == old.expected@
    }

    /// `self` follows from `old` by handling guild `id` of a ready event: the
    /// guild is taken out when it is cached, nothing happens otherwise.
    pub open spec fn ready_step(&self, old: &Cache, id: u64) -> bool {
        &&& old.wf()
        &&& if old.guilds@.contains_key(id) {
            self.nuked(old, id)
        } else {
            *self == *old
        }
    }

    /// The caches of `chain` follow one from the other by taking the listed
    /// guilds out in turn, starting from `old` and ending at `self`.
    pub open spec fn nuke_chain(&self, old: &Cache, ids: Seq<u64>, chain: Seq<Cache>) -> bool {
        &&& chain.len() == ids.len() + 1
        &&& chain[0] == *old
        &&& chain.last() == *self
        &&& forall|i: int| 0 <= i < ids.len() ==> #[trigger] chain[i + 1].ready_step(&chain[i], ids[i])
    }

    /// What taking the listed guilds out of the cache one after the other
    /// gives, skipping those that are not cached (any more).
    pub open spec fn nuked_in_turn(&self, old: &Cache, ids: Seq<u64>) -> bool {
        exists|chain: Seq<Cache>| #[trigger] self.nuke_chain(old, ids, chain)
    }

    /// The event can be handled: the last member chunk of a cached guild comes
    /// from a shard the cache tracks, and a guild create is for a guild the
    /// cache does not hold (for a cached guild the handler would take the
    /// guild cache's write lock while holding its read lock, and never return).
    pub open spec fn accepts(&self, shard_id: u64, event: CacheEvent) -> bool {
        match event {
            CacheEvent::GuildCreate(g) => !self.guilds@.contains_key(g.id),
            CacheEvent::MemberChunk(chunk) => self.guilds@.contains_key(chunk.guild_id)
                && chunk_is_last(chunk) ==> self.missing_per_shard@.contains_key(shard_id),
            _ => true,
        }
    }

    /// What handling `event` from shard `shard_id` gives, and the answer `r`.
    pub open spec fn event_applied(
        &self,
        old: &Cache,
        shard_id: u64,
        event: CacheEvent,
        states: Seq<ShardState>,
        r: Option<CacheAction>,
    ) -> bool {
        match event {
            CacheEvent::Ready { guilds } => {
                &&& exists|mid: Cache|
                    #[trigger] mid.nuked_in_turn(old, guilds@) && *self == (Cache {
                        missing_per_shard: self.missing_per_shard,
                        ..mid
                    })
                &&& self.missing_per_shard@ == old.missing_per_shard@.insert(
                    shard_id,
                    guilds@.len() as u64,
                )
                &&& r is None
            },
            CacheEvent::GuildCreate(g) => {
                &&& self.guild_added(old, g)
                &&& r is None
            },
            CacheEvent::GuildUpdate(u) => {
                &&& !old.guilds@.contains_key(u.id) ==> *self == *old
                &&& old.guilds@.contains_key(u.id) ==> *self == (Cache {
                    stats: CacheStats {
                        role_count: old.stats.role_count.wrapping_sub(
                            old.guilds@[u.id].roles@.len() as i64,
                        ).wrapping_add(roles_map(u.roles@).len() as i64),
                        ..old.stats
                    },
                    ..*old
                })
                &&& r is None
            },
            CacheEvent::GuildDelete { id, unavailable } => {
                &&& !old.guilds@.contains_key(id) ==> *self == *old
                &&& old.guilds@.contains_key(id) && !unavailable ==> self.nuked(old, id)
                &&& old.guilds@.contains_key(id) && unavailable ==> exists|mid: Cache|
                    #[trigger] mid.marked_unavailable(old, id) && self.nuked(&mid, id)
                &&& r is None
            },
            CacheEvent::MemberChunk(chunk) => {
                &&& !old.guilds@.contains_key(chunk.guild_id) ==> *self == *old && r is None
                &&& old.guilds@.contains_key(chunk.guild_id) ==> {
                    &&& self.chunk_handled(old, shard_id, chunk, states)
                    &&& r == if chunk_is_last(chunk) && old.missing_per_shard@[shard_id] == 1 {
                        Some(CacheAction::SetShardOnline { shard_id })
                    } else {
                        None
                    }
                }
            },
            CacheEvent::ChannelCreate(channel) => {
                &&& match channel {
                    ChannelData::Group => *self == *old,
                    ChannelData::Guild(data) => match data.spec_guild_id() {
                        Some(gid) => if old.guilds@.contains_key(gid) {
                            self.channel_put(old, gid, data, true)
                        } else {
                            *self == *old
                        },
                        None => *self == *old,
                    },
                    ChannelData::Private(p) => self.private_channel_put(old, p),
                }
                &&& r is None
            },
            CacheEvent::ChannelUpdate(channel) => {
                &&& match channel {
                    ChannelData::Group => *self == *old,
                    ChannelData::Guild(data) => match data.spec_guild_id() {
                        Some(gid) => if old.guilds@.contains_key(gid) {
                            self.channel_put(old, gid, data, false)
                        } else {
                            *self == *old
                        },
                        None => *self == *old,
                    },
                    ChannelData::Private(p) => self.private_channel_put(old, p),
                }
                &&& r is None
            },
            CacheEvent::ChannelDelete(channel) => {
                &&& match channel {
                    ChannelData::Group => *self == *old,
                    ChannelData::Guild(data) => match data.spec_guild_id() {
                        Some(gid) => if old.guilds@.contains_key(gid) {
                            self.channel_taken(old, gid, data.spec_id())
                        } else {
                            *self == *old
                        },
                        None => *self == *old,
                    },
                    ChannelData::Private(p) => self.private_channel_taken(old, p),
                }
                &&& r is None
            },
            CacheEvent::MemberAdd { guild_id, member } => {
                &&& !old.guilds@.contains_key(guild_id) ==> *self == *old
                &&& old.guilds@.contains_key(guild_id) ==> self.member_added(old, guild_id, member)
                &&& r is None
            },
            CacheEvent::MemberUpdate(e) => {
                &&& !old.guilds@.contains_key(e.guild_id) ==> *self == *old && r is None
                &&& old.guilds@.contains_key(e.guild_id) ==> {
                    &&& self.member_update_applied(old, e)
                    &&& r == if !old.guilds@[e.guild_id].members@.contains_key(e.user.id)
                        && old.guilds@[e.guild_id].complete {
                        Some(
                            CacheAction::RequestMember {
                                guild_id: e.guild_id,
                                user_id: e.user.id,
                                shard_id,
                            },
                        )
                    } else {
                        None
                    }
                }
            },
            CacheEvent::MemberRemove { guild_id, user } => {
                &&& !old.guilds@.contains_key(guild_id) ==> *self == *old
                &&& old.guilds@.contains_key(guild_id) ==> self.member_removed(old, guild_id, user.id)
                &&& r is None
            },
            CacheEvent::RoleCreate { guild_id, role } => {
                &&& !old.guilds@.contains_key(guild_id) ==> *self == *old
                &&& old.guilds@.contains_key(guild_id) ==> {
                    &&& *self == (Cache {
                        guilds: self.guilds,
                        stats: CacheStats {
                            role_count: old.stats.role_count.wrapping_add(1),
                            ..old.stats
                        },
                        ..*old
                    })
                    &&& self.guilds@ == old.guilds@.insert(
                        guild_id,
                        CachedGuild { roles: self.guilds@[guild_id].roles, ..old.guilds@[guild_id] },
                    )
                    &&& self.guilds@[guild_id].roles@ == old.guilds@[guild_id].roles@.insert(
                        role.id,
                        spec_role_from(role),
                    )
                }
                &&& r is None
            },
            CacheEvent::RoleUpdate { guild_id, role } => {
                &&& !old.guilds@.contains_key(guild_id) ==> *self == *old
                &&& old.guilds@.contains_key(guild_id) ==> {
                    &&& *self == (Cache { guilds: self.guilds, ..*old })
                    &&& self.guilds@ == old.guilds@.insert(
                        guild_id,
                        CachedGuild { roles: self.guilds@[guild_id].roles, ..old.guilds@[guild_id] },
                    )
                    &&& self.guilds@[guild_id].roles@ == old.guilds@[guild_id].roles@.insert(
                        role.id,
                        spec_role_from(role),
                    )
                }
                &&& r is None
            },
            CacheEvent::RoleDelete { guild_id, role_id } => {
                &&& !old.guilds@.contains_key(guild_id) ==> *self == *old
                &&& old.guilds@.contains_key(guild_id) ==> {
                    &&& *self == (Cache {
                        guilds: self.guilds,
                        stats: CacheStats {
                            role_count: old.stats.role_count.wrapping_sub(1),
                            ..old.stats
                        },
                        ..*old
                    })
                    &&& self.guilds@ == old.guilds@.insert(
                        guild_id,
                        CachedGuild { roles: self.guilds@[guild_id].roles, ..old.guilds@[guild_id] },
                    )
                    &&& self.guilds@[guild_id].roles@ == old.guilds@[guild_id].roles@.remove(
                        role_id,
                    )
                }
                &&& r is None
            },
            CacheEvent::GuildEmojisUpdate => *self == *old && r is None,
            CacheEvent::Other => *self == *old && r is None,
        }
    }

    /// An empty cache for the given cluster, filling.
    pub fn new(cluster_id: u64) -> (r: Cache)
        ensures
            r.wf(),
            r.cluster_id == cluster_id,
            r.guilds@ == Map::<u64, CachedGuild>::empty(),
            r.guild_channels@ == Map::<u64, CachedChannel>::empty(),
            r.private_channels@ == Map::<u64, CachedChannel>::empty(),
            r.dm_channels_by_user@ == Map::<u64, CachedChannel>::empty(),
            r.users@ == Map::<u64, CachedUser>::empty(),
            r.emoji@ == Map::<u64, CachedEmoji>::empty(),
            r.filling,
            r.unavailable_guilds@ == Seq::<u64>::empty(),
            r.expected@ == Seq::<u64>::empty(),
            r.stats == zero_stats(),
            r.missing_per_shard@ == Map::<u64, u64>::empty(),
    {
        Cache {
            cluster_id,
            guilds: HashMap::new(),
            guild_channels: HashMap::new(),
            private_channels: HashMap::new(),
            dm_channels_by_user: HashMap::new(),
            users: HashMap::new(),
            emoji: HashMap::new(),
            filling: true,
            unavailable_guilds: Vec::new(),
            expected: Vec::new(),
            stats: CacheStats::new(),
            missing_per_shard: HashMap::new(),
        }
    }

    /// The cached user with this id, if any.
    pub fn get_user(&self, user_id: u64) -> (r: Option<&CachedUser>)
        ensures
            match r {
                Some(user) => self.users@.contains_key(user_id) && *user == self.users@[user_id],
                None => !self.users@.contains_key(user_id),
            },
    {
        self.users.get(&user_id)
    }

    /// The cached guild with this id, if any.
    pub fn get_guild(&self, guild_id: u64) -> (r: Option<&CachedGuild>)
        ensures
            match r {
                Some(guild) => self.guilds@.contains_key(guild_id) && *guild
                    == self.guilds@[guild_id],
                None => !self.guilds@.contains_key(guild_id),
            },
    {
        self.guilds.get(&guild_id)
    }

    /// Takes a guild and everything only it held out of the cache.
    pub fn nuke_guild_cache(&mut self, guild_id: u64)
        requires
            old(self).wf(),
            old(self).guilds@.contains_key(guild_id),
        ensures
            final(self).wf(),
            final(self).nuked(&*old(self), guild_id),
    {
        let ghost before = *self;
        let guild = self.guilds.remove(&guild_id).unwrap();
        let ghost rest = self.guilds@;
        remove_channel_keys(&mut self.guild_channels, &guild.channels);
        self.stats.channel_count = self.stats.channel_count.wrapping_sub(guild.channels.len() as i64);
        proof {
            assert forall|u: u64| #[trigger] self.users@.contains_key(u) implies self.users@[u].mutual_servers
                == mutual_count(rest, u) + (if guild.members@.contains_key(u) {
                1nat
            } else {
                0nat
            }) by {
                lemma_mutual_remove(before.guilds@, guild_id, u);
            }
            assert forall|u: u64| #[trigger] guild.members@.contains_key(u) implies self.users@.contains_key(u) by {
                assert(before.guilds@[guild_id].members@.contains_key(u));
            }
        }
        let purged = release_members(&mut self.users, &guild.members, Ghost(rest));
        self.stats.users_total = self.stats.users_total.wrapping_sub(guild.members.len() as i64);
        self.stats.users_unique = self.stats.users_unique.wrapping_sub(purged as i64);
        remove_emoji_ids(&mut self.emoji, &guild.emoji);
        self.stats.emoji_count = self.stats.emoji_count.wrapping_sub(guild.emoji.len() as i64);
        self.stats.role_count = self.stats.role_count.wrapping_sub(guild.roles.len() as i64);
        if !guild.complete {
            self.stats.guilds_partial = self.stats.guilds_partial.wrapping_sub(1);
        } else {
            self.stats.guilds_loaded = self.stats.guilds_loaded.wrapping_sub(1);
        }
        proof {
            assert forall|g: u64, u: u64|
                #![trigger self.guilds@[g].members@.contains_key(u)]
                self.guilds@.contains_key(g) && self.guilds@[g].members@.contains_key(u) implies self.guilds@[g].members@[u].user_id
                    == u && self.users@.contains_key(u) by {
                assert(before.guilds@[g].members@.contains_key(u));
                assert(guilds_with_member(rest, u).contains(g));
            }
        }
    }

    /// Adds a member to a cached guild that lacks it; the member's user,
    /// already cached, counts one mutual server more. A member that `joined`
    /// (rather than arrived in a member chunk) also raises the guild's member
    /// count.
    fn add_member(&mut self, guild_id: u64, member: CachedMember, joined: bool)
        requires
            old(self).wf(),
            old(self).guilds@.contains_key(guild_id),
            !old(self).guilds@[guild_id].members@.contains_key(member.user_id),
            old(self).users@.contains_key(member.user_id),
        ensures
            final(self).wf(),
            final(self).guilds@ == old(self).guilds@.insert(
                guild_id,
                CachedGuild {
                    members: final(self).guilds@[guild_id].members,
                    member_count: if joined {
                        old(self).guilds@[guild_id].member_count.wrapping_add(1)
                    } else {
                        old(self).guilds@[guild_id].member_count
                    },
                    ..old(self).guilds@[guild_id]
                },
            ),
            final(self).guilds@[guild_id].members@ == old(self).guilds@[guild_id].members@.insert(
                member.user_id,
                member,
            ),
            final(self).users@ == old(self).users@.insert(
                member.user_id,
                CachedUser {
                    mutual_servers: (old(self).users@[member.user_id].mutual_servers + 1) as u64,
                    ..old(self).users@[member.user_id]
                },
            ),
            *final(self) == (Cache { guilds: final(self).guilds, users: final(self).users, ..*old(self) }),
    {
        let ghost before = *self;
        let user_id = member.user_id;
        let n = self.guilds.len();
        let mut guild = self.guilds.remove(&guild_id).unwrap();
        guild.members.insert(user_id, member);
        if joined {
            guild.member_count = guild.member_count.wrapping_add(1);
        }
        let ghost g2 = guild;
        self.guilds.insert(guild_id, guild);
        proof {
            assert(self.guilds@ == before.guilds@.insert(guild_id, g2));
            lemma_mutual_bound(before.guilds@, guild_id, user_id);
        }
        let mut user = self.users.remove(&user_id).unwrap();
        user.mutual_servers = user.mutual_servers + 1;
        self.users.insert(user_id, user);
        proof {
            assert forall|w: u64| #[trigger] self.users@.contains_key(w) implies self.users@[w].id == w
                && self.users@[w].mutual_servers == mutual_count(self.guilds@, w) by {
                lemma_mutual_insert(before.guilds@, guild_id, g2, w);
                lemma_mutual_remove(before.guilds@, guild_id, w);
            }
            assert forall|g: u64, u: u64|
                #![trigger self.guilds@[g].members@.contains_key(u)]
                self.guilds@.contains_key(g) && self.guilds@[g].members@.contains_key(u) implies self.guilds@[g].members@[u].user_id
                    == u && self.users@.contains_key(u) by {
                if g != guild_id {
                    assert(before.guilds@[g].members@.contains_key(u));
                } else if u != user_id {
                    assert(before.guilds@[g].members@.contains_key(u));
                }
            }
        }
    }

    /// Removes a member from a cached guild, if the guild has it; the
    /// member's user counts one mutual server less and leaves the cache when
    /// it has none left. Returns whether the guild had the member.
    fn remove_member(&mut self, guild_id: u64, user_id: u64) -> (r: bool)
        requires
            old(self).wf(),
            old(self).guilds@.contains_key(guild_id),
        ensures
            final(self).wf(),
            r == old(self).guilds@[guild_id].members@.contains_key(user_id),
            !r ==> *final(self) == *old(self),
            r ==> {
                &&& final(self).guilds@ == old(self).guilds@.insert(
                    guild_id,
                    CachedGuild {
                        members: final(self).guilds@[guild_id].members,
                        ..old(self).guilds@[guild_id]
                    },
                )
                &&& final(self).guilds@[guild_id].members@ == old(
                    self,
                ).guilds@[guild_id].members@.remove(user_id)
                &&& final(self).users@ == if old(self).users@[user_id].mutual_servers == 1 {
                    old(self).users@.remove(user_id)
                } else {
                    old(self).users@.insert(
                        user_id,
                        CachedUser {
                            mutual_servers: (old(self).users@[user_id].mutual_servers - 1) as u64,
                            ..old(self).users@[user_id]
                        },
                    )
                }
                &&& final(self).stats == (CacheStats {
                    users_total: old(self).stats.users_total.wrapping_sub(1),
                    users_unique: if old(self).users@[user_id].mutual_servers == 1 {
                        old(self).stats.users_unique.wrapping_sub(1)
                    } else {
                        old(self).stats.users_unique
                    },
                    ..old(self).stats
                })
                &&& final(self).guild_channels@ == old(self).guild_channels@
                &&& final(self).emoji@ == old(self).emoji@
                &&& final(self).side_state_same(&*old(self))
            },
    {
        let present = match self.guilds.get(&guild_id) {
            Some(g) => g.members.contains_key(&user_id),
            None => false,
        };
        if !present {
            return false;
        }
        let ghost before = *self;
        let mut guild = self.guilds.remove(&guild_id).unwrap();
        guild.members.remove(&user_id);
        let ghost g2 = guild;
        self.guilds.insert(guild_id, guild);
        proof {
            assert(self.guilds@ == before.guilds@.insert(guild_id, g2));
            assert(before.guilds@[guild_id].members@.contains_key(user_id));
            lemma_mutual_remove(before.guilds@, guild_id, user_id);
            assert(guilds_with_member(before.guilds@, user_id).contains(guild_id));
        }
        let mut user = self.users.remove(&user_id).unwrap();
        user.mutual_servers = user.mutual_servers - 1;
        if user.mutual_servers == 0 {
            self.stats.users_unique = self.stats.users_unique.wrapping_sub(1);
        } else {
            self.users.insert(user_id, user);
        }
        self.stats.users_total = self.stats.users_total.wrapping_sub(1);
        proof {
            assert forall|w: u64| #[trigger] self.users@.contains_key(w) implies self.users@[w].id == w
                && self.users@[w].mutual_servers == mutual_count(self.guilds@, w) by {
                lemma_mutual_insert(before.guilds@, guild_id, g2, w);
                lemma_mutual_remove(before.guilds@, guild_id, w);
            }
            assert forall|g: u64, u: u64|
                #![trigger self.guilds@[g].members@.contains_key(u)]
                self.guilds@.contains_key(g) && self.guilds@[g].members@.contains_key(u) implies self.guilds@[g].members@[u].user_id
                    == u && self.users@.contains_key(u) by {
                assert(before.guilds@[g].members@.contains_key(u));
                if u == user_id {
                    lemma_mutual_insert(before.guilds@, guild_id, g2, u);
                    assert(guilds_with_member(self.guilds@, u).contains(g));
                }
            }
        }
        true
    }

    /// A guild create for a guild the cache does not hold: the guild is
    /// cached as the gateway sent it.
    pub fn on_guild_create(&mut self, guild: &GuildData)
        requires
            old(self).wf(),
            !old(self).guilds@.contains_key(guild.id),
        ensures
            final(self).wf(),
            final(self).guild_added(&*old(self), *guild),
    {
        let ghost mid = *self;
        let cached = CachedGuild::from_guild(guild);
        proof {
            crate::guild::lemma_roles_map_keyed(guild.roles@);
        }
        add_channels_to_index(&mut self.guild_channels, &cached.channels);
        self.stats.channel_count = self.stats.channel_count.wrapping_add(cached.channels.len() as i64);
        add_emoji_to_index(&mut self.emoji, &cached.emoji);
        self.stats.emoji_count = self.stats.emoji_count.wrapping_add(cached.emoji.len() as i64);
        self.stats.role_count = self.stats.role_count.wrapping_add(cached.roles.len() as i64);
        remove_first_occurrence(&mut self.unavailable_guilds, guild.id);
        let ghost c = cached;
        self.guilds.insert(guild.id, cached);
        self.stats.guilds_partial = self.stats.guilds_partial.wrapping_add(1);
        proof {
            assert(!mid.guilds@.contains_key(guild.id));
            assert(mid.guilds@.remove(guild.id) =~= mid.guilds@);
            assert forall|u: u64| #[trigger] self.users@.contains_key(u) implies self.users@[u].id == u
                && self.users@[u].mutual_servers == mutual_count(self.guilds@, u) by {
                lemma_mutual_insert(mid.guilds@, guild.id, c, u);
            }
            assert forall|g: u64, u: u64|
                #![trigger self.guilds@[g].members@.contains_key(u)]
                self.guilds@.contains_key(g) && self.guilds@[g].members@.contains_key(u) implies self.guilds@[g].members@[u].user_id
                    == u && self.users@.contains_key(u) by {
                assert(g != guild.id);
                assert(mid.guilds@[g].members@.contains_key(u));
            }
            assert(self.guild_added(&mid, *guild));
        }
    }

    /// Puts a role into a cached guild, under its id.
    fn guild_insert_role(&mut self, guild_id: u64, role: CachedRole)
        requires
            old(self).wf(),
            old(self).guilds@.contains_key(guild_id),
        ensures
            final(self).wf(),
            *final(self) == (Cache { guilds: final(self).guilds, ..*old(self) }),
            final(self).guilds@ == old(self).guilds@.insert(
                guild_id,
                CachedGuild { roles: final(self).guilds@[guild_id].roles, ..old(self).guilds@[guild_id] },
            ),
            final(self).guilds@[guild_id].roles@ == old(self).guilds@[guild_id].roles@.insert(
                role.id,
                role,
            ),
    {
        let ghost before = *self;
        let mut guild = self.guilds.remove(&guild_id).unwrap();
        guild.roles.insert(role.id, role);
        let ghost g2 = guild;
        self.guilds.insert(guild_id, guild);
        proof {
            assert(self.guilds@ =~= before.guilds@.insert(guild_id, g2));
            lemma_wf_replace_guild(before, *self, guild_id, g2);
        }
    }

    /// Takes a role out of a cached guild.
    fn guild_remove_role(&mut self, guild_id: u64, role_id: u64)
        requires
            old(self).wf(),
            old(self).guilds@.contains_key(guild_id),
        ensures
            final(self).wf(),
            *final(self) == (Cache { guilds: final(self).guilds, ..*old(self) }),
            final(self).guilds@ == old(self).guilds@.insert(
                guild_id,
                CachedGuild { roles: final(self).guilds@[guild_id].roles, ..old(self).guilds@[guild_id] },
            ),
            final(self).guilds@[guild_id].roles@ == old(self).guilds@[guild_id].roles@.remove(role_id),
    {
        let ghost before = *self;
        let mut guild = self.guilds.remove(&guild_id).unwrap();
        guild.roles.remove(&role_id);
        let ghost g2 = guild;
        self.guilds.insert(guild_id, guild);
        proof {
            assert(self.guilds@ =~= before.guilds@.insert(guild_id, g2));
            lemma_wf_replace_guild(before, *self, guild_id, g2);
        }
    }

    /// Puts a channel into a cached guild, under the given id.
    fn guild_insert_channel(&mut self, guild_id: u64, channel_id: u64, channel: CachedChannel)
        requires
            old(self).wf(),
            old(self).guilds@.contains_key(guild_id),
            channel.spec_id() == channel_id,
        ensures
            final(self).wf(),
            *final(self) == (Cache { guilds: final(self).guilds, ..*old(self) }),
            final(self).guilds@ == old(self).guilds@.insert(
                guild_id,
                CachedGuild {
                    channels: final(self).guilds@[guild_id].channels,
                    ..old(self).guilds@[guild_id]
                },
            ),
            final(self).guilds@[guild_id].channels@ == old(self).guilds@[guild_id].channels@.insert(
                channel_id,
                channel,
            ),
    {
        let ghost before = *self;
        let mut guild = self.guilds.remove(&guild_id).unwrap();
        guild.channels.insert(channel_id, channel);
        let ghost g2 = guild;
        self.guilds.insert(guild_id, guild);
        proof {
            assert(self.guilds@ =~= before.guilds@.insert(guild_id, g2));
            lemma_wf_replace_guild(before, *self, guild_id, g2);
        }
    }

    /// Takes a channel out of a cached guild.
    fn guild_remove_channel(&mut self, guild_id: u64, channel_id: u64)
        requires
            old(self).wf(),
            old(self).guilds@.contains_key(guild_id),
        ensures
            final(self).wf(),
            *final(self) == (Cache { guilds: final(self).guilds, ..*old(self) }),
            final(self).guilds@ == old(self).guilds@.insert(
                guild_id,
                CachedGuild {
                    channels: final(self).guilds@[guild_id].channels,
                    ..old(self).guilds@[guild_id]
                },
            ),
            final(self).guilds@[guild_id].channels@ == old(self).guilds@[guild_id].channels@.remove(
                channel_id,
            ),
    {
        let ghost before = *self;
        let mut guild = self.guilds.remove(&guild_id).unwrap();
        guild.channels.remove(&channel_id);
        let ghost g2 = guild;
        self.guilds.insert(guild_id, guild);
        proof {
            assert(self.guilds@ =~= before.guilds@.insert(guild_id, g2));
            lemma_wf_replace_guild(before, *self, guild_id, g2);
        }
    }

    /// Replaces a member of a cached guild by a member with the same user id.
    fn guild_replace_member(&mut self, guild_id: u64, member: CachedMember)
        requires
            old(self).wf(),
            old(self).guilds@.contains_key(guild_id),
            old(self).guilds@[guild_id].members@.contains_key(member.user_id),
        ensures
            final(self).wf(),
            *final(self) == (Cache { guilds: final(self).guilds, ..*old(self) }),
            final(self).guilds@ == old(self).guilds@.insert(
                guild_id,
                CachedGuild {
                    members: final(self).guilds@[guild_id].members,
                    ..old(self).guilds@[guild_id]
                },
            ),
            final(self).guilds@[guild_id].members@ == old(self).guilds@[guild_id].members@.insert(
                member.user_id,
                member,
            ),
    {
        let ghost before = *self;
        let mut guild = self.guilds.remove(&guild_id).unwrap();
        guild.members.insert(member.user_id, member);
        let ghost g2 = guild;
        self.guilds.insert(guild_id, guild);
        proof {
            assert(g2.members@.dom() =~= before.guilds@[guild_id].members@.dom());
            assert(self.guilds@ =~= before.guilds@.insert(guild_id, g2));
            lemma_wf_replace_guild(before, *self, guild_id, g2);
        }
    }

    /// A guild delete: a cached guild is taken out of the cache, and, when the
    /// delete says the guild became unavailable, first listed as unavailable
    /// and counted as an outage.
    pub fn on_guild_delete(&mut self, guild_id: u64, unavailable: bool)
        requires
            old(self).wf(),
        ensures
            final(self).wf(),
            !old(self).guilds@.contains_key(guild_id) ==> *final(self) == *old(self),
            old(self).guilds@.contains_key(guild_id) && !unavailable ==> final(self).nuked(
                &*old(self),
                guild_id,
            ),
            old(self).guilds@.contains_key(guild_id) && unavailable ==> exists|mid: Cache|
                #[trigger] mid.marked_unavailable(&*old(self), guild_id) && final(self).nuked(
                    &mid,
                    guild_id,
                ),
    {
        if !self.guilds.contains_key(&guild_id) {
            return;
        }
        if unavailable {
            self.stats.guilds_outage = self.stats.guilds_outage.wrapping_add(1);
            self.unavailable_guilds.push(guild_id);
        }
        let ghost mid = *self;
        self.nuke_guild_cache(guild_id);
        proof {
            if unavailable {
                assert(mid.marked_unavailable(&*old(self), guild_id));
            }
        }
    }

    /// A guild update: the cached guild is updated to learn its new role
    /// count, and the role counter moves by the difference; the cached guild
    /// itself stays as it was.
    pub fn on_guild_update(&mut self, update: &PartialGuildData)
        requires
            old(self).wf(),
        ensures
            final(self).wf(),
            !old(self).guilds@.contains_key(update.id) ==> *final(self) == *old(self),
            old(self).guilds@.contains_key(update.id) ==> *final(self) == (Cache {
                stats: CacheStats {
                    role_count: old(self).stats.role_count.wrapping_sub(
                        old(self).guilds@[update.id].roles@.len() as i64,
                    ).wrapping_add(roles_map(update.roles@).len() as i64),
                    ..old(self).stats
                },
                ..*old(self)
            }),
    {
        match self.guilds.get(&update.id) {
            Some(old_guild) => {
                let guild = old_guild.update(update);
                let before = old_guild.roles.len() as i64;
                let after = guild.roles.len() as i64;
                self.stats.role_count = self.stats.role_count.wrapping_sub(before).wrapping_add(
                    after,
                );
            },
            None => {},
        }
    }

    /// A role create: the role goes into its cached guild, one more role.
    pub fn on_role_create(&mut self, guild_id: u64, role: &RoleData)
        requires
            old(self).wf(),
        ensures
            final(self).wf(),
            !old(self).guilds@.contains_key(guild_id) ==> *final(self) == *old(self),
            old(self).guilds@.contains_key(guild_id) ==> {
                &&& *final(self) == (Cache {
                    guilds: final(self).guilds,
                    stats: CacheStats {
                        role_count: old(self).stats.role_count.wrapping_add(1),
                        ..old(self).stats
                    },
                    ..*old(self)
                })
                &&& final(self).guilds@ == old(self).guilds@.insert(
                    guild_id,
                    CachedGuild {
                        roles: final(self).guilds@[guild_id].roles,
                        ..old(self).guilds@[guild_id]
                    },
                )
                &&& final(self).guilds@[guild_id].roles@ == old(self).guilds@[guild_id].roles@.insert(
                    role.id,
                    spec_role_from(*role),
                )
            },
    {
        if self.guilds.contains_key(&guild_id) {
            self.guild_insert_role(guild_id, CachedRole::from_role(role));
            self.stats.role_count = self.stats.role_count.wrapping_add(1);
        }
    }

    /// A role update: the role replaces the one with its id in its cached
    /// guild.
    pub fn on_role_update(&mut self, guild_id: u64, role: &RoleData)
        requires
            old(self).wf(),
        ensures
            final(self).wf(),
            !old(self).guilds@.contains_key(guild_id) ==> *final(self) == *old(self),
            old(self).guilds@.contains_key(guild_id) ==> {
                &&& *final(self) == (Cache { guilds: final(self).guilds, ..*old(self) })
                &&& final(self).guilds@ == old(self).guilds@.insert(
                    guild_id,
                    CachedGuild {
                        roles: final(self).guilds@[guild_id].roles,
                        ..old(self).guilds@[guild_id]
                    },
                )
                &&& final(self).guilds@[guild_id].roles@ == old(self).guilds@[guild_id].roles@.insert(
                    role.id,
                    spec_role_from(*role),
                )
            },
    {
        if self.guilds.contains_key(&guild_id) {
            self.guild_insert_role(guild_id, CachedRole::from_role(role));
        }
    }

    /// A role delete: the role leaves its cached guild, one role less.
    pub fn on_role_delete(&mut self, guild_id: u64, role_id: u64)
        requires
            old(self).wf(),
        ensures
            final(self).wf(),
            !old(self).guilds@.contains_key(guild_id) ==> *final(self) == *old(self),
            old(self).guilds@.contains_key(guild_id) ==> {
                &&& *final(self) == (Cache {
                    guilds: final(self).guilds,
                    stats: CacheStats {
                        role_count: old(self).stats.role_count.wrapping_sub(1),
                        ..old(self).stats
                    },
                    ..*old(self)
                })
                &&& final(self).guilds@ == old(self).guilds@.insert(
                    guild_id,
                    CachedGuild {
                        roles: final(self).guilds@[guild_id].roles,
                        ..old(self).guilds@[guild_id]
                    },
                )
                &&& final(self).guilds@[guild_id].roles@ == old(self).guilds@[guild_id].roles@.remove(
                    role_id,
                )
            },
    {
        if self.guilds.contains_key(&guild_id) {
            self.guild_remove_role(guild_id, role_id);
            self.stats.role_count = self.stats.role_count.wrapping_sub(1);
        }
    }

    /// A member add: the member joins its cached guild.
    pub fn on_member_add(&mut self, guild_id: u64, member: &MemberData)
        requires
            old(self).wf(),
        ensures
            final(self).wf(),
            !old(self).guilds@.contains_key(guild_id) ==> *final(self) == *old(self),
            old(self).guilds@.contains_key(guild_id) ==> final(self).member_added(
                &*old(self),
                guild_id,
                *member,
            ),
    {
        if !self.guilds.contains_key(&guild_id) {
            return;
        }
        let ghost before = *self;
        self.get_or_insert_user(&member.user);
        let ghost mid = *self;
        let present = match self.guilds.get(&guild_id) {
            Some(g) => g.members.contains_key(&member.user.id),
            None => false,
        };
        if !present {
            let cached = CachedMember::from_member(member);
            self.add_member(guild_id, cached, true);
            self.stats.users_total = self.stats.users_total.wrapping_add(1);
        }
        proof {
            let u = member.user.id;
            let g = before.guilds@[guild_id];
            if !before.users@.contains_key(u) {
                assert(mid.users@ == before.users@.insert(u, spec_user_from(member.user)));
                assert(!g.members@.contains_key(u));
                assert(self.users@ =~= before.users@.insert(
                    u,
                    CachedUser { mutual_servers: 1, ..spec_user_from(member.user) },
                ));
            } else {
                assert(mid.users@ == before.users@);
                if g.members@.contains_key(u) {
                    assert(self.users@ =~= before.users@.insert(
                        u,
                        CachedUser {
                            mutual_servers: before.users@[u].mutual_servers,
                            ..before.users@[u]
                        },
                    ));
                }
            }
            assert(self.member_added(&before, guild_id, *member));
        }
    }

    /// A member remove: the member leaves its cached guild.
    pub fn on_member_remove(&mut self, guild_id: u64, user_id: u64)
        requires
            old(self).wf(),
        ensures
            final(self).wf(),
            !old(self).guilds@.contains_key(guild_id) ==> *final(self) == *old(self),
            old(self).guilds@.contains_key(guild_id) ==> final(self).member_removed(
                &*old(self),
                guild_id,
                user_id,
            ),
    {
        if self.guilds.contains_key(&guild_id) {
            self.remove_member(guild_id, user_id);
        }
    }

    /// A member update. When the guild is complete but lacks the member, the
    /// answer asks the gateway for that member.
    pub fn on_member_update(&mut self, event: &MemberUpdateData, shard_id: u64) -> (r: Option<
        CacheAction,
    >)
        requires
            old(self).wf(),
        ensures
            final(self).wf(),
            !old(self).guilds@.contains_key(event.guild_id) ==> *final(self) == *old(self) && r
                is None,
            old(self).guilds@.contains_key(event.guild_id) ==> {
                &&& final(self).member_update_applied(&*old(self), *event)
                &&& r == if !old(self).guilds@[event.guild_id].members@.contains_key(event.user.id)
                    && old(self).guilds@[event.guild_id].complete {
                    Some(
                        CacheAction::RequestMember {
                            guild_id: event.guild_id,
                            user_id: event.user.id,
                            shard_id,
                        },
                    )
                } else {
                    None
                }
            },
    {
        let guild_id = event.guild_id;
        let user_id = event.user.id;
        let (complete, present) = match self.guilds.get(&guild_id) {
            Some(g) => (g.complete, g.members.contains_key(&user_id)),
            None => {
                return None;
            },
        };
        let ghost before = *self;
        let same = match self.users.get(&user_id) {
            Some(user) => Some(user.is_same_as(&event.user)),
            None => None,
        };
        match same {
            Some(true) => {},
            Some(false) => {
                let mut fresh = CachedUser::from_user(&event.user);
                let old_user = self.users.remove(&user_id).unwrap();
                fresh.mutual_servers = old_user.mutual_servers;
                self.users.insert(user_id, fresh);
                proof {
                    assert(self.users@ =~= before.users@.insert(
                        user_id,
                        CachedUser {
                            mutual_servers: before.users@[user_id].mutual_servers,
                            ..spec_user_from(event.user)
                        },
                    ));
                    assert forall|g: u64, u: u64|
                        #![trigger self.guilds@[g].members@.contains_key(u)]
                        self.guilds@.contains_key(g) && self.guilds@[g].members@.contains_key(u) implies self.guilds@[g].members@[u].user_id
                            == u && self.users@.contains_key(u) by {
                        assert(before.guilds@[g].members@.contains_key(u));
                    }
                }
            },
            None => {
                if complete {
                    self.get_or_insert_user(&event.user);
                }
            },
        }
        let ghost mid = *self;
        proof {
            assert(mid.users@ == if before.users@.contains_key(user_id) {
                if before.users@[user_id].spec_is_same_as(event.user) {
                    before.users@
                } else {
                    before.users@.insert(
                        user_id,
                        CachedUser {
                            mutual_servers: before.users@[user_id].mutual_servers,
                            ..spec_user_from(event.user)
                        },
                    )
                }
            } else if complete {
                before.users@.insert(user_id, spec_user_from(event.user))
            } else {
                before.users@
            });
        }
        if present {
            let updated = match self.guilds.get(&guild_id) {
                Some(g) => match g.members.get(&user_id) {
                    Some(m) => Some(m.update(event)),
                    None => None,
                },
                None => None,
            };
            match updated {
                Some(m) => {
                    self.guild_replace_member(guild_id, m);
                },
                None => {},
            }
            None
        } else if complete {
            Some(CacheAction::RequestMember { guild_id, user_id, shard_id })
        } else {
            None
        }
    }

    /// Puts a gateway channel into its cached guild and the channel index.
    fn put_guild_channel(&mut self, guild_id: u64, data: &GuildChannelData, counted: bool)
        requires
            old(self).wf(),
            old(self).guilds@.contains_key(guild_id),
        ensures
            final(self).wf(),
            final(self).channel_put(&*old(self), guild_id, *data, counted),
    {
        let channel = CachedChannel::from_guild_channel(data, guild_id);
        let id = channel.get_id();
        let copy = channel.duplicate();
        self.guild_insert_channel(guild_id, id, channel);
        self.guild_channels.insert(id, copy);
        if counted {
            self.stats.channel_count = self.stats.channel_count.wrapping_add(1);
        }
    }

    /// Caches a private channel, and returns it.
    pub fn insert_private_channel(&mut self, channel: &PrivateChannelData) -> (r: CachedChannel)
        requires
            old(self).wf(),
        ensures
            final(self).wf(),
            final(self).private_channel_put(&*old(self), *channel),
            r == spec_private_channel(*channel),
    {
        let cached = CachedChannel::from_private(channel);
        match &cached {
            CachedChannel::DM { receiver: Some(user_id), .. } => {
                self.dm_channels_by_user.insert(*user_id, cached.duplicate());
            },
            _ => {},
        }
        self.private_channels.insert(channel.id, cached.duplicate());
        cached
    }

    /// A channel create: a guild channel goes into its cached guild (one more
    /// channel), a private channel is cached, a group is ignored.
    pub fn on_channel_create(&mut self, channel: &ChannelData)
        requires
            old(self).wf(),
        ensures
            final(self).wf(),
            match *channel {
                ChannelData::Group => *final(self) == *old(self),
                ChannelData::Guild(data) => match data.spec_guild_id() {
                    Some(gid) => if old(self).guilds@.contains_key(gid) {
                        final(self).channel_put(&*old(self), gid, data, true)
                    } else {
                        *final(self) == *old(self)
                    },
                    None => *final(self) == *old(self),
                },
                ChannelData::Private(p) => final(self).private_channel_put(&*old(self), p),
            },
    {
        match channel {
            ChannelData::Group => {},
            ChannelData::Guild(data) => match data.guild_id() {
                Some(gid) => {
                    if self.guilds.contains_key(&gid) {
                        self.put_guild_channel(gid, data, true);
                    }
                },
                None => {},
            },
            ChannelData::Private(p) => {
                self.insert_private_channel(p);
            },
        }
    }

    /// A channel update: a guild channel replaces the one with its id in its
    /// cached guild, a private channel is cached again, a group is ignored.
    pub fn on_channel_update(&mut self, channel: &ChannelData)
        requires
            old(self).wf(),
        ensures
            final(self).wf(),
            match *channel {
                ChannelData::Group => *final(self) == *old(self),
                ChannelData::Guild(data) => match data.spec_guild_id() {
                    Some(gid) => if old(self).guilds@.contains_key(gid) {
                        final(self).channel_put(&*old(self), gid, data, false)
                    } else {
                        *final(self) == *old(self)
                    },
                    None => *final(self) == *old(self),
                },
                ChannelData::Private(p) => final(self).private_channel_put(&*old(self), p),
            },
    {
        match channel {
            ChannelData::Group => {},
            ChannelData::Guild(data) => match data.guild_id() {
                Some(gid) => {
                    if self.guilds.contains_key(&gid) {
                        self.put_guild_channel(gid, data, false);
                    }
                },
                None => {},
            },
            ChannelData::Private(p) => {
                self.insert_private_channel(p);
            },
        }
    }

    /// A channel delete: a guild channel leaves its cached guild (one channel
    /// less), a private channel is forgotten, a group is ignored.
    pub fn on_channel_delete(&mut self, channel: &ChannelData)
        requires
            old(self).wf(),
        ensures
            final(self).wf(),
            match *channel {
                ChannelData::Group => *final(self) == *old(self),
                ChannelData::Guild(data) => match data.spec_guild_id() {
                    Some(gid) => if old(self).guilds@.contains_key(gid) {
                        final(self).channel_taken(&*old(self), gid, data.spec_id())
                    } else {
                        *final(self) == *old(self)
                    },
                    None => *final(self) == *old(self),
                },
                ChannelData::Private(p) => final(self).private_channel_taken(&*old(self), p),
            },
    {
        match channel {
            ChannelData::Group => {},
            ChannelData::Guild(data) => match data.guild_id() {
                Some(gid) => {
                    if self.guilds.contains_key(&gid) {
                        let id = data.id();
                        self.guild_channels.remove(&id);
                        self.guild_remove_channel(gid, id);
                        self.stats.channel_count = self.stats.channel_count.wrapping_sub(1);
                    }
                },
                None => {},
            },
            ChannelData::Private(p) => {
                self.private_channels.remove(&p.id);
                if p.recipients.len() == 1 {
                    self.dm_channels_by_user.remove(&p.recipients[0]);
                }
            },
        }
    }

    /// A shard is ready: it will send these guilds, so they count as missing
    /// for it, and any of them still cached is taken out first.
    pub fn on_ready(&mut self, shard_id: u64, guilds: &Vec<u64>)
        requires
            old(self).wf(),
        ensures
            final(self).wf(),
            exists|mid: Cache|
                #[trigger] mid.nuked_in_turn(&*old(self), guilds@) && *final(self) == (Cache {
                    missing_per_shard: final(self).missing_per_shard,
                    ..mid
                }),
            final(self).missing_per_shard@ == old(self).missing_per_shard@.insert(
                shard_id,
                guilds@.len() as u64,
            ),
    {
        let ghost start = *self;
        let ghost mut chain: Seq<Cache> = seq![*self];
        let mut i: usize = 0;
        while i < guilds.len()
            invariant
                i <= guilds.len(),
                self.wf(),
                self.nuke_chain(&start, guilds@.subrange(0, i as int), chain),
                self.missing_per_shard@ == start.missing_per_shard@,
            decreases guilds.len() - i,
        {
            let ghost prev = *self;
            let id = guilds[i];
            if self.guilds.contains_key(&id) {
                self.nuke_guild_cache(id);
            }
            proof {
                let cur = *self;
                assert(cur.ready_step(&prev, id));
                let chain2 = chain.push(cur);
                let q = guilds@.subrange(0, i + 1);
                assert forall|j: int| 0 <= j < q.len() implies #[trigger] chain2[j + 1].ready_step(
                    &chain2[j],
                    q[j],
                ) by {
                    if j < i {
                        assert(chain2[j + 1] == chain[j + 1]);
                        assert(chain2[j] == chain[j]);
                        assert(q[j] == guilds@.subrange(0, i as int)[j]);
                    }
                }
                chain = chain2;
            }
            i = i + 1;
        }
        let ghost mid = *self;
        self.missing_per_shard.insert(shard_id, guilds.len() as u64);
        proof {
            assert(guilds@.subrange(0, guilds.len() as int) == guilds@);
            assert(mid.nuke_chain(&start, guilds@, chain));
            assert(mid.nuked_in_turn(&start, guilds@));
            assert(*self == (Cache { missing_per_shard: self.missing_per_shard, ..mid }));
        }
    }

    /// Keeps the cache up to date with a gateway event from shard `shard_id`,
    /// given the states of the cluster's shards. The answer tells the bot what
    /// to do next, if anything.
    pub fn update(&mut self, shard_id: u64, event: &CacheEvent, shard_states: &Vec<ShardState>) -> (r:
        Option<CacheAction>)
        requires
            old(self).wf(),
            old(self).accepts(shard_id, *event),
        ensures
            final(self).wf(),
            final(self).event_applied(&*old(self), shard_id, *event, shard_states@, r),
    {
        match event {
            CacheEvent::Ready { guilds } => {
                self.on_ready(shard_id, guilds);
                None
            },
            CacheEvent::GuildCreate(g) => {
                self.on_guild_create(g);
                None
            },
            CacheEvent::GuildUpdate(u) => {
                self.on_guild_update(u);
                None
            },
            CacheEvent::GuildEmojisUpdate => None,
            CacheEvent::GuildDelete { id, unavailable } => {
                self.on_guild_delete(*id, *unavailable);
                None
            },
            CacheEvent::MemberChunk(chunk) => self.on_member_chunk(shard_id, chunk, shard_states),
            CacheEvent::ChannelCreate(channel) => {
                self.on_channel_create(channel);
                None
            },
            CacheEvent::ChannelUpdate(channel) => {
                self.on_channel_update(channel);
                None
            },
            CacheEvent::ChannelDelete(channel) => {
                self.on_channel_delete(channel);
                None
            },
            CacheEvent::MemberAdd { guild_id, member } => {
                self.on_member_add(*guild_id, member);
                None
            },
            CacheEvent::MemberUpdate(e) => self.on_member_update(e, shard_id),
            CacheEvent::MemberRemove { guild_id, user } => {
                self.on_member_remove(*guild_id, user.id);
                None
            },
            CacheEvent::RoleCreate { guild_id, role } => {
                self.on_role_create(*guild_id, role);
                None
            },
            CacheEvent::RoleUpdate { guild_id, role } => {
                self.on_role_update(*guild_id, role);
                None
            },
            CacheEvent::RoleDelete { guild_id, role_id } => {
                self.on_role_delete(*guild_id, *role_id);
                None
            },
            CacheEvent::Other => None,
        }
    }

    /// Empties the guild, channel, user and emoji caches and starts filling
    /// again.
    pub fn reset(&mut self)
        requires
            old(self).wf(),
        ensures
            final(self).wf(),
            *final(self) == (Cache {
                guilds: final(self).guilds,
                guild_channels: final(self).guild_channels,
                users: final(self).users,
                emoji: final(self).emoji,
                private_channels: final(self).private_channels,
                filling: true,
                ..*old(self)
            }),
            final(self).guilds@ == Map::<u64, CachedGuild>::empty(),
            final(self).guild_channels@ == Map::<u64, CachedChannel>::empty(),
            final(self).users@ == Map::<u64, CachedUser>::empty(),
            final(self).emoji@ == Map::<u64, CachedEmoji>::empty(),
            final(self).private_channels@ == Map::<u64, CachedChannel>::empty(),
    {
        self.guilds.clear();
        self.guild_channels.clear();
        self.users.clear();
        self.emoji.clear();
        self.filling = true;
        self.private_channels.clear();
    }

    /// The cached channel with this id: a guild channel, else a private one.
    pub fn get_channel(&self, channel_id: u64) -> (r: Option<&CachedChannel>)
        ensures
            r == if self.guild_channels@.contains_key(channel_id) {
                Some(&self.guild_channels@[channel_id])
            } else if self.private_channels@.contains_key(channel_id) {
                Some(&self.private_channels@[channel_id])
            } else {
                None
            },
    {
        match self.guild_channels.get(&channel_id) {
            Some(channel) => Some(channel),
            None => self.private_channels.get(&channel_id),
        }
    }

    /// The direct message channel cached for this user, if any.
    pub fn get_dm_channel_for(&self, user_id: u64) -> (r: Option<&CachedChannel>)
        ensures
            r == if self.dm_channels_by_user@.contains_key(user_id) {
                Some(&self.dm_channels_by_user@[user_id])
            } else {
                None
            },
    {
        self.dm_channels_by_user.get(&user_id)
    }

    /// The member of a cached guild with this user id, if any.
    pub fn get_member(&self, guild_id: u64, user_id: u64) -> (r: Option<&CachedMember>)
        ensures
            r == if self.guilds@.contains_key(guild_id) && self.guilds@[guild_id].members@.contains_key(
                user_id,
            ) {
                Some(&self.guilds@[guild_id].members@[user_id])
            } else {
                None
            },
    {
        match self.guilds.get(&guild_id) {
            Some(guild) => guild.members.get(&user_id),
            None => None,
        }
    }

    /// Merges freshly fetched data of a cached user into the cache; a user
    /// that is not cached is left out.
    pub fn update_user(&mut self, new: &CachedUser)
        requires
            old(self).wf(),
        ensures
            final(self).wf(),
            !old(self).users@.contains_key(new.id) ==> *final(self) == *old(self),
            old(self).users@.contains_key(new.id) ==> {
                &&& *final(self) == (Cache { users: final(self).users, ..*old(self) })
                &&& final(self).users@ == old(self).users@.insert(
                    new.id,
                    spec_update_user_with_user(old(self).users@[new.id], *new),
                )
            },
    {
        let updated = match self.users.get(&new.id) {
            Some(old_user) => update_user_with_user(old_user, new),
            None => {
                return;
            },
        };
        self.users.insert(new.id, updated);
        proof {
            assert forall|g: u64, u: u64|
                #![trigger self.guilds@[g].members@.contains_key(u)]
                self.guilds@.contains_key(g) && self.guilds@[g].members@.contains_key(u) implies self.guilds@[g].members@[u].user_id
                    == u && self.users@.contains_key(u) by {
                assert(old(self).guilds@[g].members@.contains_key(u));
            }
        }
    }

    /// Whether every guild of the shard is fully cached; a shard the cache
    /// does not track (after a cold resume) has everything.
    pub fn shard_cached(&self, shard_id: u64) -> (r: bool)
        ensures
            r == if self.missing_per_shard@.contains_key(shard_id) {
                self.missing_per_shard@[shard_id] == 0
            } else {
                true
            },
    {
        match self.missing_per_shard.get(&shard_id) {
            Some(missing) => *missing == 0,
            None => true,
        }
    }

    /// Starts tracking the cluster's shards, each missing no guild yet.
    pub fn register_shards(&mut self, shards: &Vec<u64>)
        requires
            old(self).wf(),
        ensures
            final(self).wf(),
            *final(self) == (Cache { missing_per_shard: final(self).missing_per_shard, ..*old(self) }),
            final(self).missing_per_shard@.dom() == old(self).missing_per_shard@.dom().union(
                shards@.to_set(),
            ),
            forall|s: u64| #[trigger]
                final(self).missing_per_shard@.contains_key(s) ==> final(self).missing_per_shard@[s]
                    == if shards@.contains(s) {
                    0
                } else {
                    old(self).missing_per_shard@[s]
                },
    {
        let mut i: usize = 0;
        while i < shards.len()
            invariant
                i <= shards.len(),
                *self == (Cache { missing_per_shard: self.missing_per_shard, ..*old(self) }),
                self.missing_per_shard@.dom() == old(self).missing_per_shard@.dom().union(
                    shards@.subrange(0, i as int).to_set(),
                ),
                forall|s: u64| #[trigger]
                    self.missing_per_shard@.contains_key(s) ==> self.missing_per_shard@[s]
                        == if shards@.subrange(0, i as int).contains(s) {
                        0
                    } else {
                        old(self).missing_per_shard@[s]
                    },
            decreases shards.len() - i,
        {
            let s = shards[i];
            self.missing_per_shard.insert(s, 0);
            proof {
                let p = shards@.subrange(0, i as int);
                let q = shards@.subrange(0, i + 1);
                assert(q == p.push(s));
                p.lemma_push_to_set_commute(s);
                assert forall|x: u64| q.contains(x) <==> (p.contains(x) || x == s) by {
                    if q.contains(x) {
                        let j = choose|j: int| 0 <= j < q.len() && #[trigger] q[j] == x;
                        if j < i {
                            assert(p[j] == x);
                        }
                    }
                    if p.contains(x) {
                        let j = choose|j: int| 0 <= j < p.len() && #[trigger] p[j] == x;
                        assert(q[j] == x);
                    }
                    if x == s {
                        assert(q[i as int] == x);
                    }
                }
                assert(self.missing_per_shard@.dom() =~= old(self).missing_per_shard@.dom().union(
                    q.to_set(),
                ));
            }
            i = i + 1;
        }
        proof {
            assert(shards@.subrange(0, shards.len() as int) == shards@);
        }
    }

    /// Marks a cached guild as complete.
    fn set_guild_complete(&mut self, guild_id: u64)
        requires
            old(self).wf(),
            old(self).guilds@.contains_key(guild_id),
        ensures
            final(self).wf(),
            *final(self) == (Cache { guilds: final(self).guilds, ..*old(self) }),
            final(self).guilds@ == old(self).guilds@.insert(
                guild_id,
                CachedGuild { complete: true, ..old(self).guilds@[guild_id] },
            ),
    {
        let ghost before = *self;
        let mut guild = self.guilds.remove(&guild_id).unwrap();
        guild.complete = true;
        let ghost g2 = guild;
        self.guilds.insert(guild_id, guild);
        proof {
            assert(self.guilds@ =~= before.guilds@.insert(guild_id, g2));
            lemma_wf_replace_guild(before, *self, guild_id, g2);
        }
    }

    /// A member chunk: its members join their cached guild; the last chunk
    /// completes the guild and, when it was the shard's last missing guild,
    /// answers that the shard can show as online.
    pub fn on_member_chunk(
        &mut self,
        shard_id: u64,
        chunk: &MemberChunkData,
        shard_states: &Vec<ShardState>,
    ) -> (r: Option<CacheAction>)
        requires
            old(self).wf(),
            old(self).guilds@.contains_key(chunk.guild_id) && chunk_is_last(*chunk) ==> old(
                self,
            ).missing_per_shard@.contains_key(shard_id),
        ensures
            final(self).wf(),
            !old(self).guilds@.contains_key(chunk.guild_id) ==> *final(self) == *old(self) && r
                is None,
            old(self).guilds@.contains_key(chunk.guild_id) ==> {
                &&& final(self).chunk_handled(&*old(self), shard_id, *chunk, shard_states@)
                &&& r == if chunk_is_last(*chunk) && old(self).missing_per_shard@[shard_id] == 1 {
                    Some(CacheAction::SetShardOnline { shard_id })
                } else {
                    None
                }
            },
    {
        let guild_id = chunk.guild_id;
        if !self.guilds.contains_key(&guild_id) {
            return None;
        }
        let ghost start = *self;
        let (new_members, new_users) = self.cache_chunk_members(guild_id, &chunk.members);
        self.stats.users_unique = self.stats.users_unique.wrapping_add(new_users as i64);
        self.stats.users_total = self.stats.users_total.wrapping_add(new_members as i64);
        let ghost mid = *self;
        let last = chunk.chunk_count.wrapping_sub(1) == chunk.chunk_index && chunk.nonce.is_none();
        if !last {
            proof {
                assert(self.guilds@ =~= start.guilds@.insert(
                    guild_id,
                    CachedGuild {
                        members: self.guilds@[guild_id].members,
                        complete: start.guilds@[guild_id].complete || false,
                        ..start.guilds@[guild_id]
                    },
                ));
            }
            return None;
        }
        self.set_guild_complete(guild_id);
        let missing = match self.missing_per_shard.get(&shard_id) {
            Some(m) => *m,
            None => 0,
        };
        self.missing_per_shard.insert(shard_id, missing.wrapping_sub(1));
        let action = if missing == 1 {
            Some(CacheAction::SetShardOnline { shard_id })
        } else {
            None
        };
        self.stats.guilds_partial = self.stats.guilds_partial.wrapping_sub(1);
        self.stats.guilds_loaded = self.stats.guilds_loaded.wrapping_add(1);
        if self.stats.guilds_partial == 0 && self.filling && shards_all_ready(shard_states) {
            self.filling = false;
        }
        proof {
            assert(self.guilds@ =~= start.guilds@.insert(
                guild_id,
                CachedGuild {
                    members: self.guilds@[guild_id].members,
                    complete: start.guilds@[guild_id].complete || true,
                    ..start.guilds@[guild_id]
                },
            ));
            assert(self.guilds@[guild_id].members@ == mid.guilds@[guild_id].members@);
            assert forall|u: u64| #[trigger] self.users@.contains_key(u) implies mutual_count(
                self.guilds@,
                u,
            ) == mutual_count(mid.guilds@, u) by {
                assert(guilds_with_member(self.guilds@, u) =~= guilds_with_member(mid.guilds@, u));
            }
            assert forall|k: u64| #[trigger]
                self.guilds@[guild_id].members@.contains_key(k) implies if start.guilds@[guild_id].members@.contains_key(k) {
                    self.guilds@[guild_id].members@[k] == start.guilds@[guild_id].members@[k]
                } else {
                    same_member(
                        self.guilds@[guild_id].members@[k],
                        spec_member_from(first_member_with_id(chunk.members@, k)),
                    )
                } by {
                assert(mid.guilds@[guild_id].members@.contains_key(k));
            }
        }
        action
    }

    /// Caches the members of a chunk that the cached guild lacks, with their
    /// users. Returns how many members joined and how many users were added.
    fn cache_chunk_members(&mut self, guild_id: u64, members: &Vec<MemberData>) -> (r: (
        usize,
        usize,
    ))
        requires
            old(self).wf(),
            old(self).guilds@.contains_key(guild_id),
        ensures
            final(self).wf(),
            *final(self) == (Cache { guilds: final(self).guilds, users: final(self).users, ..*old(self) }),
            final(self).guilds@ == old(self).guilds@.insert(
                guild_id,
                CachedGuild {
                    members: final(self).guilds@[guild_id].members,
                    ..old(self).guilds@[guild_id]
                },
            ),
            final(self).chunk_members_cached(&*old(self), guild_id, members@),
            r.0 == final(self).guilds@[guild_id].members@.len() - old(
                self,
            ).guilds@[guild_id].members@.len(),
            r.1 == final(self).users@.len() - old(self).users@.len(),
    {
        let ghost g = self.guilds@[guild_id];
        let ghost start = *self;
        let mut new_members: usize = 0;
        let mut new_users: usize = 0;
        let mut i: usize = 0;
        proof {
            assert(member_ids(members@.subrange(0, 0)) =~= Set::<u64>::empty());
            assert(self.guilds@ =~= start.guilds@.insert(
                guild_id,
                CachedGuild { members: self.guilds@[guild_id].members, ..g },
            ));
            assert(g.members@.dom().union(Set::<u64>::empty()) =~= g.members@.dom());
            assert(start.users@.dom().union(Set::<u64>::empty()) =~= start.users@.dom());
        }
        while i < members.len()
            invariant
                i <= members.len(),
                start == *old(self),
                start.wf(),
                start.guilds@.contains_key(guild_id),
                g == start.guilds@[guild_id],
                self.wf(),
                *self == (Cache { guilds: self.guilds, users: self.users, ..start }),
                self.guilds@ == start.guilds@.insert(
                    guild_id,
                    CachedGuild { members: self.guilds@[guild_id].members, ..g },
                ),
                self.chunk_members_cached(&start, guild_id, members@.subrange(0, i as int)),
                new_members <= i,
                new_users <= i,
                new_members == self.guilds@[guild_id].members@.len() - g.members@.len(),
                new_users == self.users@.len() - start.users@.len(),
            decreases members.len() - i,
        {
            let k = members[i].user.id;
            let ghost p = members@.subrange(0, i as int);
            let ghost q = members@.subrange(0, i + 1);
            let ghost before = *self;
            proof {
                assert(q.drop_last() == p);
                lemma_member_ids_push(p, q, k);
            }
            let present = match self.guilds.get(&guild_id) {
                Some(guild) => guild.members.contains_key(&k),
                None => false,
            };
            if !present {
                let added = self.cache_user(&members[i].user);
                if added {
                    new_users = new_users + 1;
                }
                let member = CachedMember::from_member(&members[i]);
                self.add_member(guild_id, member, false);
                new_members = new_members + 1;
                proof {
                    assert(!member_ids(p).contains(k));
                    assert(before.users@.contains_key(k) == start.users@.contains_key(k));
                    assert(first_member_with_id(q, k) == members@[i as int]);
                    assert forall|u: u64| #[trigger]
                        self.guilds@[guild_id].members@.contains_key(u) implies if g.members@.contains_key(u) {
                            self.guilds@[guild_id].members@[u] == g.members@[u]
                        } else {
                            same_member(
                                self.guilds@[guild_id].members@[u],
                                spec_member_from(first_member_with_id(q, u)),
                            )
                        } by {
                        if u != k {
                            assert(before.guilds@[guild_id].members@.contains_key(u));
                            if !g.members@.contains_key(u) {
                                assert(member_ids(p).contains(u));
                                assert(first_member_with_id(q, u) == first_member_with_id(p, u));
                            }
                        }
                    }
                    assert forall|u: u64| #[trigger] self.users@.contains_key(u) implies self.users@[u] == (
                    CachedUser {
                        mutual_servers: mutual_count(self.guilds@, u) as u64,
                        ..(if start.users@.contains_key(u) {
                            start.users@[u]
                        } else {
                            spec_user_from(first_member_with_id(q, u).user)
                        })
                    }) by {
                        if u != k && !start.users@.contains_key(u) {
                            assert(before.users@.contains_key(u));
                            assert(member_ids(p).contains(u));
                            assert(first_member_with_id(q, u) == first_member_with_id(p, u));
                        }
                    }
                    assert(self.guilds@[guild_id].members@.dom() =~= g.members@.dom().union(
                        member_ids(q),
                    ));
                    assert(self.users@.dom() =~= start.users@.dom().union(member_ids(q)));
                    assert(self.guilds@ =~= start.guilds@.insert(
                        guild_id,
                        CachedGuild { members: self.guilds@[guild_id].members, ..g },
                    ));
                }
            } else {
                proof {
                    assert(g.members@.dom().union(member_ids(p)).contains(k));
                    if g.members@.contains_key(k) {
                        assert(start.users@.contains_key(k));
                    }
                    assert forall|u: u64| #[trigger]
                        self.guilds@[guild_id].members@.contains_key(u) implies if g.members@.contains_key(u) {
                            self.guilds@[guild_id].members@[u] == g.members@[u]
                        } else {
                            same_member(
                                self.guilds@[guild_id].members@[u],
                                spec_member_from(first_member_with_id(q, u)),
                            )
                        } by {
                        if !g.members@.contains_key(u) {
                            assert(member_ids(p).contains(u));
                            assert(first_member_with_id(q, u) == first_member_with_id(p, u));
                        }
                    }
                    assert forall|u: u64| #[trigger] self.users@.contains_key(u) implies self.users@[u] == (
                    CachedUser {
                        mutual_servers: mutual_count(self.guilds@, u) as u64,
                        ..(if start.users@.contains_key(u) {
                            start.users@[u]
                        } else {
                            spec_user_from(first_member_with_id(q, u).user)
                        })
                    }) by {
                        if !start.users@.contains_key(u) {
                            assert(member_ids(p).contains(u));
                            assert(first_member_with_id(q, u) == first_member_with_id(p, u));
                        }
                    }
                    assert(self.guilds@[guild_id].members@.dom() =~= g.members@.dom().union(
                        member_ids(q),
                    ));
                    assert(self.users@.dom() =~= start.users@.dom().union(member_ids(q)));
                }
            }
            i = i + 1;
        }
        assert(members@.subrange(0, members.len() as int) == members@);
        (new_members, new_users)
    }

    /// Caches the user if it is not cached yet, in no mutual server.
    /// Returns whether it was added.
    fn cache_user(&mut self, user: &UserData) -> (added: bool)
        requires
            old(self).wf(),
        ensures
            final(self).wf(),
            added == !old(self).users@.contains_key(user.id),
            !added ==> *final(self) == *old(self),
            added ==> *final(self) == (Cache { users: final(self).users, ..*old(self) }),
            added ==> final(self).users@ == old(self).users@.insert(user.id, spec_user_from(*user)),
    {
        if self.users.contains_key(&user.id) {
            return false;
        }
        proof {
            // a user that is not cached is a member of no cached guild
            assert(guilds_with_member(self.guilds@, user.id) =~= Set::<u64>::empty());
        }
        self.users.insert(user.id, CachedUser::from_user(user));
        true
    }

    /// Caches the user if it is not cached yet (in no mutual server, counted
    /// as one more unique user), and returns the cached user.
    pub fn get_or_insert_user(&mut self, user: &UserData) -> (r: CachedUser)
        requires
            old(self).wf(),
        ensures
            final(self).wf(),
            old(self).users@.contains_key(user.id) ==> {
                &&& r == old(self).users@[user.id]
                &&& *final(self) == *old(self)
            },
            !old(self).users@.contains_key(user.id) ==> {
                &&& r == spec_user_from(*user)
                &&& *final(self) == (Cache {
                    users: final(self).users,
                    stats: CacheStats {
                        users_unique: old(self).stats.users_unique.wrapping_add(1),
                        ..old(self).stats
                    },
                    ..*old(self)
                })
                &&& final(self).users@ == old(self).users@.insert(user.id, r)
            },
    {
        match self.users.get(&user.id) {
            Some(cached) => {
                return cached.duplicate();
            },
            None => {},
        }
        self.cache_user(user);
        self.stats.users_unique = self.stats.users_unique.wrapping_add(1);
        CachedUser::from_user(user)
    }
}

} // verus!
