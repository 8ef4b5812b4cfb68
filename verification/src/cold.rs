//! Cold resume: the cache frozen into chunks before a restart, and brought
//! back after it.
use vstd::prelude::*;

use crate::cache::{
    channel_index_with, emoji_index, emoji_index_with, guilds_with_member, mutual_count, Cache,
    CacheStats,
};
use crate::guild::index_by;
use crate::cached::{same_member, CachedMember, CachedUser};
use crate::channel::CachedChannel;
use crate::guild::{
    bumped, guild_defrosted, guild_frozen, guild_restored, keyed_by_id, lemma_freeze_defrost,
    member_occurrences, CachedGuild,
    ColdStorageGuild,
};
use crate::keys::map_keys;

verus! {

broadcast use {vstd::std_specs::hash::group_hash_axioms, vstd::seq_lib::seq_to_set_is_finite};

/// A chunk of guilds is closed once the items it holds pass this many.
pub const GUILD_CHUNK_ITEMS: u128 = 100000;

/// Users are dealt into one chunk per this many users, plus one.
pub const USERS_PER_CHUNK: usize = 100000;

/// How many items a guild holds: members, channels, emoji and roles.
pub open spec fn guild_weight(g: CachedGuild) -> nat {
    g.members@.len() + g.channels@.len() + g.emoji@.len() + g.roles@.len()
}

/// How many items the listed guilds hold together.
pub open spec fn ids_weight(guilds: Map<u64, CachedGuild>, ids: Seq<u64>) -> nat
    decreases ids.len(),
{
    if ids.len() == 0 {
        0
    } else {
        ids_weight(guilds, ids.drop_last()) + guild_weight(guilds[ids.last()])
    }
}

/// The guild ids split into chunks, in order: every chunk but the last is
/// closed by the guild that takes it past the limit, and no chunk holds more
/// than the limit before its last guild.
pub open spec fn chunked_by_weight(
    guilds: Map<u64, CachedGuild>,
    ids: Seq<u64>,
    chunks: Seq<Seq<u64>>,
) -> bool {
    &&& chunks.flatten() == ids
    &&& forall|c: int| 0 <= c < chunks.len() ==> #[trigger] chunks[c].len() > 0
    &&& forall|c: int|
        0 <= c < chunks.len() ==> ids_weight(guilds, #[trigger] chunks[c].drop_last())
            <= GUILD_CHUNK_ITEMS
    &&& forall|c: int|
        0 <= c < chunks.len() - 1 ==> ids_weight(guilds, #[trigger] chunks[c]) > GUILD_CHUNK_ITEMS
}

/// The keys dealt round robin into `n` piles: the key at index `i` goes to
/// pile `i % n`.
pub open spec fn deal(keys: Seq<u64>, n: nat) -> Seq<Seq<u64>>
    decreases keys.len(),
{
    if keys.len() == 0 {
        Seq::new(n, |c: int| Seq::<u64>::empty())
    } else {
        let d = deal(keys.drop_last(), n);
        let c = (keys.len() - 1) % (n as int);
        d.update(c, d[c].push(keys.last()))
    }
}

proof fn lemma_deal_len(keys: Seq<u64>, n: nat)
    requires
        n > 0,
    ensures
        deal(keys, n).len() == n,
    decreases keys.len(),
{
    if keys.len() > 0 {
        lemma_deal_len(keys.drop_last(), n);
    }
}

/// The guilds split into chunks of ids, each chunk closed once the items it
/// holds pass the limit.
pub fn plan_guild_chunks(guilds: &std::collections::HashMap<u64, CachedGuild>, ids: &Vec<u64>) -> (r: Vec<Vec<u64>>)
    requires
        forall|i: int| 0 <= i < ids@.len() ==> guilds@.contains_key(#[trigger] ids@[i]),
    ensures
        chunked_by_weight(guilds@, ids@, r@.map_values(|c: Vec<u64>| c@)),
{
    let mut orders: Vec<Vec<u64>> = Vec::new();
    let mut list: Vec<u64> = Vec::new();
    let mut count: u128 = 0;
    let mut i: usize = 0;
    while i < ids.len()
        invariant
            i <= ids.len(),
            forall|j: int| 0 <= j < ids@.len() ==> guilds@.contains_key(#[trigger] ids@[j]),
            count == ids_weight(guilds@, list@),
            count <= GUILD_CHUNK_ITEMS,
            orders@.map_values(|c: Vec<u64>| c@).flatten() + list@ == ids@.subrange(0, i as int),
            forall|c: int| 0 <= c < orders@.len() ==> #[trigger] orders@[c]@.len() > 0,
            forall|c: int|
                0 <= c < orders@.len() ==> ids_weight(guilds@, #[trigger] orders@[c]@.drop_last())
                    <= GUILD_CHUNK_ITEMS,
            forall|c: int|
                0 <= c < orders@.len() ==> ids_weight(guilds@, #[trigger] orders@[c]@)
                    > GUILD_CHUNK_ITEMS,
        decreases ids.len() - i,
    {
        let id = ids[i];
        assert(guilds@.contains_key(ids@[i as int]));
        let g = guilds.get(&id).unwrap();
        let w: u128 = g.members.len() as u128 + g.channels.len() as u128 + g.emoji.len() as u128
            + g.roles.len() as u128;
        let ghost before = list@;
        count = count + w;
        list.push(id);
        proof {
            assert(list@.drop_last() == before);
            assert(ids@.subrange(0, i + 1) == ids@.subrange(0, i as int).push(id));
        }
        if count > GUILD_CHUNK_ITEMS {
            let ghost old_orders = orders@.map_values(|c: Vec<u64>| c@);
            orders.push(list);
            list = Vec::new();
            count = 0;
            proof {
                let new_orders = orders@.map_values(|c: Vec<u64>| c@);
                assert(new_orders == old_orders.push(before.push(id)));
                old_orders.lemma_flatten_push(before.push(id));
                assert(list@ == Seq::<u64>::empty());
            }
        }
        i = i + 1;
    }
    if list.len() > 0 {
        let ghost old_orders = orders@.map_values(|c: Vec<u64>| c@);
        let ghost last = list@;
        orders.push(list);
        proof {
            assert(orders@.map_values(|c: Vec<u64>| c@) == old_orders.push(last));
            old_orders.lemma_flatten_push(last);
            lemma_ids_weight_prefix(guilds@, last);
        }
    }
    proof {
        assert(ids@.subrange(0, ids.len() as int) == ids@);
    }
    orders
}

/// Dropping the last guild does not add weight.
proof fn lemma_ids_weight_prefix(guilds: Map<u64, CachedGuild>, ids: Seq<u64>)
    requires
        ids.len() > 0,
    ensures
        ids_weight(guilds, ids.drop_last()) <= ids_weight(guilds, ids),
{
}

/// The users of the cache dealt round robin into `piles` piles, each user as
/// a fresh copy in no mutual server.
fn deal_users(users: &std::collections::HashMap<u64, CachedUser>, keys: &Vec<u64>, piles: usize) -> (r: Vec<Vec<CachedUser>>)
    requires
        piles > 0,
        forall|i: int| 0 <= i < keys@.len() ==> users@.contains_key(#[trigger] keys@[i]),
    ensures
        r@.len() == piles,
        forall|c: int|
            0 <= c < piles ==> (#[trigger] r@[c])@.len() == deal(keys@, piles as nat)[c].len(),
        forall|c: int, j: int|
            0 <= c < piles && 0 <= j < r@[c]@.len() ==> #[trigger] r@[c]@[j] == (CachedUser {
                mutual_servers: 0,
                ..users@[deal(keys@, piles as nat)[c][j]]
            }),
{
    let mut out: Vec<Vec<CachedUser>> = Vec::new();
    let mut c: usize = 0;
    while c < piles
        invariant
            c <= piles,
            out@.len() == c,
            forall|x: int| 0 <= x < c ==> (#[trigger] out@[x])@.len() == 0,
        decreases piles - c,
    {
        out.push(Vec::new());
        c = c + 1;
    }
    proof {
        assert(deal(keys@.subrange(0, 0), piles as nat) == Seq::new(
            piles as nat,
            |c: int| Seq::<u64>::empty(),
        ));
    }
    let mut i: usize = 0;
    while i < keys.len()
        invariant
            i <= keys.len(),
            piles > 0,
            forall|x: int| 0 <= x < keys@.len() ==> users@.contains_key(#[trigger] keys@[x]),
            out@.len() == piles,
            deal(keys@.subrange(0, i as int), piles as nat).len() == piles,
            forall|x: int|
                0 <= x < piles ==> (#[trigger] out@[x])@.len() == deal(
                    keys@.subrange(0, i as int),
                    piles as nat,
                )[x].len(),
            forall|x: int, j: int|
                0 <= x < piles && 0 <= j < out@[x]@.len() ==> #[trigger] out@[x]@[j] == (CachedUser {
                    mutual_servers: 0,
                    ..users@[deal(keys@.subrange(0, i as int), piles as nat)[x][j]]
                }),
        decreases keys.len() - i,
    {
        assert(users@.contains_key(keys@[i as int]));
        let user = users.get(&keys[i]).unwrap().fresh_copy();
        let pile = i % piles;
        let ghost d = deal(keys@.subrange(0, i as int), piles as nat);
        let ghost before = out@;
        out[pile].push(user);
        proof {
            let q = keys@.subrange(0, i + 1);
            assert(q.drop_last() == keys@.subrange(0, i as int));
            assert(q.last() == keys@[i as int]);
            assert(deal(q, piles as nat) == d.update(pile as int, d[pile as int].push(keys@[i as int])));
            assert forall|x: int, j: int|
                0 <= x < piles && 0 <= j < out@[x]@.len() implies #[trigger] out@[x]@[j] == (CachedUser {
                    mutual_servers: 0,
                    ..users@[deal(q, piles as nat)[x][j]]
                }) by {
                if x != pile {
                    assert(out@[x] == before[x]);
                } else if j < before[x]@.len() {
                    assert(out@[x]@[j] == before[x]@[j]);
                }
            }
            assert forall|x: int| 0 <= x < piles implies (#[trigger] out@[x])@.len() == deal(
                q,
                piles as nat,
            )[x].len() by {
                if x != pile {
                    assert(out@[x] == before[x]);
                }
            }
        }
        i = i + 1;
    }
    proof {
        assert(keys@.subrange(0, keys.len() as int) == keys@);
    }
    out
}

impl Cache {
    /// Freezes the cache for a restart: the guilds, split into chunks of
    /// about a hundred thousand items, each frozen; the users, dealt into one
    /// chunk per hundred thousand users plus one, each in no mutual server.
    /// The guilds, users, guild channels and private channels leave the
    /// cache; the rest stays, counters included.
    pub fn prepare_cold_resume(&mut self) -> (r: (Vec<Vec<ColdStorageGuild>>, Vec<Vec<CachedUser>>))
        requires
            old(self).wf(),
        ensures
            final(self).wf(),
            *final(self) == (Cache {
                guilds: final(self).guilds,
                users: final(self).users,
                guild_channels: final(self).guild_channels,
                private_channels: final(self).private_channels,
                ..*old(self)
            }),
            final(self).guilds@ == Map::<u64, CachedGuild>::empty(),
            final(self).users@ == Map::<u64, CachedUser>::empty(),
            final(self).guild_channels@ == Map::<u64, CachedChannel>::empty(),
            final(self).private_channels@ == Map::<u64, CachedChannel>::empty(),
            exists|ids: Seq<u64>, chunks: Seq<Seq<u64>>|
                #![trigger chunked_by_weight(old(self).guilds@, ids, chunks)]
                ids.to_set() == old(self).guilds@.dom() && ids.no_duplicates() && chunked_by_weight(
                    old(self).guilds@,
                    ids,
                    chunks,
                ) && r.0@.len() == chunks.len() && (forall|c: int|
                    0 <= c < chunks.len() ==> (#[trigger] r.0@[c])@.len() == chunks[c].len()) && (
                forall|c: int, j: int|
                    0 <= c < chunks.len() && 0 <= j < chunks[c].len() ==> guild_frozen(
                        #[trigger] r.0@[c]@[j],
                        old(self).guilds@[chunks[c][j]],
                    )),
            r.1@.len() == old(self).users@.len() / (USERS_PER_CHUNK as nat) + 1,
            exists|keys: Seq<u64>|
                #![trigger keys.to_set()]
                keys.to_set() == old(self).users@.dom() && keys.no_duplicates() && (forall|c: int|
                    0 <= c < r.1@.len() ==> (#[trigger] r.1@[c])@.len() == deal(
                        keys,
                        r.1@.len(),
                    )[c].len()) && (forall|c: int, j: int|
                    0 <= c < r.1@.len() && 0 <= j < r.1@[c]@.len() ==> #[trigger] r.1@[c]@[j]
                        == (CachedUser {
                        mutual_servers: 0,
                        ..old(self).users@[deal(keys, r.1@.len())[c][j]]
                    })),
            frozen_consistent(r.1@, r.0@),
            frozen_from(*old(self), r.1@, r.0@),
    {
        self.guild_channels.clear();
        self.private_channels.clear();
        let ids = map_keys(&self.guilds);
        proof {
            assert forall|i: int| 0 <= i < ids@.len() implies self.guilds@.contains_key(#[trigger] ids@[i]) by {
                assert(ids@.to_set().contains(ids@[i]));
            }
        }
        let orders = plan_guild_chunks(&self.guilds, &ids);
        let ghost chunks = orders@.map_values(|c: Vec<u64>| c@);
        proof {
            assert forall|c: int, j: int| 0 <= c < chunks.len() && 0 <= j < chunks[c].len() implies self.guilds@.contains_key(#[trigger] chunks[c][j]) by {
                lemma_flatten_member(chunks, c, j);
                assert(ids@.to_set().contains(chunks.flatten()[chunks.subrange(0, c).flatten().len() + j]));
            }
        }
        let mut frozen: Vec<Vec<ColdStorageGuild>> = Vec::new();
        let mut c: usize = 0;
        while c < orders.len()
            invariant
                c <= orders.len(),
                chunks == orders@.map_values(|x: Vec<u64>| x@),
                forall|a: int, j: int|
                    0 <= a < chunks.len() && 0 <= j < chunks[a].len() ==> self.guilds@.contains_key(
                        #[trigger] chunks[a][j],
                    ),
                frozen@.len() == c,
                forall|a: int| 0 <= a < c ==> (#[trigger] frozen@[a])@.len() == chunks[a].len(),
                forall|a: int, j: int|
                    0 <= a < c && 0 <= j < chunks[a].len() ==> guild_frozen(
                        #[trigger] frozen@[a]@[j],
                        self.guilds@[chunks[a][j]],
                    ),
            decreases orders.len() - c,
        {
            let order = &orders[c];
            let mut chunk: Vec<ColdStorageGuild> = Vec::new();
            let mut j: usize = 0;
            while j < order.len()
                invariant
                    j <= order.len(),
                    c < orders.len(),
                    *order == orders@[c as int],
                    chunks == orders@.map_values(|x: Vec<u64>| x@),
                    forall|a: int, j2: int|
                        0 <= a < chunks.len() && 0 <= j2 < chunks[a].len() ==> self.guilds@.contains_key(
                            #[trigger] chunks[a][j2],
                        ),
                    chunk@.len() == j,
                    forall|j2: int| 0 <= j2 < j ==> guild_frozen(#[trigger] chunk@[j2], self.guilds@[order@[j2]]),
                decreases order.len() - j,
            {
                assert(chunks[c as int][j as int] == order@[j as int]);
                let g = self.guilds.get(&order[j]).unwrap();
                chunk.push(ColdStorageGuild::freeze(g));
                j = j + 1;
            }
            frozen.push(chunk);
            c = c + 1;
        }
        let keys = map_keys(&self.users);
        let piles = self.users.len() / USERS_PER_CHUNK + 1;
        proof {
            assert forall|i: int| 0 <= i < keys@.len() implies self.users@.contains_key(#[trigger] keys@[i]) by {
                assert(keys@.to_set().contains(keys@[i]));
            }
        }
        let users = deal_users(&self.users, &keys, piles);
        let ghost before = *self;
        self.guilds.clear();
        self.users.clear();
        proof {
            assert(chunked_by_weight(before.guilds@, ids@, chunks));
            assert(keys@.to_set() == before.users@.dom());
            lemma_freeze_consistent(before, ids@, chunks, frozen@, keys@, users@);
        }
        (frozen, users)
    }
}

/// An element of a chunk is found in the flattened chunks.
proof fn lemma_flatten_member(chunks: Seq<Seq<u64>>, c: int, j: int)
    requires
        0 <= c < chunks.len(),
        0 <= j < chunks[c].len(),
    ensures
        chunks.subrange(0, c).flatten().len() + j < chunks.flatten().len(),
        chunks.flatten()[chunks.subrange(0, c).flatten().len() + j] == chunks[c][j],
        chunks.flatten().contains(chunks[c][j]),
    decreases chunks.len(),
{
    let n = chunks.len() - 1;
    let p = chunks.drop_last();
    assert(chunks == p.push(chunks[n]));
    p.lemma_flatten_push(chunks[n]);
    if c < n {
        lemma_flatten_member(p, c, j);
        assert(p.subrange(0, c) == chunks.subrange(0, c));
        assert(p[c] == chunks[c]);
    } else {
        assert(chunks.subrange(0, c) == p);
    }
    let k = chunks.subrange(0, c).flatten().len() + j;
    assert(chunks.flatten()[k] == chunks[c][j]);
}

/// The user ids of a frozen guild's members, all different and all cached.
pub open spec fn members_restorable(cold: ColdStorageGuild, users: Set<u64>) -> bool {
    &&& forall|i: int, j: int|
        0 <= i < j < cold.members@.len() ==> (#[trigger] cold.members@[i]).user_id
            != (#[trigger] cold.members@[j]).user_id
    &&& forall|i: int| 0 <= i < cold.members@.len() ==> users.contains(#[trigger] cold.members@[i].user_id)
}

impl Cache {
    /// What defrosting the frozen guild `cold` on top of `old` gives: the guild
    /// back under its id, its members' users counting it, its channels and
    /// emoji indexed, and the counters raised: roles, emoji and members by
    /// what the guild holds, channels by the size of the whole channel index,
    /// and one more loaded guild.
    pub open spec fn guild_defrosted_into(&self, old: &Cache, cold: ColdStorageGuild) -> bool {
        let c = self.guilds@[cold.id];
        &&& self.guilds@ == old.guilds@.insert(cold.id, c)
        &&& guild_defrosted(c, cold)
        &&& self.users@.dom() == old.users@.dom()
        &&& forall|u: u64| #[trigger]
            self.users@.contains_key(u) ==> self.users@[u] == (CachedUser {
                mutual_servers: mutual_count(self.guilds@, u) as u64,
                ..old.users@[u]
            })
        &&& channel_index_with(self.guild_channels@, old.guild_channels@, c.channels@)
        &&& emoji_index_with(self.emoji@, old.emoji@, emoji_index(c.emoji@))
        &&& self.stats == (CacheStats {
            role_count: old.stats.role_count.wrapping_add(c.roles@.len() as i64),
            channel_count: old.stats.channel_count.wrapping_add(self.guild_channels@.len() as i64),
            emoji_count: old.stats.emoji_count.wrapping_add(c.emoji@.len() as i64),
            users_total: old.stats.users_total.wrapping_add(c.members@.len() as i64),
            guilds_loaded: old.stats.guilds_loaded.wrapping_add(1),
            ..old.stats
        })
        &&& self.side_state_same(old)
    }

    /// Brings a frozen guild back into the cache.
    pub fn defrost_guild(&mut self, cold: &ColdStorageGuild)
        requires
            old(self).wf(),
            !old(self).guilds@.contains_key(cold.id),
            members_restorable(*cold, old(self).users@.dom()),
        ensures
            final(self).wf(),
            final(self).guild_defrosted_into(&*old(self), *cold),
    {
        let ghost before = *self;
        proof {
            assert forall|i: int| 0 <= i < cold.members@.len() implies before.users@.contains_key(
                #[trigger] cold.members@[i].user_id,
            ) by {}
        }
        let guild = CachedGuild::defrost(&mut self.users, cold);
        let ghost c = guild;
        let ghost mk = |m: crate::cached::CachedMember| m.user_id;
        proof {
            lemma_defrosted_keyed(c, *cold);
            assert forall|u: u64| #[trigger] member_occurrences(cold.members@, u) == if c.members@.contains_key(u) {
                1nat
            } else {
                0nat
            } by {
                lemma_occurrences_distinct(cold.members@, u);
                lemma_index_by_dom(cold.members@, mk, u);
            }
        }
        crate::cache::add_channels_to_index(&mut self.guild_channels, &guild.channels);
        crate::cache::add_emoji_to_index(&mut self.emoji, &guild.emoji);
        self.stats.role_count = self.stats.role_count.wrapping_add(guild.roles.len() as i64);
        self.stats.emoji_count = self.stats.emoji_count.wrapping_add(guild.emoji.len() as i64);
        self.stats.users_total = self.stats.users_total.wrapping_add(guild.members.len() as i64);
        self.guilds.insert(cold.id, guild);
        self.stats.channel_count = self.stats.channel_count.wrapping_add(
            self.guild_channels.len() as i64,
        );
        self.stats.guilds_loaded = self.stats.guilds_loaded.wrapping_add(1);
        let n = self.guilds.len();
        proof {
            assert(before.guilds@.remove(cold.id) =~= before.guilds@);
            assert forall|u: u64| #[trigger] self.users@.contains_key(u) implies self.users@[u] == (
            CachedUser { mutual_servers: mutual_count(self.guilds@, u) as u64, ..before.users@[u] }) by {
                crate::cache::lemma_mutual_insert(before.guilds@, cold.id, c, u);
                crate::cache::lemma_mutual_bound(self.guilds@, cold.id, u);
                assert(member_occurrences(cold.members@, u) == if c.members@.contains_key(u) {
                    1nat
                } else {
                    0nat
                });
                if c.members@.contains_key(u) {
                    assert(bumped(before.users@[u].mutual_servers, 1) == bumped(
                        before.users@[u].mutual_servers,
                        0,
                    ).wrapping_add(1));
                }
                assert(mutual_count(self.guilds@, u) <= n);
            }
            assert forall|u: u64| #[trigger] self.users@.contains_key(u) implies self.users@[u].id == u
                && self.users@[u].mutual_servers == mutual_count(self.guilds@, u) by {
                assert(before.users@.contains_key(u));
                crate::cache::lemma_mutual_bound(self.guilds@, cold.id, u);
            }
            assert forall|g: u64| #[trigger] self.guilds@.contains_key(g) implies self.guilds@[g].id == g
                && keyed_by_id(self.guilds@[g]) by {
                if g != cold.id {
                    assert(before.guilds@.contains_key(g));
                }
            }
            assert forall|g: u64, u: u64|
                #![trigger self.guilds@[g].members@.contains_key(u)]
                self.guilds@.contains_key(g) && self.guilds@[g].members@.contains_key(u) implies self.guilds@[g].members@[u].user_id
                    == u && self.users@.contains_key(u) by {
                if g == cold.id {
                    lemma_index_by_dom(cold.members@, mk, u);
                    let j = choose|j: int| 0 <= j < cold.members@.len() && mk(#[trigger] cold.members@[j]) == u;
                    assert(before.users@.dom().contains(cold.members@[j].user_id));
                } else {
                    assert(before.guilds@[g].members@.contains_key(u));
                }
            }
        }
    }
}

/// The lists of a list, one after the other.
pub open spec fn flat_users(chunks: Seq<Vec<CachedUser>>) -> Seq<CachedUser> {
    chunks.map_values(|c: Vec<CachedUser>| c@).flatten()
}

/// The lists of a list, one after the other.
pub open spec fn flat_guilds(chunks: Seq<Vec<ColdStorageGuild>>) -> Seq<ColdStorageGuild> {
    chunks.map_values(|c: Vec<ColdStorageGuild>| c@).flatten()
}

/// The users of the chunks, one after the other, as copies.
fn flatten_users(chunks: &Vec<Vec<CachedUser>>) -> (r: Vec<CachedUser>)
    ensures
        r@ == flat_users(chunks@),
{
    let mut out: Vec<CachedUser> = Vec::new();
    let mut c: usize = 0;
    while c < chunks.len()
        invariant
            c <= chunks.len(),
            out@ == flat_users(chunks@.subrange(0, c as int)),
        decreases chunks.len() - c,
    {
        let chunk = &chunks[c];
        let ghost start = out@;
        let mut j: usize = 0;
        while j < chunk.len()
            invariant
                j <= chunk.len(),
                out@ == start + chunk@.subrange(0, j as int),
            decreases chunk.len() - j,
        {
            out.push(chunk[j].duplicate());
            assert(chunk@.subrange(0, j + 1) == chunk@.subrange(0, j as int).push(chunk@[j as int]));
            j = j + 1;
        }
        proof {
            assert(chunk@.subrange(0, chunk.len() as int) == chunk@);
            let p = chunks@.subrange(0, c as int);
            let q = chunks@.subrange(0, c + 1);
            assert(q == p.push(chunks@[c as int]));
            assert(q.map_values(|x: Vec<CachedUser>| x@) == p.map_values(|x: Vec<CachedUser>| x@).push(
                chunk@,
            ));
            p.map_values(|x: Vec<CachedUser>| x@).lemma_flatten_push(chunk@);
        }
        c = c + 1;
    }
    proof {
        assert(chunks@.subrange(0, chunks.len() as int) == chunks@);
    }
    out
}

impl Cache {
    /// What restoring frozen users on top of `old` gives: each is cached under
    /// its id (a later one replacing an earlier one and a cached one), and the
    /// unique user counter is set to the number of cached users.
    pub open spec fn users_restored(&self, old: &Cache, users: Seq<CachedUser>) -> bool {
        &&& *self == (Cache {
            users: self.users,
            stats: CacheStats { users_unique: self.users@.len() as i64, ..old.stats },
            ..*old
        })
        &&& self.users@ == old.users@.union_prefer_right(index_by(users, |u: CachedUser| u.id))
    }

    /// The caches of `chain` follow one from the other by defrosting the
    /// frozen guilds in turn, starting from `start`.
    pub open spec fn defrost_chain(
        start: &Cache,
        guilds: Seq<ColdStorageGuild>,
        chain: Seq<Cache>,
    ) -> bool {
        &&& chain.len() == guilds.len() + 1
        &&& chain[0] == *start
        &&& forall|i: int|
            0 <= i < guilds.len() ==> #[trigger] chain[i + 1].guild_defrosted_into(
                &chain[i],
                guilds[i],
            )
    }

    /// Brings frozen users back into a cache that holds no guild. Users
    /// come back in no mutual server.
    pub fn restore_users(&mut self, chunks: &Vec<Vec<CachedUser>>)
        requires
            old(self).wf(),
            old(self).guilds@ == Map::<u64, CachedGuild>::empty(),
            forall|i: int|
                0 <= i < flat_users(chunks@).len() ==> (#[trigger] flat_users(chunks@)[i]).mutual_servers
                    == 0,
        ensures
            final(self).wf(),
            final(self).users_restored(&*old(self), flat_users(chunks@)),
    {
        let list = flatten_users(chunks);
        let ghost key = |u: CachedUser| u.id;
        let mut i: usize = 0;
        proof {
            assert(self.users@ =~= old(self).users@.union_prefer_right(
                index_by(list@.subrange(0, 0), key),
            ));
        }
        while i < list.len()
            invariant
                i <= list.len(),
                key == (|u: CachedUser| u.id),
                list@ == flat_users(chunks@),
                *self == (Cache { users: self.users, ..*old(self) }),
                self.users@ == old(self).users@.union_prefer_right(
                    index_by(list@.subrange(0, i as int), key),
                ),
            decreases list.len() - i,
        {
            let user = list[i].duplicate();
            self.users.insert(user.id, user);
            proof {
                assert(list@.subrange(0, i + 1).drop_last() == list@.subrange(0, i as int));
                assert(self.users@ =~= old(self).users@.union_prefer_right(
                    index_by(list@.subrange(0, i + 1), key),
                ));
            }
            i = i + 1;
        }
        proof {
            assert(list@.subrange(0, list.len() as int) == list@);
        }
        self.stats.users_unique = self.users.len() as i64;
        proof {
            assert forall|u: u64| #[trigger] self.users@.contains_key(u) implies self.users@[u].id == u
                && self.users@[u].mutual_servers == mutual_count(self.guilds@, u) by {
                assert(guilds_with_member(self.guilds@, u) =~= Set::<u64>::empty());
                if index_by(list@, key).contains_key(u) {
                    lemma_index_by_member(list@, key, u);
                }
            }
        }
    }

    /// Whether frozen chunks can be brought back into this cache: it is
    /// well formed and holds no guild, the users come in no mutual server,
    /// the guilds have ids all different, and each guild's members are all
    /// different and cached or among the users brought back.
    pub open spec fn restorable(
        &self,
        users: Seq<Vec<CachedUser>>,
        guilds: Seq<Vec<ColdStorageGuild>>,
    ) -> bool {
        &&& self.wf()
        &&& self.guilds@ == Map::<u64, CachedGuild>::empty()
        &&& forall|i: int|
            0 <= i < flat_users(users).len() ==> (#[trigger] flat_users(users)[i]).mutual_servers
                == 0
        &&& forall|i: int, j: int|
            0 <= i < j < flat_guilds(guilds).len() ==> (#[trigger] flat_guilds(guilds)[i]).id != (
            #[trigger] flat_guilds(guilds)[j]).id
        &&& forall|i: int|
            0 <= i < flat_guilds(guilds).len() ==> members_restorable(
                #[trigger] flat_guilds(guilds)[i],
                self.users@.dom().union(index_by(flat_users(users), |u: CachedUser| u.id).dom()),
            )
    }

    /// Brings a frozen cache back after a restart: the users first, then the
    /// guilds one after the other; the cache is then done filling.
    pub fn restore_cold_resume(
        &mut self,
        users: &Vec<Vec<CachedUser>>,
        guilds: &Vec<Vec<ColdStorageGuild>>,
    )
        requires
            old(self).restorable(users@, guilds@),
        ensures
            final(self).wf(),
            exists|mid: Cache, chain: Seq<Cache>|
                #![trigger mid.users_restored(&*old(self), flat_users(users@)), Cache::defrost_chain(&mid, flat_guilds(guilds@), chain)]
                mid.users_restored(&*old(self), flat_users(users@)) && Cache::defrost_chain(
                    &mid,
                    flat_guilds(guilds@),
                    chain,
                ) && *final(self) == (Cache { filling: false, ..chain.last() }),
    {
        self.restore_users(users);
        let ghost mid = *self;
        let ghost all = flat_guilds(guilds@);
        let ghost mut chain: Seq<Cache> = seq![*self];
        let ghost mut done: Seq<ColdStorageGuild> = Seq::empty();
        let mut c: usize = 0;
        while c < guilds.len()
            invariant
                c <= guilds.len(),
                self.wf(),
                all == flat_guilds(guilds@),
                done == flat_guilds(guilds@.subrange(0, c as int)),
                done.len() <= all.len(),
                forall|x: int| 0 <= x < done.len() ==> #[trigger] done[x] == all[x],
                forall|x: int, y: int| 0 <= x < y < all.len() ==> (#[trigger] all[x]).id != (#[trigger] all[y]).id,
                forall|x: int| 0 <= x < all.len() ==> members_restorable(#[trigger] all[x], mid.users@.dom()),
                self.users@.dom() == mid.users@.dom(),
                forall|x: int| done.len() <= x < all.len() ==> !self.guilds@.contains_key(#[trigger] all[x].id),
                Cache::defrost_chain(&mid, done, chain),
                chain.last() == *self,
            decreases guilds.len() - c,
        {
            let chunk = &guilds[c];
            let ghost start_done = done;
            let mut j: usize = 0;
            proof {
                lemma_flat_guilds_prefix(guilds@, c as int);
            }
            while j < chunk.len()
                invariant
                    j <= chunk.len(),
                    c < guilds.len(),
                    *chunk == guilds@[c as int],
                    self.wf(),
                    all == flat_guilds(guilds@),
                    start_done == flat_guilds(guilds@.subrange(0, c as int)),
                    done == start_done + chunk@.subrange(0, j as int),
                    start_done.len() + chunk@.len() <= all.len(),
                    forall|x: int| 0 <= x < chunk@.len() ==> #[trigger] chunk@[x] == all[start_done.len() + x],
                    forall|x: int| 0 <= x < done.len() ==> #[trigger] done[x] == all[x],
                    forall|x: int, y: int| 0 <= x < y < all.len() ==> (#[trigger] all[x]).id != (#[trigger] all[y]).id,
                    forall|x: int| 0 <= x < all.len() ==> members_restorable(#[trigger] all[x], mid.users@.dom()),
                    self.users@.dom() == mid.users@.dom(),
                    forall|x: int| done.len() <= x < all.len() ==> !self.guilds@.contains_key(#[trigger] all[x].id),
                    Cache::defrost_chain(&mid, done, chain),
                    chain.last() == *self,
                decreases chunk.len() - j,
            {
                let ghost prev = *self;
                let ghost k = done.len() as int;
                proof {
                    assert(chunk@[j as int] == all[k]);
                    assert(members_restorable(all[k], mid.users@.dom()));
                }
                self.defrost_guild(&chunk[j]);
                proof {
                    let cur = *self;
                    let done2 = done.push(chunk@[j as int]);
                    let chain2 = chain.push(cur);
                    assert forall|i: int| 0 <= i < done2.len() implies #[trigger] chain2[i + 1].guild_defrosted_into(
                        &chain2[i],
                        done2[i],
                    ) by {
                        if i < done.len() {
                            assert(chain2[i + 1] == chain[i + 1]);
                            assert(chain2[i] == chain[i]);
                            assert(done2[i] == done[i]);
                        }
                    }
                    assert forall|x: int| done2.len() <= x < all.len() implies !self.guilds@.contains_key(#[trigger] all[x].id) by {
                        assert(all[x].id != all[k].id);
                    }
                    assert(chunk@.subrange(0, j + 1) == chunk@.subrange(0, j as int).push(chunk@[j as int]));
                    chain = chain2;
                    done = done2;
                }
                j = j + 1;
            }
            proof {
                assert(chunk@.subrange(0, chunk.len() as int) == chunk@);
                lemma_flat_guilds_step(guilds@, c as int);
            }
            c = c + 1;
        }
        proof {
            assert(guilds@.subrange(0, guilds.len() as int) == guilds@);
        }
        self.filling = false;
        proof {
            assert(Cache::defrost_chain(&mid, all, chain));
        }
    }
}

/// A value found by index comes from the list with its key.
proof fn lemma_index_by_member<V>(list: Seq<V>, key: spec_fn(V) -> u64, k: u64)
    requires
        index_by(list, key).contains_key(k),
    ensures
        key(index_by(list, key)[k]) == k,
        list.contains(index_by(list, key)[k]),
    decreases list.len(),
{
    if list.len() > 0 {
        let p = list.drop_last();
        if key(list.last()) != k {
            lemma_index_by_member(p, key, k);
            let v = index_by(p, key)[k];
            let j = choose|j: int| 0 <= j < p.len() && p[j] == v;
            assert(list[j] == v);
        } else {
            assert(list[list.len() - 1] == list.last());
        }
    }
}

/// The flattened prefix of chunks, and the next chunk after it, sit inside
/// the whole flattened list.
proof fn lemma_flat_guilds_prefix(chunks: Seq<Vec<ColdStorageGuild>>, c: int)
    requires
        0 <= c < chunks.len(),
    ensures
        flat_guilds(chunks.subrange(0, c)).len() + chunks[c]@.len() <= flat_guilds(chunks).len(),
        forall|x: int|
            0 <= x < chunks[c]@.len() ==> #[trigger] chunks[c]@[x] == flat_guilds(chunks)[flat_guilds(
                chunks.subrange(0, c),
            ).len() + x],
        forall|x: int|
            0 <= x < flat_guilds(chunks.subrange(0, c)).len() ==> #[trigger] flat_guilds(chunks.subrange(0, c))[x]
                == flat_guilds(chunks)[x],
    decreases chunks.len(),
{
    let m = chunks.map_values(|v: Vec<ColdStorageGuild>| v@);
    let n = chunks.len() - 1;
    let p = chunks.drop_last();
    let pm = p.map_values(|v: Vec<ColdStorageGuild>| v@);
    assert(m == pm.push(chunks[n]@));
    pm.lemma_flatten_push(chunks[n]@);
    if c < n {
        lemma_flat_guilds_prefix(p, c);
        assert(p.subrange(0, c) == chunks.subrange(0, c));
        assert(p[c] == chunks[c]);
    } else {
        assert(chunks.subrange(0, c) == p);
    }
}

/// Taking one more chunk adds its guilds to the flattened prefix.
proof fn lemma_flat_guilds_step(chunks: Seq<Vec<ColdStorageGuild>>, c: int)
    requires
        0 <= c < chunks.len(),
    ensures
        flat_guilds(chunks.subrange(0, c + 1)) == flat_guilds(chunks.subrange(0, c)) + chunks[c]@,
{
    let p = chunks.subrange(0, c);
    let q = chunks.subrange(0, c + 1);
    assert(q == p.push(chunks[c]));
    assert(q.map_values(|v: Vec<ColdStorageGuild>| v@) == p.map_values(|v: Vec<ColdStorageGuild>| v@).push(
        chunks[c]@,
    ));
    p.map_values(|v: Vec<ColdStorageGuild>| v@).lemma_flatten_push(chunks[c]@);
}

/// Two lists of lists of the same shape, related element by element, stay
/// related element by element once flattened.
proof fn lemma_flatten_parallel<A, B>(xs: Seq<Seq<A>>, ys: Seq<Seq<B>>, p: spec_fn(A, B) -> bool)
    requires
        xs.len() == ys.len(),
        forall|c: int| 0 <= c < xs.len() ==> #[trigger] xs[c].len() == ys[c].len(),
        forall|c: int, j: int|
            0 <= c < xs.len() && 0 <= j < xs[c].len() ==> p(#[trigger] xs[c][j], ys[c][j]),
    ensures
        xs.flatten().len() == ys.flatten().len(),
        forall|k: int| 0 <= k < xs.flatten().len() ==> p(#[trigger] xs.flatten()[k], ys.flatten()[k]),
    decreases xs.len(),
{
    if xs.len() > 0 {
        let n = xs.len() - 1;
        let px = xs.drop_last();
        let py = ys.drop_last();
        assert forall|c: int| 0 <= c < px.len() implies #[trigger] px[c].len() == py[c].len() by {
            assert(px[c] == xs[c] && py[c] == ys[c]);
        }
        assert forall|c: int, j: int| 0 <= c < px.len() && 0 <= j < px[c].len() implies p(
            #[trigger] px[c][j],
            py[c][j],
        ) by {
            assert(px[c] == xs[c] && py[c] == ys[c]);
        }
        lemma_flatten_parallel(px, py, p);
        assert(xs == px.push(xs[n]));
        assert(ys == py.push(ys[n]));
        px.lemma_flatten_push(xs[n]);
        py.lemma_flatten_push(ys[n]);
        let m = px.flatten().len();
        assert forall|k: int| 0 <= k < xs.flatten().len() implies p(
            #[trigger] xs.flatten()[k],
            ys.flatten()[k],
        ) by {
            if k < m {
                assert(xs.flatten()[k] == px.flatten()[k]);
                assert(ys.flatten()[k] == py.flatten()[k]);
            } else {
                assert(xs.flatten()[k] == xs[n][k - m]);
                assert(ys.flatten()[k] == ys[n][k - m]);
            }
        }
    }
}

/// Every element of the flattened lists is an element of one of them.
proof fn lemma_flatten_source(s: Seq<Seq<u64>>, y: u64)
    requires
        s.flatten().contains(y),
    ensures
        exists|c: int, j: int| 0 <= c < s.len() && 0 <= j < s[c].len() && #[trigger] s[c][j] == y,
    decreases s.len(),
{
    if s.len() == 0 {
        assert(s.flatten().len() == 0);
    } else {
        let n = s.len() - 1;
        let p = s.drop_last();
        assert(s == p.push(s[n]));
        p.lemma_flatten_push(s[n]);
        let m = p.flatten().len();
        let i = choose|i: int| 0 <= i < s.flatten().len() && s.flatten()[i] == y;
        if i < m {
            assert(p.flatten()[i] == y);
            lemma_flatten_source(p, y);
            let (c, j) = choose|c: int, j: int| 0 <= c < p.len() && 0 <= j < p[c].len() && #[trigger] p[c][j] == y;
            assert(s[c][j] == y);
        } else {
            assert(s[n][i - m] == y);
        }
    }
}

/// The piles of a deal hold exactly the keys dealt.
proof fn lemma_deal_holds(keys: Seq<u64>, n: nat, y: u64)
    requires
        n > 0,
    ensures
        keys.contains(y) <==> exists|c: int, j: int|
            0 <= c < deal(keys, n).len() && 0 <= j < deal(keys, n)[c].len() && #[trigger] deal(
                keys,
                n,
            )[c][j] == y,
    decreases keys.len(),
{
    if keys.len() == 0 {
        assert forall|c: int, j: int|
            0 <= c < deal(keys, n).len() && 0 <= j < deal(keys, n)[c].len() implies #[trigger] deal(
                keys,
                n,
            )[c][j] != y by {}
    } else {
        let q = keys.drop_last();
        let d = deal(q, n);
        let cc = (keys.len() - 1) % (n as int);
        let x = keys.last();
        lemma_deal_len(q, n);
        lemma_deal_holds(q, n, y);
        let e = deal(keys, n);
        assert(e == d.update(cc, d[cc].push(x)));
        if keys.contains(y) {
            let i = choose|i: int| 0 <= i < keys.len() && keys[i] == y;
            if i == keys.len() - 1 {
                assert(e[cc][d[cc].len() as int] == y);
            } else {
                assert(q[i] == y);
                let (c, j) = choose|c: int, j: int| 0 <= c < d.len() && 0 <= j < d[c].len() && #[trigger] d[c][j] == y;
                assert(e[c][j] == y);
            }
        }
        if exists|c: int, j: int| 0 <= c < e.len() && 0 <= j < e[c].len() && #[trigger] e[c][j] == y {
            let (c, j) = choose|c: int, j: int| 0 <= c < e.len() && 0 <= j < e[c].len() && #[trigger] e[c][j] == y;
            if c == cc && j == d[cc].len() {
                assert(keys[keys.len() - 1] == y);
            } else {
                assert(d[c][j] == y);
                let i = choose|i: int| 0 <= i < q.len() && q[i] == y;
                assert(keys[i] == y);
            }
        }
    }
}

/// A key is indexed exactly when some element of the list has it.
proof fn lemma_index_by_dom<V>(list: Seq<V>, key: spec_fn(V) -> u64, k: u64)
    ensures
        index_by(list, key).contains_key(k) <==> exists|i: int| 0 <= i < list.len() && key(#[trigger] list[i]) == k,
    decreases list.len(),
{
    if list.len() > 0 {
        let p = list.drop_last();
        lemma_index_by_dom(p, key, k);
        if exists|i: int| 0 <= i < p.len() && key(#[trigger] p[i]) == k {
            let i = choose|i: int| 0 <= i < p.len() && key(#[trigger] p[i]) == k;
            assert(list[i] == p[i]);
        }
        if exists|i: int| 0 <= i < list.len() && key(#[trigger] list[i]) == k {
            let i = choose|i: int| 0 <= i < list.len() && key(#[trigger] list[i]) == k;
            if i < p.len() {
                assert(p[i] == list[i]);
            }
        }
    }
}

/// The chunks come from this cache: each user is a cached user in no mutual
/// server and every cached user is among them; each guild is a cached guild
/// frozen, and every cached guild is among them.
pub open spec fn frozen_from(cache: Cache, users: Seq<Vec<CachedUser>>, guilds: Seq<Vec<ColdStorageGuild>>) -> bool {
    &&& forall|i: int|
        0 <= i < flat_users(users).len() ==> cache.users@.contains_key(
            (#[trigger] flat_users(users)[i]).id,
        ) && flat_users(users)[i] == (CachedUser {
            mutual_servers: 0,
            ..cache.users@[flat_users(users)[i].id]
        })
    &&& index_by(flat_users(users), |u: CachedUser| u.id).dom() == cache.users@.dom()
    &&& forall|i: int|
        0 <= i < flat_guilds(guilds).len() ==> cache.guilds@.contains_key(
            (#[trigger] flat_guilds(guilds)[i]).id,
        ) && guild_frozen(flat_guilds(guilds)[i], cache.guilds@[flat_guilds(guilds)[i].id])
    &&& forall|g: u64| #[trigger]
        cache.guilds@.contains_key(g) ==> exists|i: int|
            0 <= i < flat_guilds(guilds).len() && (#[trigger] flat_guilds(guilds)[i]).id == g
}

/// What a freeze hands out: users in no mutual server, and guilds with ids
/// all different whose members are all different and among those users.
pub open spec fn frozen_consistent(users: Seq<Vec<CachedUser>>, guilds: Seq<Vec<ColdStorageGuild>>) -> bool {
    &&& forall|i: int|
        0 <= i < flat_users(users).len() ==> (#[trigger] flat_users(users)[i]).mutual_servers == 0
    &&& forall|i: int, j: int|
        0 <= i < j < flat_guilds(guilds).len() ==> (#[trigger] flat_guilds(guilds)[i]).id != (
        #[trigger] flat_guilds(guilds)[j]).id
    &&& forall|i: int|
        0 <= i < flat_guilds(guilds).len() ==> members_restorable(
            #[trigger] flat_guilds(guilds)[i],
            index_by(flat_users(users), |u: CachedUser| u.id).dom(),
        )
}

/// The chunks a freeze builds from a well-formed cache are consistent: the
/// users dealt are the cache's users, the guilds frozen are its guilds.
proof fn lemma_freeze_consistent(
    before: Cache,
    ids: Seq<u64>,
    chunks: Seq<Seq<u64>>,
    frozen: Seq<Vec<ColdStorageGuild>>,
    keys: Seq<u64>,
    users: Seq<Vec<CachedUser>>,
)
    requires
        before.wf(),
        ids.no_duplicates(),
        ids.to_set() == before.guilds@.dom(),
        chunks.flatten() == ids,
        frozen.len() == chunks.len(),
        forall|c: int| 0 <= c < chunks.len() ==> (#[trigger] frozen[c])@.len() == chunks[c].len(),
        forall|c: int, j: int|
            0 <= c < chunks.len() && 0 <= j < chunks[c].len() ==> guild_frozen(
                #[trigger] frozen[c]@[j],
                before.guilds@[chunks[c][j]],
            ),
        keys.to_set() == before.users@.dom(),
        users.len() > 0,
        forall|c: int|
            0 <= c < users.len() ==> (#[trigger] users[c])@.len() == deal(keys, users.len())[c].len(),
        forall|c: int, j: int|
            0 <= c < users.len() && 0 <= j < users[c]@.len() ==> #[trigger] users[c]@[j] == (CachedUser {
                mutual_servers: 0,
                ..before.users@[deal(keys, users.len())[c][j]]
            }),
    ensures
        frozen_consistent(users, frozen),
        frozen_from(before, users, frozen),
{
    let n = users.len();
    let dy = deal(keys, n);
    lemma_deal_len(keys, n);
    let ux = users.map_values(|v: Vec<CachedUser>| v@);
    let pu = |u: CachedUser, k: u64| u == (CachedUser { mutual_servers: 0, ..before.users@[k] });
    assert forall|c: int| 0 <= c < ux.len() implies #[trigger] ux[c].len() == dy[c].len() by {
        assert(ux[c] == users[c]@);
    }
    assert forall|c: int, j: int| 0 <= c < ux.len() && 0 <= j < ux[c].len() implies pu(
        #[trigger] ux[c][j],
        dy[c][j],
    ) by {
        assert(ux[c] == users[c]@);
    }
    lemma_flatten_parallel(ux, dy, pu);
    let fu = flat_users(users);
    assert(fu == ux.flatten());
    let ukey = |u: CachedUser| u.id;
    assert forall|k: u64| index_by(fu, ukey).contains_key(k) <==> before.users@.contains_key(k) by {
        lemma_index_by_dom(fu, ukey, k);
        if index_by(fu, ukey).contains_key(k) {
            let i = choose|i: int| 0 <= i < fu.len() && ukey(#[trigger] fu[i]) == k;
            let x = dy.flatten()[i];
            assert(pu(fu[i], x));
            assert(dy.flatten().contains(x));
            lemma_flatten_source(dy, x);
            lemma_deal_holds(keys, n, x);
            assert(keys.to_set().contains(x));
        }
        if before.users@.contains_key(k) {
            assert(keys.to_set().contains(k));
            lemma_deal_holds(keys, n, k);
            let (c, j) = choose|c: int, j: int| 0 <= c < dy.len() && 0 <= j < dy[c].len() && #[trigger] dy[c][j] == k;
            lemma_flatten_member(dy, c, j);
            let i = dy.subrange(0, c).flatten().len() + j;
            assert(pu(fu[i], dy.flatten()[i]));
            assert(ukey(fu[i]) == k);
        }
    }
    assert(index_by(fu, ukey).dom() =~= before.users@.dom());
    assert forall|i: int| 0 <= i < fu.len() implies before.users@.contains_key((#[trigger] fu[i]).id)
        && fu[i] == (CachedUser { mutual_servers: 0, ..before.users@[fu[i].id] }) by {
        let x = dy.flatten()[i];
        assert(pu(fu[i], x));
        assert(dy.flatten().contains(x));
        lemma_flatten_source(dy, x);
        lemma_deal_holds(keys, n, x);
        assert(keys.to_set().contains(x));
    }
    let gx = frozen.map_values(|v: Vec<ColdStorageGuild>| v@);
    let pg = |f: ColdStorageGuild, id: u64| guild_frozen(f, before.guilds@[id]);
    assert forall|c: int| 0 <= c < gx.len() implies #[trigger] gx[c].len() == chunks[c].len() by {
        assert(gx[c] == frozen[c]@);
    }
    assert forall|c: int, j: int| 0 <= c < gx.len() && 0 <= j < gx[c].len() implies pg(
        #[trigger] gx[c][j],
        chunks[c][j],
    ) by {
        assert(gx[c] == frozen[c]@);
    }
    lemma_flatten_parallel(gx, chunks, pg);
    let fg = flat_guilds(frozen);
    assert(fg == gx.flatten());
    assert forall|i: int| 0 <= i < fg.len() implies (#[trigger] fg[i]).id == ids[i] by {
        assert(pg(fg[i], ids[i]));
        assert(ids.to_set().contains(ids[i]));
    }
    assert forall|i: int, j: int| 0 <= i < j < fg.len() implies (#[trigger] fg[i]).id != (#[trigger] fg[j]).id by {
        assert(fg[i].id == ids[i] && fg[j].id == ids[j]);
    }
    assert forall|i: int| 0 <= i < fg.len() implies before.guilds@.contains_key((#[trigger] fg[i]).id)
        && guild_frozen(fg[i], before.guilds@[fg[i].id]) by {
        assert(pg(fg[i], ids[i]));
        assert(ids.to_set().contains(ids[i]));
    }
    assert forall|g: u64| #[trigger] before.guilds@.contains_key(g) implies exists|i: int|
        0 <= i < fg.len() && (#[trigger] fg[i]).id == g by {
        assert(ids.to_set().contains(g));
        let i = choose|i: int| 0 <= i < ids.len() && ids[i] == g;
        assert(fg[i].id == ids[i]);
    }
    assert forall|i: int| 0 <= i < fg.len() implies members_restorable(
        #[trigger] fg[i],
        index_by(fu, ukey).dom(),
    ) by {
        let f = fg[i];
        let g = before.guilds@[ids[i]];
        assert(pg(f, ids[i]));
        assert(ids.to_set().contains(ids[i]));
        let mk = choose|keys: Seq<u64>|
            #[trigger] keys.to_set() == g.members@.dom() && keys.no_duplicates() && keys.len()
                == f.members@.len() && forall|x: int|
                0 <= x < f.members@.len() ==> same_member(#[trigger] f.members@[x], g.members@[keys[x]]);
        assert forall|x: int| 0 <= x < f.members@.len() implies (#[trigger] f.members@[x]).user_id == mk[x]
            && before.users@.contains_key(mk[x]) by {
            assert(mk.to_set().contains(mk[x]));
            assert(same_member(f.members@[x], g.members@[mk[x]]));
            assert(before.guilds@[ids[i]].members@.contains_key(mk[x]));
        }
        assert forall|x: int, y: int| 0 <= x < y < f.members@.len() implies (#[trigger] f.members@[x]).user_id
            != (#[trigger] f.members@[y]).user_id by {
            assert(f.members@[x].user_id == mk[x] && f.members@[y].user_id == mk[y]);
        }
    }
}

/// What a freeze hands out can always be restored: into any well-formed
/// cache that holds no guild, such as a new one after a restart.
pub proof fn lemma_frozen_restorable(
    target: Cache,
    users: Seq<Vec<CachedUser>>,
    guilds: Seq<Vec<ColdStorageGuild>>,
)
    requires
        target.wf(),
        target.guilds@ == Map::<u64, CachedGuild>::empty(),
        frozen_consistent(users, guilds),
    ensures
        target.restorable(users, guilds),
{
    let d = index_by(flat_users(users), |u: CachedUser| u.id).dom();
    assert forall|i: int| 0 <= i < flat_guilds(guilds).len() implies members_restorable(
        #[trigger] flat_guilds(guilds)[i],
        target.users@.dom().union(d),
    ) by {
        assert(members_restorable(flat_guilds(guilds)[i], d));
    }
}

/// Along a chain of defrosts that starts with no guild and users in no
/// mutual server, the first `i` guilds are cached, each defrosted from its
/// frozen form, and each user counts the guilds cached so far.
proof fn lemma_chain_defrosted(mid: Cache, guilds: Seq<ColdStorageGuild>, chain: Seq<Cache>, i: int)
    requires
        Cache::defrost_chain(&mid, guilds, chain),
        mid.guilds@ == Map::<u64, CachedGuild>::empty(),
        forall|x: int, y: int| 0 <= x < y < guilds.len() ==> (#[trigger] guilds[x]).id != (#[trigger] guilds[y]).id,
        forall|u: u64| #[trigger] mid.users@.contains_key(u) ==> mid.users@[u].mutual_servers == 0,
        0 <= i <= guilds.len(),
    ensures
        forall|g: u64|
            #[trigger] chain[i].guilds@.contains_key(g) <==> exists|x: int|
                0 <= x < i && (#[trigger] guilds[x]).id == g,
        forall|x: int| 0 <= x < i ==> guild_defrosted(chain[i].guilds@[(#[trigger] guilds[x]).id], guilds[x]),
        chain[i].users@.dom() == mid.users@.dom(),
        forall|u: u64| #[trigger]
            chain[i].users@.contains_key(u) ==> chain[i].users@[u] == (CachedUser {
                mutual_servers: mutual_count(chain[i].guilds@, u) as u64,
                ..mid.users@[u]
            }),
    decreases i,
{
    if i == 0 {
        assert forall|u: u64| #[trigger] chain[0].users@.contains_key(u) implies chain[0].users@[u] == (CachedUser {
            mutual_servers: mutual_count(chain[0].guilds@, u) as u64,
            ..mid.users@[u]
        }) by {
            assert(guilds_with_member(mid.guilds@, u) =~= Set::<u64>::empty());
        }
    } else {
        let k = i - 1;
        lemma_chain_defrosted(mid, guilds, chain, k);
        assert(chain[k + 1].guild_defrosted_into(&chain[k], guilds[k]));
        let prev = chain[k];
        let cur = chain[i];
        assert forall|g: u64| #[trigger] cur.guilds@.contains_key(g) <==> exists|x: int|
            0 <= x < i && (#[trigger] guilds[x]).id == g by {
            if cur.guilds@.contains_key(g) && g != guilds[k].id {
                assert(prev.guilds@.contains_key(g));
            }
            if exists|x: int| 0 <= x < i && (#[trigger] guilds[x]).id == g {
                let x = choose|x: int| 0 <= x < i && (#[trigger] guilds[x]).id == g;
                if x < k {
                    assert(prev.guilds@.contains_key(guilds[x].id));
                }
            }
        }
        assert forall|x: int| 0 <= x < i implies guild_defrosted(cur.guilds@[(#[trigger] guilds[x]).id], guilds[x]) by {
            if x < k {
                assert(guilds[x].id != guilds[k].id);
            }
        }
    }
}

/// Freezing a cache and restoring what it handed out into a cache with no
/// guild and no user gives the cache's guilds and users back: the same
/// guild ids, each guild with the same fields, roles, members, channels and
/// emoji (its features lost, complete, counting its members), and every user
/// exactly as it was, mutual server count included.
pub proof fn lemma_cold_resume_round_trip(
    before: Cache,
    users: Seq<Vec<CachedUser>>,
    guilds: Seq<Vec<ColdStorageGuild>>,
    target: Cache,
    mid: Cache,
    chain: Seq<Cache>,
)
    requires
        before.wf(),
        frozen_from(before, users, guilds),
        frozen_consistent(users, guilds),
        target.guilds@ == Map::<u64, CachedGuild>::empty(),
        target.users@ == Map::<u64, CachedUser>::empty(),
        mid.users_restored(&target, flat_users(users)),
        Cache::defrost_chain(&mid, flat_guilds(guilds), chain),
    ensures
        chain.last().guilds@.dom() == before.guilds@.dom(),
        forall|g: u64| #[trigger]
            before.guilds@.contains_key(g) ==> guild_restored(chain.last().guilds@[g], before.guilds@[g]),
        chain.last().users@ == before.users@,
{
    let fg = flat_guilds(guilds);
    let fu = flat_users(users);
    let ukey = |u: CachedUser| u.id;
    let n = fg.len() as int;
    assert(mid.users@ =~= index_by(fu, ukey));
    assert forall|u: u64| #[trigger] mid.users@.contains_key(u) implies mid.users@[u] == (CachedUser {
        mutual_servers: 0,
        ..before.users@[u]
    }) by {
        lemma_index_by_member(fu, ukey, u);
        let i = choose|i: int| 0 <= i < fu.len() && fu[i] == mid.users@[u];
        assert(fu[i] == (CachedUser { mutual_servers: 0, ..before.users@[fu[i].id] }));
    }
    lemma_chain_defrosted(mid, fg, chain, n);
    let last = chain[n];
    assert(chain.last() == last);
    assert forall|g: u64| #[trigger] before.guilds@.contains_key(g) implies last.guilds@.contains_key(g)
        && guild_restored(last.guilds@[g], before.guilds@[g]) by {
        let x = choose|x: int| 0 <= x < fg.len() && (#[trigger] fg[x]).id == g;
        assert(guild_frozen(fg[x], before.guilds@[g]));
        assert(guild_defrosted(last.guilds@[fg[x].id], fg[x]));
        lemma_freeze_defrost(before.guilds@[g], fg[x], last.guilds@[g]);
    }
    assert forall|g: u64| #[trigger] last.guilds@.contains_key(g) implies before.guilds@.contains_key(g) by {
        let x = choose|x: int| 0 <= x < n && (#[trigger] fg[x]).id == g;
    }
    assert(last.guilds@.dom() =~= before.guilds@.dom());
    assert forall|u: u64| #[trigger] last.users@.contains_key(u) implies last.users@[u] == before.users@[u] by {
        assert(guilds_with_member(last.guilds@, u) =~= guilds_with_member(before.guilds@, u)) by {
            assert forall|g: u64| #[trigger] last.guilds@.contains_key(g) implies (
            last.guilds@[g].members@.contains_key(u) <==> before.guilds@[g].members@.contains_key(u)) by {
                assert(before.guilds@.contains_key(g));
            }
        }
    }
    assert(last.users@ =~= before.users@);
}

/// A defrosted guild holds its roles, members and channels under their ids.
proof fn lemma_defrosted_keyed(c: CachedGuild, f: ColdStorageGuild)
    requires
        guild_defrosted(c, f),
    ensures
        keyed_by_id(c),
{
    let rk = |r: crate::cached::CachedRole| r.id;
    let mk = |m: crate::cached::CachedMember| m.user_id;
    let ck = |ch: CachedChannel| ch.spec_id();
    assert forall|k: u64| #[trigger] c.roles@.contains_key(k) implies c.roles@[k].id == k by {
        lemma_index_by_member(f.roles@, rk, k);
    }
    assert forall|k: u64| #[trigger] c.members@.contains_key(k) implies c.members@[k].user_id == k by {
        lemma_index_by_member(f.members@, mk, k);
    }
    assert forall|k: u64| #[trigger] c.channels@.contains_key(k) implies c.channels@[k].spec_id() == k by {
        lemma_index_by_member(f.channels@, ck, k);
        crate::channel::lemma_same_channel_id(c.channels@[k], index_by(f.channels@, ck)[k]);
    }
}

/// In a list of members whose user ids are all different, a user id occurs
/// once when some member has it and never otherwise.
proof fn lemma_occurrences_distinct(members: Seq<CachedMember>, u: u64)
    requires
        forall|i: int, j: int|
            0 <= i < j < members.len() ==> (#[trigger] members[i]).user_id != (#[trigger] members[j]).user_id,
    ensures
        member_occurrences(members, u) == if exists|i: int| 0 <= i < members.len() && (#[trigger] members[i]).user_id == u {
            1nat
        } else {
            0nat
        },
    decreases members.len(),
{
    if members.len() > 0 {
        let p = members.drop_last();
        let n = members.len() - 1;
        lemma_occurrences_distinct(p, u);
        if exists|i: int| 0 <= i < p.len() && (#[trigger] p[i]).user_id == u {
            let i = choose|i: int| 0 <= i < p.len() && (#[trigger] p[i]).user_id == u;
            assert(members[i].user_id == u);
            assert(members[i].user_id != members[n].user_id);
        }
        if exists|i: int| 0 <= i < members.len() && (#[trigger] members[i]).user_id == u {
            let i = choose|i: int| 0 <= i < members.len() && (#[trigger] members[i]).user_id == u;
            if i < n {
                assert(p[i] == members[i]);
            }
        }
    }
}

} // verus!
