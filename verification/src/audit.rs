//! An audit of the cache: does every cached user count exactly the cached
//! guilds it is a member of?
use std::collections::HashMap;
use vstd::prelude::*;

use crate::cache::{mutual_count, Cache};
use crate::cached::{CachedMember, CachedUser};
use crate::guild::CachedGuild;
use crate::keys::map_keys;
use crate::text::{decimal, u64_to_string};
use vstd::string::StringExecFns;

verus! {

broadcast use {vstd::std_specs::hash::group_hash_axioms, vstd::seq_lib::seq_to_set_is_finite};

/// A cached user whose mutual server count is off.
#[derive(Clone, Copy, Debug, PartialEq, Eq, Structural)]
pub struct MutualMismatch {
    pub user_id: u64,
    /// In how many cached guilds the user is a member.
    pub actual: u64,
    /// How many the user's count says.
    pub counted: u64,
}

/// What the audit found.
pub struct CacheAudit {
    pub mismatches: Vec<MutualMismatch>,
    /// Cached users whose count is zero.
    pub think_no_servers: u64,
    /// Cached users that are a member of no cached guild.
    pub no_servers: u64,
    /// How many users the cache holds.
    pub unique_in_cache: u64,
    /// How many members the cached guilds hold together.
    pub total_in_cache: u64,
    /// Members of cached guilds whose user is not cached.
    pub members_without_users: u64,
}

/// Members of the guild whose user is not cached.
pub open spec fn orphans(g: CachedGuild, users: Map<u64, CachedUser>) -> Set<u64> {
    g.members@.dom().filter(|k: u64| !users.contains_key(g.members@[k].user_id))
}

/// Adds up a count over the listed guilds.
pub open spec fn guild_sum(
    guilds: Map<u64, CachedGuild>,
    ids: Seq<u64>,
    f: spec_fn(CachedGuild) -> nat,
) -> nat
    decreases ids.len(),
{
    if ids.len() == 0 {
        0
    } else {
        guild_sum(guilds, ids.drop_last(), f) + f(guilds[ids.last()])
    }
}

/// The number modulo 2^64, as a `u64` counter that wraps holds it.
pub open spec fn wrap64(n: nat) -> u64 {
    (n % 0x1_0000_0000_0000_0000) as u64
}

proof fn lemma_wrap64_add(a: nat, b: nat)
    requires
        b <= u64::MAX,
    ensures
        wrap64(a).wrapping_add(b as u64) == wrap64(a + b),
{
    let m: int = 0x1_0000_0000_0000_0000;
    let x: int = a as int;
    let y: int = b as int;
    let r: int = x % m;
    let q: int = x / m;
    assert(x == q * m + r && 0 <= r < m && q >= 0) by (nonlinear_arith)
        requires
            m > 0,
            x >= 0,
            r == x % m,
            q == x / m,
    ;
    if r + y < m {
        assert((x + y) % m == r + y) by (nonlinear_arith)
            requires
                x == q * m + r,
                0 <= r + y < m,
                q >= 0,
                m > 0,
        ;
    } else {
        assert((x + y) % m == r + y - m) by (nonlinear_arith)
            requires
                x == q * m + r,
                m <= r + y < 2 * m,
                q >= 0,
                m > 0,
        ;
    }
}

/// Counts, among the listed keys that are new to the counted prefix, those
/// the predicate holds for.
proof fn lemma_filter_push(p: Seq<u64>, k: u64, f: spec_fn(u64) -> bool)
    requires
        !p.contains(k),
    ensures
        p.push(k).to_set().filter(f).len() == p.to_set().filter(f).len() + (if f(k) {
            1nat
        } else {
            0nat
        }),
{
    p.lemma_push_to_set_commute(k);
    if f(k) {
        assert(p.push(k).to_set().filter(f) =~= p.to_set().filter(f).insert(k));
    } else {
        assert(p.push(k).to_set().filter(f) =~= p.to_set().filter(f));
    }
}

/// Nothing of an empty prefix is counted.
proof fn lemma_empty_prefix(s: Seq<u64>, f: spec_fn(u64) -> bool)
    ensures
        s.subrange(0, 0).to_set().filter(f).len() == 0,
{
    assert(s.subrange(0, 0).to_set().filter(f) =~= Set::<u64>::empty());
}

/// A key at index `i` of a list without duplicates is not among the keys
/// before it.
proof fn lemma_not_in_prefix(s: Seq<u64>, i: int)
    requires
        s.no_duplicates(),
        0 <= i < s.len(),
    ensures
        !s.subrange(0, i).contains(s[i]),
        s.subrange(0, i + 1) == s.subrange(0, i).push(s[i]),
{
    if s.subrange(0, i).contains(s[i]) {
        let j = choose|j: int| 0 <= j < i && #[trigger] s.subrange(0, i)[j] == s[i];
        assert(s[j] == s[i]);
    }
    assert(s.subrange(0, i + 1) =~= s.subrange(0, i).push(s[i]));
}

/// Counts the members of a guild whose user is not cached.
fn count_orphans(members: &HashMap<u64, CachedMember>, users: &HashMap<u64, CachedUser>) -> (r:
    u64)
    ensures
        r == members@.dom().filter(|k: u64| !users@.contains_key(members@[k].user_id)).len(),
{
    let keys = map_keys(members);
    let ghost f = |k: u64| !users@.contains_key(members@[k].user_id);
    let mut count: u64 = 0;
    let mut i: usize = 0;
    proof {
        lemma_empty_prefix(keys@, f);
    }
    while i < keys.len()
        invariant
            i <= keys.len(),
            keys@.to_set() == members@.dom(),
            keys@.no_duplicates(),
            keys@.len() == members@.dom().len(),
            f == (|k: u64| !users@.contains_key(members@[k].user_id)),
            count == keys@.subrange(0, i as int).to_set().filter(f).len(),
            count <= i,
        decreases keys.len() - i,
    {
        let k = keys[i];
        proof {
            lemma_not_in_prefix(keys@, i as int);
            lemma_filter_push(keys@.subrange(0, i as int), k, f);
            assert(keys@.to_set().contains(keys@[i as int]));
        }
        let user_id = members.get(&k).unwrap().user_id;
        if !users.contains_key(&user_id) {
            count = count + 1;
        }
        i = i + 1;
    }
    proof {
        assert(keys@.subrange(0, keys.len() as int) == keys@);
    }
    count
}

/// The report the audit prints: a line per mismatch, or a note that all
/// counts are correct.
pub open spec fn mismatch_report(m: Seq<MutualMismatch>) -> Seq<char>
    decreases m.len(),
{
    if m.len() == 0 {
        Seq::empty()
    } else {
        mismatch_report(m.drop_last()) + "\n "@ + decimal(m.last().user_id as nat)
            + " is in "@ + decimal(m.last().actual as nat) + " mutual but thinks they are in "@
            + decimal(m.last().counted as nat) + ")"@
    }
}

impl CacheAudit {
    /// The text the audit answers with: the mismatch lines, or "All user
    /// mutual counts are correct" when there are none; text longer than 2000
    /// characters (all ASCII, so as many bytes) is replaced by a pointer to
    /// the console.
    pub fn report(&self) -> (r: String)
        ensures
            r@ == if self.mismatches@.len() == 0 {
                "All user mutual counts are correct"@
            } else if mismatch_report(self.mismatches@).len() > 2000 {
                "Too long, see console"@
            } else {
                mismatch_report(self.mismatches@)
            },
    {
        let mut out = String::from_str("");
        proof {
            reveal_strlit("");
        }
        let mut i: usize = 0;
        while i < self.mismatches.len()
            invariant
                i <= self.mismatches.len(),
                out@ == mismatch_report(self.mismatches@.subrange(0, i as int)),
            decreases self.mismatches.len() - i,
        {
            let m = self.mismatches[i];
            let out2 = out.concat("\n ");
            let out2 = out2.concat(u64_to_string(m.user_id).as_str());
            let out2 = out2.concat(" is in ");
            let out2 = out2.concat(u64_to_string(m.actual).as_str());
            let out2 = out2.concat(" mutual but thinks they are in ");
            let out2 = out2.concat(u64_to_string(m.counted).as_str());
            out = out2.concat(")");
            proof {
                assert(self.mismatches@.subrange(0, i + 1).drop_last() == self.mismatches@.subrange(
                    0,
                    i as int,
                ));
            }
            i = i + 1;
        }
        proof {
            assert(self.mismatches@.subrange(0, self.mismatches.len() as int) == self.mismatches@);
        }
        if self.mismatches.len() == 0 {
            return String::from_str("All user mutual counts are correct");
        }
        if out.as_str().unicode_len() > 2000 {
            return String::from_str("Too long, see console");
        }
        out
    }
}

impl Cache {
    /// Audits the mutual server counts of the cached users against the
    /// cached guilds' members. When the cache keeps its invariant, the audit
    /// finds no mismatch and no member without a cached user.
    pub fn audit(&self) -> (r: CacheAudit)
        ensures
            forall|i: int|
                0 <= i < r.mismatches@.len() ==> {
                    let m = #[trigger] r.mismatches@[i];
                    &&& self.users@.contains_key(m.user_id)
                    &&& m.counted == self.users@[m.user_id].mutual_servers
                    &&& m.actual == mutual_count(self.guilds@, m.user_id)
                    &&& m.actual != m.counted
                },
            forall|i: int, j: int|
                0 <= i < j < r.mismatches@.len() ==> r.mismatches@[i].user_id
                    != r.mismatches@[j].user_id,
            forall|u: u64|
                self.users@.contains_key(u) && self.users@[u].mutual_servers != mutual_count(
                    self.guilds@,
                    u,
                ) ==> exists|i: int|
                    0 <= i < r.mismatches@.len() && #[trigger] r.mismatches@[i].user_id == u,
            r.think_no_servers == self.users@.dom().filter(
                |u: u64| self.users@[u].mutual_servers == 0,
            ).len(),
            r.no_servers == self.users@.dom().filter(|u: u64| mutual_count(self.guilds@, u) == 0).len(),
            r.unique_in_cache == self.users@.len(),
            exists|ids: Seq<u64>|
                #![trigger ids.to_set()]
                ids.to_set() == self.guilds@.dom() && ids.no_duplicates() && r.total_in_cache
                    == wrap64(guild_sum(self.guilds@, ids, |g: CachedGuild| g.members@.len()))
                    && r.members_without_users == wrap64(
                    guild_sum(self.guilds@, ids, |g: CachedGuild| orphans(g, self.users@).len()),
                ),
            self.wf() ==> r.mismatches@.len() == 0 && r.members_without_users == 0,
    {
        // per user: the actual count against the counted one
        let user_ids = map_keys(&self.users);
        let guild_ids = map_keys(&self.guilds);
        let mut mismatches: Vec<MutualMismatch> = Vec::new();
        let mut think_no_servers: u64 = 0;
        let mut no_servers: u64 = 0;
        let ghost f0 = |u: u64| self.users@[u].mutual_servers == 0;
        let ghost fz = |u: u64| mutual_count(self.guilds@, u) == 0;
        let mut i: usize = 0;
        proof {
            lemma_empty_prefix(user_ids@, f0);
            lemma_empty_prefix(user_ids@, fz);
        }
        while i < user_ids.len()
            invariant
                i <= user_ids.len(),
                user_ids@.to_set() == self.users@.dom(),
                user_ids@.no_duplicates(),
                guild_ids@.to_set() == self.guilds@.dom(),
                guild_ids@.no_duplicates(),
                f0 == (|u: u64| self.users@[u].mutual_servers == 0),
                fz == (|u: u64| mutual_count(self.guilds@, u) == 0),
                think_no_servers == user_ids@.subrange(0, i as int).to_set().filter(f0).len(),
                no_servers == user_ids@.subrange(0, i as int).to_set().filter(fz).len(),
                think_no_servers <= i,
                no_servers <= i,
                forall|a: int|
                    0 <= a < mismatches@.len() ==> {
                        let m = #[trigger] mismatches@[a];
                        &&& user_ids@.subrange(0, i as int).contains(m.user_id)
                        &&& self.users@.contains_key(m.user_id)
                        &&& m.counted == self.users@[m.user_id].mutual_servers
                        &&& m.actual == mutual_count(self.guilds@, m.user_id)
                        &&& m.actual != m.counted
                    },
                forall|a: int, b: int|
                    0 <= a < b < mismatches@.len() ==> mismatches@[a].user_id
                        != mismatches@[b].user_id,
                forall|j: int|
                    0 <= j < i && self.users@[user_ids@[j]].mutual_servers != mutual_count(
                        self.guilds@,
                        user_ids@[j],
                    ) ==> exists|a: int|
                        0 <= a < mismatches@.len() && #[trigger] mismatches@[a].user_id
                            == user_ids@[j],
            decreases user_ids.len() - i,
        {
            let u = user_ids[i];
            proof {
                lemma_not_in_prefix(user_ids@, i as int);
                lemma_filter_push(user_ids@.subrange(0, i as int), u, f0);
                lemma_filter_push(user_ids@.subrange(0, i as int), u, fz);
                assert(user_ids@.to_set().contains(user_ids@[i as int]));
            }
            let counted = self.users.get(&u).unwrap().mutual_servers;
            let actual = self.count_guilds_with(&guild_ids, u);
            if counted == 0 {
                think_no_servers = think_no_servers + 1;
            }
            if actual == 0 {
                no_servers = no_servers + 1;
            }
            let ghost old_m = mismatches@;
            if counted != actual {
                mismatches.push(MutualMismatch { user_id: u, actual, counted });
            }
            proof {
                let p = user_ids@.subrange(0, i as int);
                let q = user_ids@.subrange(0, i + 1);
                assert forall|x: u64| p.contains(x) implies q.contains(x) by {
                    let j = choose|j: int| 0 <= j < p.len() && #[trigger] p[j] == x;
                    assert(q[j] == x);
                }
                assert(q.contains(u)) by {
                    assert(q[i as int] == u);
                }
                assert forall|a: int| 0 <= a < old_m.len() implies #[trigger] old_m[a].user_id != u by {
                    assert(p.contains(old_m[a].user_id));
                }
                assert forall|j: int|
                    0 <= j < i + 1 && self.users@[user_ids@[j]].mutual_servers != mutual_count(
                        self.guilds@,
                        user_ids@[j],
                    ) implies exists|a: int|
                    0 <= a < mismatches@.len() && #[trigger] mismatches@[a].user_id
                        == user_ids@[j] by {
                    if j < i {
                        let a = choose|a: int|
                            0 <= a < old_m.len() && #[trigger] old_m[a].user_id == user_ids@[j];
                        assert(mismatches@[a] == old_m[a]);
                    } else {
                        assert(mismatches@[old_m.len() as int].user_id == u);
                    }
                }
            }
            i = i + 1;
        }
        proof {
            assert(user_ids@.subrange(0, user_ids.len() as int) == user_ids@);
            assert forall|u: u64|
                self.users@.contains_key(u) && self.users@[u].mutual_servers != mutual_count(
                    self.guilds@,
                    u,
                ) implies exists|i: int|
                0 <= i < mismatches@.len() && #[trigger] mismatches@[i].user_id == u by {
                assert(user_ids@.to_set().contains(u));
                let j = choose|j: int| 0 <= j < user_ids@.len() && user_ids@[j] == u;
                assert(self.users@[user_ids@[j]].mutual_servers != mutual_count(
                    self.guilds@,
                    user_ids@[j],
                ));
            }
            if self.wf() {
                if mismatches@.len() > 0 {
                    let m = mismatches@[0];
                    assert(self.users@.contains_key(m.user_id));
                }
            }
        }
        // per guild: the members, and those without a cached user
        let mut total: u64 = 0;
        let mut orphaned: u64 = 0;
        let ghost fm = |g: CachedGuild| g.members@.len();
        let ghost fo = |g: CachedGuild| orphans(g, self.users@).len();
        let mut k: usize = 0;
        while k < guild_ids.len()
            invariant
                k <= guild_ids.len(),
                guild_ids@.to_set() == self.guilds@.dom(),
                fm == (|g: CachedGuild| g.members@.len()),
                fo == (|g: CachedGuild| orphans(g, self.users@).len()),
                total == wrap64(guild_sum(self.guilds@, guild_ids@.subrange(0, k as int), fm)),
                orphaned == wrap64(guild_sum(self.guilds@, guild_ids@.subrange(0, k as int), fo)),
                self.wf() ==> guild_sum(self.guilds@, guild_ids@.subrange(0, k as int), fo) == 0,
            decreases guild_ids.len() - k,
        {
            let gid = guild_ids[k];
            proof {
                assert(guild_ids@.to_set().contains(guild_ids@[k as int]));
                assert(guild_ids@.subrange(0, k + 1).drop_last() == guild_ids@.subrange(0, k as int));
            }
            let guild = self.guilds.get(&gid).unwrap();
            let n = guild.members.len() as u64;
            let o = count_orphans(&guild.members, &self.users);
            proof {
                lemma_wrap64_add(guild_sum(self.guilds@, guild_ids@.subrange(0, k as int), fm), n as nat);
                lemma_wrap64_add(guild_sum(self.guilds@, guild_ids@.subrange(0, k as int), fo), o as nat);
                if self.wf() {
                    assert(orphans(*guild, self.users@) =~= Set::<u64>::empty()) by {
                        assert forall|x: u64| !#[trigger] orphans(*guild, self.users@).contains(x) by {
                            if guild.members@.contains_key(x) {
                                assert(self.guilds@[gid].members@.contains_key(x));
                            }
                        }
                    }
                }
            }
            total = total.wrapping_add(n);
            orphaned = orphaned.wrapping_add(o);
            k = k + 1;
        }
        proof {
            assert(guild_ids@.subrange(0, guild_ids.len() as int) == guild_ids@);
            assert(guild_ids@.to_set() == self.guilds@.dom());
        }
        CacheAudit {
            mismatches,
            think_no_servers,
            no_servers,
            unique_in_cache: self.users.len() as u64,
            total_in_cache: total,
            members_without_users: orphaned,
        }
    }

    /// In how many of the listed guilds the user is a member.
    fn count_guilds_with(&self, guild_ids: &Vec<u64>, user_id: u64) -> (r: u64)
        requires
            guild_ids@.to_set() == self.guilds@.dom(),
            guild_ids@.no_duplicates(),
        ensures
            r == mutual_count(self.guilds@, user_id),
    {
        let ghost f = |g: u64| self.guilds@[g].members@.contains_key(user_id);
        let mut count: u64 = 0;
        let mut i: usize = 0;
        proof {
            lemma_empty_prefix(guild_ids@, f);
        }
        while i < guild_ids.len()
            invariant
                i <= guild_ids.len(),
                guild_ids@.to_set() == self.guilds@.dom(),
                guild_ids@.no_duplicates(),
                f == (|g: u64| self.guilds@[g].members@.contains_key(user_id)),
                count == guild_ids@.subrange(0, i as int).to_set().filter(f).len(),
                count <= i,
            decreases guild_ids.len() - i,
        {
            let gid = guild_ids[i];
            proof {
                lemma_not_in_prefix(guild_ids@, i as int);
                lemma_filter_push(guild_ids@.subrange(0, i as int), gid, f);
                assert(guild_ids@.to_set().contains(guild_ids@[i as int]));
            }
            let member = self.guilds.get(&gid).unwrap().members.contains_key(&user_id);
            if member {
                count = count + 1;
            }
            i = i + 1;
        }
        proof {
            assert(guild_ids@.subrange(0, guild_ids.len() as int) == guild_ids@);
            assert(guild_ids@.to_set().filter(f) =~= self.guilds@.dom().filter(
                |g: u64| self.guilds@[g].members@.contains_key(user_id),
            ));
        }
        count
    }
}

} // verus!
