//! What a member update changed, as the bot logs it: the roles lost and
//! gained, a new username, and a nickname change.
use vstd::prelude::*;

use crate::cached::CachedRole;
use crate::config::contains_id;
use crate::text::push_text;

verus! {

broadcast use vstd::std_specs::hash::group_hash_axioms;

/// What a member update changed.
pub struct MemberChanges {
    pub roles_lost: Vec<u64>,
    pub roles_gained: Vec<u64>,
    /// The new and the old username, when it changed.
    pub username_change: Option<(String, String)>,
    /// The old and the new nickname, when the member had one before the
    /// update and has one after it (changed or not).
    pub nickname_change: Option<(String, String)>,
}

/// The roles of `from`, in order, that `to` lacks; none when the two lists
/// are the same.
pub open spec fn roles_left(from: Seq<u64>, to: Seq<u64>) -> Seq<u64> {
    if from == to {
        Seq::empty()
    } else {
        from.filter(|r: u64| !to.contains(r))
    }
}

/// Whether two lists of ids are the same.
pub fn same_ids(a: &Vec<u64>, b: &Vec<u64>) -> (r: bool)
    ensures
        r == (a@ == b@),
{
    if a.len() != b.len() {
        return false;
    }
    let mut i: usize = 0;
    while i < a.len()
        invariant
            i <= a.len(),
            a.len() == b.len(),
            forall|j: int| 0 <= j < i ==> a@[j] == b@[j],
        decreases a.len() - i,
    {
        if a[i] != b[i] {
            return false;
        }
        i = i + 1;
    }
    assert(a@ =~= b@);
    true
}

/// The ids of `from`, in order, that `to` lacks.
fn ids_missing_from(from: &Vec<u64>, to: &Vec<u64>) -> (r: Vec<u64>)
    ensures
        r@ == from@.filter(|x: u64| !to@.contains(x)),
{
    let ghost pred = |x: u64| !to@.contains(x);
    let mut out: Vec<u64> = Vec::new();
    let mut i: usize = 0;
    proof {
        reveal(Seq::filter);
        assert(from@.subrange(0, 0).filter(pred) =~= Seq::<u64>::empty());
    }
    while i < from.len()
        invariant
            i <= from.len(),
            pred == (|x: u64| !to@.contains(x)),
            out@ == from@.subrange(0, i as int).filter(pred),
        decreases from.len() - i,
    {
        let x = from[i];
        proof {
            reveal(Seq::filter);
            assert(from@.subrange(0, i + 1).drop_last() == from@.subrange(0, i as int));
            assert(from@.subrange(0, i + 1).last() == x);
        }
        if !contains_id(to, x) {
            out.push(x);
        }
        i = i + 1;
    }
    proof {
        assert(from@.subrange(0, from.len() as int) == from@);
    }
    out
}

/// What a member update changed: the roles lost and gained (when the role
/// lists differ), the username when it changed, and the nicknames when the
/// member has one before and after.
pub fn member_changes(
    old_roles: &Vec<u64>,
    old_nick: &Option<String>,
    old_name: &String,
    new_roles: &Vec<u64>,
    new_nick: &Option<String>,
    new_name: &String,
) -> (r: MemberChanges)
    ensures
        r.roles_lost@ == roles_left(old_roles@, new_roles@),
        r.roles_gained@ == roles_left(new_roles@, old_roles@),
        match r.username_change {
            Some((n, o)) => new_name@ != old_name@ && n@ == new_name@ && o@ == old_name@,
            None => new_name@ == old_name@,
        },
        match r.nickname_change {
            Some((o, n)) => old_nick matches Some(a) && new_nick matches Some(b) && o@ == a@ && n@
                == b@,
            None => !(old_nick is Some && new_nick is Some),
        },
{
    let same = same_ids(old_roles, new_roles);
    let (roles_lost, roles_gained) = if same {
        (Vec::new(), Vec::new())
    } else {
        (ids_missing_from(old_roles, new_roles), ids_missing_from(new_roles, old_roles))
    };
    let username_change = if *new_name != *old_name {
        Some((new_name.clone(), old_name.clone()))
    } else {
        None
    };
    let nickname_change = match (old_nick, new_nick) {
        (Some(a), Some(b)) => Some((a.clone(), b.clone())),
        _ => None,
    };
    MemberChanges { roles_lost, roles_gained, username_change, nickname_change }
}

/// The names of the listed roles the guild has, each followed by ", ";
/// roles it lacks are skipped.
pub open spec fn role_display_of(roles: Seq<u64>, guild_roles: Map<u64, CachedRole>) -> Seq<char>
    decreases roles.len(),
{
    if roles.len() == 0 {
        Seq::empty()
    } else {
        let rest = role_display_of(roles.drop_last(), guild_roles);
        if guild_roles.contains_key(roles.last()) {
            rest + guild_roles[roles.last()].name@ + ", "@
        } else {
            rest
        }
    }
}

/// The names of the listed roles the guild has, as a member update is
/// logged: each name followed by ", ".
pub fn role_display(
    roles: &Vec<u64>,
    guild_roles: &std::collections::HashMap<u64, CachedRole>,
) -> (r: String)
    ensures
        r@ == role_display_of(roles@, guild_roles@),
{
    let mut out = String::new();
    let mut i: usize = 0;
    while i < roles.len()
        invariant
            i <= roles.len(),
            out@ == role_display_of(roles@.subrange(0, i as int), guild_roles@),
        decreases roles.len() - i,
    {
        proof {
            assert(roles@.subrange(0, i + 1).drop_last() == roles@.subrange(0, i as int));
        }
        match guild_roles.get(&roles[i]) {
            Some(role) => {
                push_text(&mut out, role.name.as_str());
                push_text(&mut out, ", ");
            },
            None => {},
        }
        i = i + 1;
    }
    proof {
        assert(roles@.subrange(0, roles.len() as int) == roles@);
    }
    out
}

} // verus!
