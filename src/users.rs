//! Describing the people served by a run, one log line each.
use std::collections::BTreeSet;
use vstd::prelude::*;
use vstd::std_specs::cmp::OrdSpec;
use vstd::std_specs::iter::IteratorSpec;

use crate::digest::ascending_ids;
use crate::models::User;
use crate::text::{join, joined, push_line, text_of, views};

verus! {

/// The character of decimal digit `d`.
pub open spec fn digit_char(d: nat) -> char {
    "0123456789"@[d as int]
}

/// `n` written in decimal, without leading zeros.
pub open spec fn decimal(n: nat) -> Seq<char>
    decreases n,
{
    if n < 10 {
        seq![digit_char(n)]
    } else {
        decimal(n / 10) + seq![digit_char(n % 10)]
    }
}

/// A set of ids written as `{a, b, c}`, listing `ids` in order.
pub open spec fn ids_text(ids: Seq<u32>) -> Seq<char> {
    "{"@ + joined(ids.map_values(|id: u32| decimal(id as nat)), ", "@) + "}"@
}

/// The log line of a user, given the ids they watch in the order listed.
pub open spec fn user_line(name: Seq<char>, educators: Seq<u32>, groups: Seq<u32>) -> Seq<char> {
    "Serving "@ + name + ", who is watching for educators "@ + ids_text(educators)
        + " and groups "@ + ids_text(groups)
}

/// `n` written in decimal.
fn decimal_text(n: u32) -> (r: String)
    ensures
        r@ == decimal(n as nat),
    decreases n,
{
    proof {
        reveal_strlit("0123456789");
    }
    let d = (n % 10) as usize;
    let digit = "0123456789".substring_char(d, d + 1);
    assert(digit@ =~= seq![digit_char((n % 10) as nat)]);
    if n < 10 {
        text_of(digit)
    } else {
        let mut r = decimal_text(n / 10);
        r.append(digit);
        r
    }
}

/// A set of ids written as `{a, b, c}`, in ascending order.
fn ids_line(ids: &BTreeSet<u32>) -> (r: String)
    ensures
        exists|order: Seq<u32>| ascending_ids(order, ids@) && r@ == ids_text(order),
{
    proof {
        assert(vstd::laws_cmp::obeys_cmp::<u32>());
    }
    let ghost keys = ids.iter().remaining();
    let ghost order = keys.unref();
    let mut parts: Vec<String> = Vec::new();
    for id in it: ids.iter()
        invariant
            it.seq().unref() == order,
            views(parts@) == order.subrange(0, it.index() as int).map_values(
                |id: u32| decimal(id as nat),
            ),
    {
        push_line(&mut parts, decimal_text(*id));
        assert(order.subrange(0, it.index() + 1).map_values(|id: u32| decimal(id as nat))
            =~= order.subrange(0, it.index() as int).map_values(|id: u32| decimal(id as nat)).push(
            decimal(*id as nat),
        ));
    }
    assert(order.subrange(0, order.len() as int) =~= order);
    let mut r = text_of("{");
    r.append(join(&parts, ", ").as_str());
    r.append("}");
    proof {
        assert(vstd::std_specs::btree::increasing_seq(keys));
        assert(vstd::laws_cmp::obeys_cmp::<&u32>());
        assert forall|i: int, j: int| 0 <= i < j < order.len() implies order[i] < order[j] by {
            assert(<&u32 as OrdSpec>::cmp_spec(&keys[i], &keys[j]) is Less);
        }
    }
    assert(ascending_ids(order, ids@));
    assert(r@ == ids_text(order));
    r
}

/// The ids of the educators watched by at least one of `users`.
pub open spec fn watched_by(users: Seq<User>) -> Set<u32>
    decreases users.len(),
{
    if users.len() == 0 {
        Set::empty()
    } else {
        watched_by(users.drop_last()).union(users.last().watch_educators@)
    }
}

/// The ids of the educators watched by at least one of `users`.
pub fn watched_educators(users: &[User]) -> (r: BTreeSet<u32>)
    ensures
        r@ == watched_by(users@),
{
    proof {
        assert(vstd::laws_cmp::obeys_cmp::<u32>());
    }
    let mut r: BTreeSet<u32> = BTreeSet::new();
    let mut i: usize = 0;
    while i < users.len()
        invariant
            i <= users@.len(),
            vstd::laws_cmp::obeys_cmp::<u32>(),
            r@ == watched_by(users@.subrange(0, i as int)),
        decreases users@.len() - i,
    {
        let ghost before = r@;
        let user = &users[i];
        let ghost ids = user.watch_educators.iter().remaining().unref();
        for id in it: user.watch_educators.iter()
            invariant
                it.seq().unref() == ids,
                vstd::laws_cmp::obeys_cmp::<u32>(),
                r@ == before.union(ids.subrange(0, it.index() as int).to_set()),
        {
            let ghost prefix = ids.subrange(0, it.index() as int);
            proof {
                assert(ids.subrange(0, it.index() + 1) =~= prefix.push(*id));
                assert(prefix.push(*id).to_set() =~= prefix.to_set().insert(*id)) by {
                    assert forall|x: u32| #[trigger] prefix.push(*id).contains(x) == prefix.to_set().insert(*id).contains(x) by {
                        if x != *id && prefix.push(*id).contains(x) {
                            let j = choose|j: int| 0 <= j < prefix.len() + 1 && prefix.push(*id)[j] == x;
                            assert(prefix[j] == x);
                        }
                        if prefix.contains(x) {
                            let j = choose|j: int| 0 <= j < prefix.len() && prefix[j] == x;
                            assert(prefix.push(*id)[j] == x);
                        }
                        assert(prefix.push(*id)[prefix.len() as int] == *id);
                    }
                }
            }
            r.insert(*id);
            assert(r@ =~= before.union(ids.subrange(0, it.index() + 1).to_set()));
        }
        proof {
            assert(ids.subrange(0, ids.len() as int) =~= ids);
            assert(users@.subrange(0, i + 1).drop_last() =~= users@.subrange(0, i as int));
        }
        i += 1;
    }
    assert(users@.subrange(0, users@.len() as int) =~= users@);
    r
}

/// `line` describes `user`: their name and the ids of the educators and
/// groups they watch, in ascending order.
pub open spec fn describes(line: Seq<char>, user: User) -> bool {
    exists|educators: Seq<u32>, groups: Seq<u32>|
        #![trigger user_line(user.name@, educators, groups)]
        ascending_ids(educators, user.watch_educators@) && ascending_ids(groups, user.watch_groups@) && line
            == user_line(user.name@, educators, groups)
}

/// The debug lines describing every served user, in the order of `users`.
pub fn log_all_users(users: &[User]) -> (r: Vec<String>)
    ensures
        r@.len() == users@.len(),
        forall|i: int| 0 <= i < users@.len() ==> describes(#[trigger] r@[i]@, users@[i]),
{
    let mut r: Vec<String> = Vec::new();
    let mut i: usize = 0;
    while i < users.len()
        invariant
            i <= users@.len(),
            r@.len() == i,
            forall|k: int| 0 <= k < i ==> describes(#[trigger] r@[k]@, users@[k]),
        decreases users@.len() - i,
    {
        let user = &users[i];
        let educators = ids_line(&user.watch_educators);
        let groups = ids_line(&user.watch_groups);
        let mut line = text_of("Serving ");
        line.append(user.name.as_str());
        line.append(", who is watching for educators ");
        line.append(educators.as_str());
        line.append(" and groups ");
        line.append(groups.as_str());
        let ghost e = choose|order: Seq<u32>|
            ascending_ids(order, user.watch_educators@) && educators@ == ids_text(order);
        let ghost g = choose|order: Seq<u32>|
            ascending_ids(order, user.watch_groups@) && groups@ == ids_text(order);
        assert(line@ == user_line(user.name@, e, g));
        r.push(line);
        assert(describes(r@[i as int]@, users@[i as int]));
        i += 1;
    }
    r
}

} // verus!
