//! What one subscriber is told: the changes of every watched educator.
use std::collections::BTreeMap;
use vstd::prelude::*;
use vstd::std_specs::cmp::OrdSpec;
use vstd::std_specs::iter::IteratorSpec;

use crate::models::{EducatorEvents, User};
use crate::text::{join, joined, push_line, text_of, views};

verus! {

/// Separator between the sections of different educators.
pub const DIGEST_SEPARATOR: &'static str = "<br> <br>";

/// The section of one educator: a sentence naming them, then their changes.
pub open spec fn section(name: Seq<char>, diff: Seq<char>) -> Seq<char> {
    "В расписании преподавателя <b>"@ + name + "</b> произошли изменения:<br><br>"@ + diff
        + "<br>"@
}

/// The sections of the educators of `ids` that have changes, in the order of `ids`.
pub open spec fn digest_sections(
    ids: Seq<u32>,
    changed: Map<u32, (&EducatorEvents, String)>,
) -> Seq<Seq<char>>
    decreases ids.len(),
{
    if ids.len() == 0 {
        Seq::empty()
    } else {
        let rest = digest_sections(ids.drop_last(), changed);
        let id = ids.last();
        if changed.contains_key(id) {
            rest.push(section(changed[id].0@.name, changed[id].1@))
        } else {
            rest
        }
    }
}

/// `ids` lists the members of `s` in strictly ascending order.
pub open spec fn ascending_ids(ids: Seq<u32>, s: Set<u32>) -> bool {
    &&& ids.to_set() == s
    &&& forall|i: int, j: int| 0 <= i < j < ids.len() ==> ids[i] < ids[j]
}

/// The digest for `user`: one section per watched educator with changes,
/// in ascending order of educator id, joined by a double line break. Empty
/// when no watched educator changed.
pub fn collect_all_tracked_diffs(
    educators_changed: &BTreeMap<u32, (&EducatorEvents, String)>,
    user: &User,
) -> (r: String)
    ensures
        exists|ids: Seq<u32>|
            ascending_ids(ids, user.watch_educators@) && r@ == joined(
                digest_sections(ids, educators_changed@),
                DIGEST_SEPARATOR@,
            ),
{
    proof {
        assert(vstd::laws_cmp::obeys_cmp::<u32>());
    }
    let ghost changed = educators_changed@;
    let ghost keys = user.watch_educators.iter().remaining();
    let mut acc: Vec<String> = Vec::new();
    for educator in it: user.watch_educators.iter()
        invariant
            it.seq() == keys,
            changed == educators_changed@,
            vstd::laws_cmp::obeys_cmp::<u32>(),
            views(acc@) == digest_sections(keys.unref().subrange(0, it.index() as int), changed),
    {
        let ghost idx = it.index();
        let ghost before = keys.unref().subrange(0, idx as int);
        let ghost after = keys.unref().subrange(0, idx + 1);
        proof {
            assert(after.drop_last() =~= before);
            assert(after.last() == *educator);
        }
        match educators_changed.get(educator) {
            Some(entry) => {
                let mut s = text_of("В расписании преподавателя <b>");
                s.append(entry.0.educator_long_display_text.as_str());
                s.append("</b> произошли изменения:<br><br>");
                s.append(entry.1.as_str());
                s.append("<br>");
                push_line(&mut acc, s);
            },
            None => {},
        }
    }
    let r = join(&acc, DIGEST_SEPARATOR);
    proof {
        let ids = keys.unref();
        assert(ids.subrange(0, ids.len() as int) =~= ids);
        assert(ids.to_set() == user.watch_educators@);
        assert(vstd::std_specs::btree::increasing_seq(keys));
        assert(vstd::laws_cmp::obeys_cmp::<&u32>());
        assert forall|i: int, j: int| 0 <= i < j < ids.len() implies ids[i] < ids[j] by {
            assert(<&u32 as OrdSpec>::cmp_spec(&keys[i], &keys[j]) is Less);
        }
        assert(ascending_ids(ids, user.watch_educators@));
    }
    r
}

/// The text of a letter to `name` that carries `digest`.
pub open spec fn letter_text(name: Seq<char>, digest: Seq<char>) -> Seq<char> {
    "Уважаемый(ая) "@ + name + "!<br><br> "@ + digest
        + " <br> Данное письмо было сгенерировано автоматически, направление ответа не подразумевается."@
}

/// The body of the letter that tells `user` about `digest`.
pub fn letter_body(user: &User, digest: &str) -> (r: String)
    ensures
        r@ == letter_text(user.name@, digest@),
{
    let mut r = text_of("Уважаемый(ая) ");
    r.append(user.name.as_str());
    r.append("!<br><br> ");
    r.append(digest);
    r.append(" <br> Данное письмо было сгенерировано автоматически, направление ответа не подразумевается.");
    r
}

/// A mailbox written as display name, then the address in angle brackets.
pub fn mailbox_text(name: &str, address: &str) -> (r: String)
    ensures
        r@ == name@ + " <"@ + address@ + ">"@,
{
    let mut r = text_of(name);
    r.append(" <");
    r.append(address);
    r.append(">");
    r
}

} // verus!
