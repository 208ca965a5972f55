//! Watching timetable PDF files: a file changed when the SHA-256 digest of
//! its bytes differs from the stored one.
use sha2::{Digest, Sha256};
use vstd::prelude::*;

use crate::text::{join, joined, push_line, text_of, views};

verus! {

/// A watched PDF file: its name, its address and the digest last seen.
#[derive(Debug, PartialEq, Eq)]
pub struct Table {
    pub table_name: String,
    pub link: String,
    pub hash: String,
}

/// What a table holds, as mathematical values.
pub struct TableView {
    pub name: Seq<char>,
    pub link: Seq<char>,
    pub hash: Seq<char>,
}

impl View for Table {
    type V = TableView;

    open spec fn view(&self) -> TableView {
        TableView { name: self.table_name@, link: self.link@, hash: self.hash@ }
    }
}

/// Someone who is told when the tables they watch change.
#[derive(Debug, PartialEq, Eq)]
pub struct User {
    pub name: String,
    pub watch_tables: Vec<String>,
    pub email: String,
}

/// The lowercase hexadecimal SHA-256 digest of `bytes`.
pub uninterp spec fn sha256_hex(bytes: Seq<u8>) -> Seq<char>;

/// Relies on sha2's `Sha256` digest of the bytes, written by `{:x}` in
/// lowercase hexadecimal; the result depends on the bytes alone.
#[verifier::external_body]
fn hash_hex(bytes: &Vec<u8>) -> (r: String)
    ensures
        r@ == sha256_hex(bytes@),
{
    let mut hasher = Sha256::new();
    hasher.update(bytes);
    format!("{:x}", hasher.finalize())
}

/// (name, new digest) of each of the first `n` tables whose new digest
/// differs from the stored one, in table order.
pub open spec fn table_changes_upto(tables: Seq<TableView>, digests: Seq<Seq<char>>, n: int) -> Seq<
    (Seq<char>, Seq<char>),
>
    decreases n,
{
    if n <= 0 {
        Seq::empty()
    } else {
        let rest = table_changes_upto(tables, digests, n - 1);
        if digests[n - 1] != tables[n - 1].hash {
            rest.push((tables[n - 1].name, digests[n - 1]))
        } else {
            rest
        }
    }
}

/// (name, new digest) of each table whose new digest differs from the
/// stored one, in table order.
pub open spec fn table_changes(tables: Seq<TableView>, digests: Seq<Seq<char>>) -> Seq<
    (Seq<char>, Seq<char>),
> {
    table_changes_upto(tables, digests, tables.len() as int)
}

/// Pairs each table whose new digest (same position in `new_hashes`)
/// differs from the stored one with that new digest, in table order.
pub fn changed_tables(tables: &Vec<Table>, new_hashes: &Vec<String>) -> (r: Vec<(String, String)>)
    requires
        tables@.len() == new_hashes@.len(),
    ensures
        views(r@) == table_changes(views(tables@), views(new_hashes@)),
{
    let mut r: Vec<(String, String)> = Vec::new();
    let mut i: usize = 0;
    while i < tables.len()
        invariant
            i <= tables@.len(),
            tables@.len() == new_hashes@.len(),
            views(r@) == table_changes_upto(views(tables@), views(new_hashes@), i as int),
        decreases tables@.len() - i,
    {
        let ghost before = r@;
        if new_hashes[i] != tables[i].hash {
            r.push((tables[i].table_name.clone(), new_hashes[i].clone()));
            assert(views(r@) =~= views(before).push(r@.last()@));
        }
        i += 1;
    }
    r
}

/// Hashes the downloaded bytes of each table (same position in `pdfs`) and
/// pairs each table whose digest changed with its new digest, in table order.
pub fn find_changed_tables(tables: &Vec<Table>, pdfs: &Vec<Vec<u8>>) -> (r: Vec<(String, String)>)
    requires
        tables@.len() == pdfs@.len(),
    ensures
        views(r@) == table_changes(
            views(tables@),
            pdfs@.map_values(|b: Vec<u8>| sha256_hex(b@)),
        ),
{
    let mut hashes: Vec<String> = Vec::new();
    let mut i: usize = 0;
    while i < pdfs.len()
        invariant
            i <= pdfs@.len(),
            views(hashes@) == pdfs@.subrange(0, i as int).map_values(|b: Vec<u8>| sha256_hex(b@)),
        decreases pdfs@.len() - i,
    {
        push_line(&mut hashes, hash_hex(&pdfs[i]));
        assert(pdfs@.subrange(0, i + 1).map_values(|b: Vec<u8>| sha256_hex(b@)) =~= pdfs@.subrange(
            0,
            i as int,
        ).map_values(|b: Vec<u8>| sha256_hex(b@)).push(sha256_hex(pdfs@[i as int]@)));
        i += 1;
    }
    assert(pdfs@.subrange(0, pdfs@.len() as int) =~= pdfs@);
    changed_tables(tables, &hashes)
}

/// The changes of the first `n` entries that `watched` names.
pub open spec fn watched_upto(
    changes: Seq<(Seq<char>, Seq<char>)>,
    watched: Seq<Seq<char>>,
    n: int,
) -> Seq<(Seq<char>, Seq<char>)>
    decreases n,
{
    if n <= 0 {
        Seq::empty()
    } else {
        let rest = watched_upto(changes, watched, n - 1);
        if watched.contains(changes[n - 1].0) {
            rest.push(changes[n - 1])
        } else {
            rest
        }
    }
}

/// Whether some string of `items` equals `s`.
fn contains_text(items: &Vec<String>, s: &String) -> (r: bool)
    ensures
        r == views(items@).contains(s@),
{
    let mut i: usize = 0;
    while i < items.len()
        invariant
            i <= items@.len(),
            forall|j: int| 0 <= j < i ==> views(items@)[j] != s@,
        decreases items@.len() - i,
    {
        if items[i] == *s {
            assert(views(items@)[i as int] == s@);
            return true;
        }
        i += 1;
    }
    false
}

/// The changes of the tables that `user` watches, in order.
pub fn watched_changes<'a>(changes: &'a Vec<(String, String)>, user: &User) -> (r: Vec<
    &'a (String, String),
>)
    ensures
        views(r@) == watched_upto(views(changes@), views(user.watch_tables@), changes@.len() as int),
{
    let mut r: Vec<&'a (String, String)> = Vec::new();
    let mut i: usize = 0;
    while i < changes.len()
        invariant
            i <= changes@.len(),
            views(r@) == watched_upto(views(changes@), views(user.watch_tables@), i as int),
        decreases changes@.len() - i,
    {
        let ghost before = r@;
        if contains_text(&user.watch_tables, &changes[i].0) {
            r.push(&changes[i]);
            assert(views(r@) =~= views(before).push(changes@[i as int]@));
        }
        i += 1;
    }
    r
}

/// The text of the letter that tells `name` which watched tables changed.
pub open spec fn table_letter_text(name: Seq<char>, table_names: Seq<Seq<char>>) -> Seq<char> {
    "Уважаемый(ая) "@ + name
        + "!\n        Следующие таблицы с расписаниями, которые вы отслеживаете, были изменены: "@
        + joined(table_names, ", "@)
        + ".\n        Данное письмо было сгенерировано автоматически, направление ответа не подразумевается.\n        "@
}

/// The body of the letter that tells `user` which of the tables they watch
/// changed.
pub fn table_letter_body(user: &User, watched: &Vec<&(String, String)>) -> (r: String)
    ensures
        r@ == table_letter_text(user.name@, watched@.map_values(|c: &(String, String)| c.0@)),
{
    let mut names: Vec<String> = Vec::new();
    let mut i: usize = 0;
    while i < watched.len()
        invariant
            i <= watched@.len(),
            views(names@) == watched@.subrange(0, i as int).map_values(
                |c: &(String, String)| c.0@,
            ),
        decreases watched@.len() - i,
    {
        push_line(&mut names, watched[i].0.clone());
        assert(watched@.subrange(0, i + 1).map_values(|c: &(String, String)| c.0@) =~= watched@.subrange(
            0,
            i as int,
        ).map_values(|c: &(String, String)| c.0@).push(watched@[i as int].0@));
        i += 1;
    }
    assert(watched@.subrange(0, watched@.len() as int) =~= watched@);
    let mut r = text_of("Уважаемый(ая) ");
    r.append(user.name.as_str());
    r.append("!\n        Следующие таблицы с расписаниями, которые вы отслеживаете, были изменены: ");
    r.append(join(&names, ", ").as_str());
    r.append(".\n        Данное письмо было сгенерировано автоматически, направление ответа не подразумевается.\n        ");
    r
}

/// The digest that the first entry of `updates` from index `j` on with name
/// `name` carries, if there is one.
pub open spec fn first_update(name: Seq<char>, updates: Seq<(Seq<char>, Seq<char>)>, j: int) -> Option<
    Seq<char>,
>
    decreases updates.len() - j,
{
    if j < 0 || j >= updates.len() {
        None
    } else if updates[j].0 == name {
        Some(updates[j].1)
    } else {
        first_update(name, updates, j + 1)
    }
}

/// A table after the updates: its digest becomes that of the first update
/// with its name, if any.
pub open spec fn updated_table(t: TableView, updates: Seq<(Seq<char>, Seq<char>)>) -> TableView {
    match first_update(t.name, updates, 0) {
        Some(h) => TableView { name: t.name, link: t.link, hash: h },
        None => t,
    }
}

/// The digest of the first update named `name`, if any.
fn find_update<'a>(name: &String, updates: &'a Vec<(String, String)>) -> (r: Option<&'a String>)
    ensures
        match r {
            Some(h) => first_update(name@, views(updates@), 0) == Some(h@),
            None => first_update(name@, views(updates@), 0) is None,
        },
{
    let mut j: usize = 0;
    while j < updates.len()
        invariant
            j <= updates@.len(),
            first_update(name@, views(updates@), 0) == first_update(name@, views(updates@), j as int),
        decreases updates@.len() - j,
    {
        if updates[j].0 == *name {
            return Some(&updates[j].1);
        }
        j += 1;
    }
    None
}

/// Gives each table the digest of the first update with its name; tables
/// without an update keep theirs.
pub fn update_table_hashes(tables: &mut Vec<Table>, updates: &Vec<(String, String)>)
    ensures
        final(tables)@.len() == old(tables)@.len(),
        forall|i: int|
            0 <= i < old(tables)@.len() ==> #[trigger] final(tables)@[i]@ == updated_table(
                old(tables)@[i]@,
                views(updates@),
            ),
{
    let ghost start = tables@;
    let mut i: usize = 0;
    while i < tables.len()
        invariant
            i <= tables@.len(),
            tables@.len() == start.len(),
            forall|k: int| 0 <= k < i ==> #[trigger] tables@[k]@ == updated_table(start[k]@, views(updates@)),
            forall|k: int| i <= k < tables@.len() ==> #[trigger] tables@[k] == start[k],
        decreases tables@.len() - i,
    {
        match find_update(&tables[i].table_name, updates) {
            Some(h) => {
                let t = Table {
                    table_name: tables[i].table_name.clone(),
                    link: tables[i].link.clone(),
                    hash: h.clone(),
                };
                tables.set(i, t);
            },
            None => {},
        }
        i += 1;
    }
}

} // verus!
