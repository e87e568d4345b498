//! Dashboard settings: a flat key-value store.
//!
//! Every settings page reads and writes a slice of one table. Keys are namespaced by group:
//! the group, a point, and the name within it. A page loads its slice with one pattern, which
//! may list more than the group, and [`get_group`] keeps what belongs to it. Values are
//! opaque texts.

use crate::text::{chars_of, joined, lemma_position_is, position, stands_at};
use vstd::prelude::*;

verus! {

/// A setting.
#[derive(Debug)]
pub struct Setting {
    pub key: String,
    pub value: Option<String>,
}

/// Whether a key belongs to a group: it begins with the group and a point.
pub open spec fn is_in_group(key: Seq<char>, group: Seq<char>) -> bool {
    group.push('.').is_prefix_of(key)
}

/// The settings of a group, in their order.
pub open spec fn group_of(rows: Seq<Setting>, group: Seq<char>) -> Seq<Setting> {
    rows.filter(|r: Setting| is_in_group(r.key@, group))
}

/// An SQL `LIKE` pattern that every key of a group matches. In `LIKE`, letters match in either
/// case, and a `_` or `%` in the group's own name matches other characters too, so that keys
/// of other groups may match as well.
pub fn group_pattern(group: &str) -> (p: String)
    ensures
        p@ == group@ + ".%"@,
{
    joined(group, ".%")
}

/// Whether a key belongs to a group.
pub fn in_group(key: &str, group: &str) -> (r: bool)
    ensures
        r == is_in_group(key@, group@),
{
    let k = chars_of(key);
    let mut prefix = chars_of(group);
    prefix.push('.');
    let ghost p = group@.push('.');
    assert(p.is_prefix_of(key@) == (p.len() <= key@.len() && key@.subrange(0, p.len() as int)
        == p));
    stands_at(&k, &prefix, 0)
}

/// Every setting in a group, of the rows that its pattern listed.
pub fn get_group(rows: Vec<Setting>, group: &str) -> (r: Vec<Setting>)
    ensures
        r@ == group_of(rows@, group@),
{
    let ghost all = rows@;
    let ghost belongs = |r: Setting| is_in_group(r.key@, group@);
    let mut r: Vec<Setting> = Vec::new();
    assert(all.take(0).filter(belongs) =~= Seq::<Setting>::empty()) by {
        reveal(Seq::filter);
    }
    for row in it: rows
        invariant
            it.seq() == all,
            belongs == (|r: Setting| is_in_group(r.key@, group@)),
            r@ == all.take(it.index()).filter(belongs),
    {
        proof {
            all.take(it.index()).lemma_filter_push(row, belongs);
            assert(all.take(it.index() + 1) =~= all.take(it.index()).push(row));
        }
        if in_group(row.key.as_str(), group) {
            r.push(row);
        }
    }
    assert(all.take(all.len() as int) =~= all);
    r
}

/// A setting's value: none where the key was never set, or was set to nothing.
pub fn get(row: Option<Option<String>>) -> (r: Option<String>)
    ensures
        r == match row {
            Some(value) => value,
            None => None,
        },
{
    match row {
        Some(value) => value,
        None => None,
    }
}

// ---- laws ----

/// Groups whose names hold no point are apart: no key belongs to two of them.
pub proof fn law_groups_are_apart(key: Seq<char>, a: Seq<char>, b: Seq<char>)
    requires
        !a.contains('.'),
        !b.contains('.'),
        is_in_group(key, a),
        is_in_group(key, b),
    ensures
        a == b,
{
    lemma_group_ends(key, a);
    lemma_group_ends(key, b);
    assert(a =~= key.take(position(key, '.')));
    assert(b =~= key.take(position(key, '.')));
}

/// A group whose name holds no point ends at the first point of its keys.
proof fn lemma_group_ends(key: Seq<char>, group: Seq<char>)
    requires
        !group.contains('.'),
        is_in_group(key, group),
    ensures
        position(key, '.') == group.len(),
        key.take(group.len() as int) =~= group,
{
    let p = group.push('.');
    assert(key.subrange(0, p.len() as int) =~= p);
    assert forall|j: int| 0 <= j < p.len() implies key[j] == p[j] by {
        assert(key.subrange(0, p.len() as int)[j] == p[j]);
    }
    assert forall|j: int| 0 <= j < group.len() implies key[j] != '.' by {
        assert(group[j] == p[j]);
    }
    lemma_position_is(key, '.', group.len() as int);
}

/// A key belongs to a group exactly if it is the group, a point and a name.
pub proof fn law_group_is_the_front_of_its_keys(key: Seq<char>, group: Seq<char>)
    ensures
        is_in_group(key, group) <==> exists|name: Seq<char>|
            key == #[trigger] (group + seq!['.'] + name),
{
    let p = group.push('.');
    if is_in_group(key, group) {
        let name = key.skip(p.len() as int);
        assert(key =~= p + name);
        assert(p + name =~= group + seq!['.'] + name);
    }
    if exists|name: Seq<char>| key == #[trigger] (group + seq!['.'] + name) {
        let name = choose|name: Seq<char>| key == #[trigger] (group + seq!['.'] + name);
        assert(key.subrange(0, p.len() as int) =~= p);
    }
}

/// A group lists each of its settings, in their order, and no other.
pub proof fn law_group_lists_its_settings(rows: Seq<Setting>, row: Setting, group: Seq<char>)
    ensures
        is_in_group(row.key@, group) ==> group_of(rows.push(row), group) == group_of(
            rows,
            group,
        ).push(row),
        !is_in_group(row.key@, group) ==> group_of(rows.push(row), group) == group_of(rows, group),
        group_of(Seq::empty(), group).len() == 0,
{
    rows.lemma_filter_push(row, |r: Setting| is_in_group(r.key@, group));
    reveal(Seq::filter);
}

} // verus!
