//! Black's section of a project's TOML file.

use toml::value::{Table, Value};
use vstd::prelude::*;

use crate::error::{ErrorKind, Failure};
use crate::text::{has_dash, undash};
#[allow(unused_imports)]
use crate::text::{dashed, undashed, undashed_name_holds_no_dash, undashing_is_idempotent};

verus! {

/// `toml::Value`, any TOML value.
#[verifier::external_type_specification]
#[verifier::external_body]
pub struct ExValue(toml::value::Value);

/// `toml::map::Map`, of which a TOML table is an instance.
#[verifier::external_type_specification]
#[verifier::external_body]
#[verifier::reject_recursive_types(K)]
#[verifier::reject_recursive_types(V)]
pub struct ExMap<K, V>(toml::map::Map<K, V>);

/// `toml::de::Error`, why a text is not TOML.
#[verifier::external_type_specification]
#[verifier::external_body]
pub struct ExTomlError(toml::de::Error);

/// What a text means as a TOML document.
pub uninterp spec fn toml_document(text: Seq<char>) -> Result<Value, toml::de::Error>;

/// The table that a value is, if it is one.
pub uninterp spec fn table_in(value: Value) -> Option<Table>;

/// What a table holds.
pub uninterp spec fn entries(table: Table) -> Map<Seq<char>, Value>;

/// The member of that name, where the value is a table that has one.
pub open spec fn member(value: Value, key: Seq<char>) -> Option<Value> {
    match table_in(value) {
        Some(table) => if entries(table).contains_key(key) {
            Some(entries(table)[key])
        } else {
            None
        },
        None => None,
    }
}

/// Whether `a` comes before `b` in the order of character codes, as in a dictionary.
pub open spec fn precedes(a: Seq<char>, b: Seq<char>) -> bool {
    exists|i: int| #[trigger] first_differ_at(a, b, i)
}

/// Whether the two agree before `i`, where `a` either ends or holds the smaller character.
pub open spec fn first_differ_at(a: Seq<char>, b: Seq<char>, i: int) -> bool {
    &&& 0 <= i <= a.len()
    &&& i < b.len()
    &&& forall|k: int| 0 <= k < i ==> a[k] == b[k]
    &&& i < a.len() ==> a[i] < b[i]
}

/// `toml::from_str`, asked for a value: the outcome depends on the text alone.
#[verifier::external_body]
fn parse_toml(text: &str) -> (document: Result<Value, toml::de::Error>)
    ensures
        document == toml_document(text@),
{
    toml::from_str::<Value>(text)
}

/// `toml::Value::get`, with a string: the member of that name of a table, and `None` where
/// there is no such member or the value is no table.
#[verifier::external_body]
fn get<'a>(value: &'a Value, key: &str) -> (found: Option<&'a Value>)
    ensures
        match found {
            Some(found) => member(*value, key@) == Some(*found),
            None => member(*value, key@) is None,
        },
{
    value.get(key)
}

/// `toml::Value::as_table`: the table that the value is, and `None` for any other value.
#[verifier::external_body]
fn as_table(value: &Value) -> (table: Option<&Table>)
    ensures
        match table {
            Some(table) => table_in(*value) == Some(*table),
            None => table_in(*value) is None,
        },
{
    value.as_table()
}

/// `clone` of a TOML table: the copy holds the same.
#[verifier::external_body]
fn clone_table(table: &Table) -> (copy: Table)
    ensures
        entries(copy) == entries(*table),
{
    table.clone()
}

/// `toml::map::Map::keys`: every key once, in ascending order.
#[verifier::external_body]
fn keys(table: &Table) -> (keys: Vec<String>)
    ensures
        forall|key: Seq<char>| #[trigger]
            keys.deep_view().contains(key) <==> entries(*table).contains_key(key),
        forall|i: int, j: int|
            0 <= i < j < keys.len() ==> precedes(#[trigger] keys[i]@, #[trigger] keys[j]@),
{
    table.keys().cloned().collect()
}

/// `toml::map::Map::remove`: takes the entry out and hands back its value, if it was there.
#[verifier::external_body]
fn remove(table: &mut Table, key: &str) -> (removed: Option<Value>)
    ensures
        entries(*final(table)) == entries(*old(table)).remove(key@),
        removed == if entries(*old(table)).contains_key(key@) {
            Some(entries(*old(table))[key@])
        } else {
            None
        },
{
    table.remove(key)
}

/// `toml::map::Map::insert`: sets the entry, and hands back the value that it had.
#[verifier::external_body]
fn insert(table: &mut Table, key: String, value: Value) -> (replaced: Option<Value>)
    ensures
        entries(*final(table)) == entries(*old(table)).insert(key@, value),
        replaced == if entries(*old(table)).contains_key(key@) {
            Some(entries(*old(table))[key@])
        } else {
            None
        },
{
    table.insert(key, value)
}

/// Whether the entry `source` is one of those that claim the name `target`.
pub open spec fn claims<V>(
    before: Map<Seq<char>, V>,
    source: Seq<char>,
    target: Seq<char>,
) -> bool {
    before.contains_key(source) && undashed(source) == target
}

/// Whether, of two entries that claim one name, `a` gets it: a name with dashes beats the name
/// without, and of two names with dashes the later one gets it.
pub open spec fn outranks(a: Seq<char>, b: Seq<char>) -> bool {
    dashed(a) && (dashed(b) ==> precedes(b, a))
}

/// Whether the entry `source` gets the name `target`.
pub open spec fn prevails<V>(
    before: Map<Seq<char>, V>,
    source: Seq<char>,
    target: Seq<char>,
) -> bool {
    &&& claims(before, source, target)
    &&& forall|other: Seq<char>| #[trigger]
        claims(before, other, target) ==> other == source || outranks(source, other)
}

/// Whether `after` is `before` with its entries under their names without dashes.
pub open spec fn renamed<V>(before: Map<Seq<char>, V>, after: Map<Seq<char>, V>) -> bool {
    &&& forall|source: Seq<char>| #[trigger]
        before.contains_key(source) ==> after.contains_key(undashed(source))
    &&& forall|target: Seq<char>| #[trigger]
        after.contains_key(target) ==> exists|source: Seq<char>| #[trigger]
            prevails(before, source, target) && after[target] == before[source]
}

/// The entries after those named in `moved` have been moved in turn.
spec fn after_moving<V>(before: Map<Seq<char>, V>, moved: Seq<Seq<char>>) -> Map<Seq<char>, V>
    decreases moved.len(),
{
    if moved.len() == 0 {
        before
    } else {
        let rest = after_moving(before, moved.drop_last());
        rest.remove(moved.last()).insert(undashed(moved.last()), rest[moved.last()])
    }
}

spec fn dashed_keys_once<V>(before: Map<Seq<char>, V>, moved: Seq<Seq<char>>) -> bool {
    &&& forall|i: int|
        0 <= i < moved.len() ==> before.contains_key(#[trigger] moved[i]) && dashed(moved[i])
    &&& forall|i: int, j: int|
        0 <= i < j < moved.len() ==> (#[trigger] moved[i]) != (#[trigger] moved[j])
}

/// Whether `moved[j]` is the last of those moved to `target`.
spec fn last_mover(moved: Seq<Seq<char>>, j: int, target: Seq<char>) -> bool {
    &&& 0 <= j < moved.len()
    &&& undashed(moved[j]) == target
    &&& forall|k: int| j < k < moved.len() ==> undashed(#[trigger] moved[k]) != target
}

proof fn lemma_after_moving<V>(before: Map<Seq<char>, V>, moved: Seq<Seq<char>>, key: Seq<char>)
    requires
        dashed_keys_once(before, moved),
    ensures
        dashed(key) ==> {
            &&& after_moving(before, moved).contains_key(key) <==> before.contains_key(key)
                && !moved.contains(key)
            &&& after_moving(before, moved).contains_key(key) ==> after_moving(before, moved)[key]
                == before[key]
        },
        !dashed(key) ==> {
            ||| exists|j: int| #[trigger]
                last_mover(moved, j, key) && after_moving(before, moved).contains_key(key)
                    && after_moving(before, moved)[key] == before[moved[j]]
            ||| {
                &&& forall|j: int| 0 <= j < moved.len() ==> undashed(#[trigger] moved[j]) != key
                &&& after_moving(before, moved).contains_key(key) <==> before.contains_key(key)
                &&& before.contains_key(key) ==> after_moving(before, moved)[key] == before[key]
            }
        },
    decreases moved.len(),
{
    if moved.len() > 0 {
        let init = moved.drop_last();
        let n = moved.len() - 1;
        let last = moved.last();
        assert(dashed_keys_once(before, init)) by {
            assert forall|i: int| 0 <= i < init.len() implies before.contains_key(
                #[trigger] init[i],
            ) && dashed(init[i]) by {
                assert(init[i] == moved[i]);
            }
            assert forall|i: int, j: int| 0 <= i < j < init.len() implies (#[trigger] init[i]) != (
            #[trigger] init[j]) by {
                assert(init[i] == moved[i] && init[j] == moved[j]);
            }
        }
        lemma_after_moving(before, init, key);
        lemma_after_moving(before, init, last);
        undashed_name_holds_no_dash(last);
        assert(dashed(moved[n]));
        assert(!init.contains(last)) by {
            if init.contains(last) {
                let i = choose|i: int| 0 <= i < init.len() && init[i] == last;
                assert(moved[i] == moved[n]);
            }
        }
        if dashed(key) {
            if moved.contains(key) && key != last {
                let i = choose|i: int| 0 <= i < moved.len() && moved[i] == key;
                assert(init[i] == key);
            }
            if init.contains(key) {
                let i = choose|i: int| 0 <= i < init.len() && init[i] == key;
                assert(moved[i] == key);
            }
            if key == last {
                assert(moved[n] == key);
            }
        } else if undashed(last) == key {
            assert(last_mover(moved, n, key));
        } else if exists|j: int| #[trigger]
            last_mover(init, j, key) && after_moving(before, init).contains_key(key)
                && after_moving(before, init)[key] == before[init[j]] {
            let j = choose|j: int| #[trigger]
                last_mover(init, j, key) && after_moving(before, init).contains_key(key)
                    && after_moving(before, init)[key] == before[init[j]];
            assert forall|k: int| j < k < moved.len() implies undashed(#[trigger] moved[k])
                != key by {
                if k < n {
                    assert(moved[k] == init[k]);
                }
            }
            assert(last_mover(moved, j, key));
        } else {
            assert forall|j: int| 0 <= j < moved.len() implies undashed(#[trigger] moved[j])
                != key by {
                if j < n {
                    assert(moved[j] == init[j]);
                }
            }
        }
    }
}

proof fn lemma_renamed<V>(before: Map<Seq<char>, V>, moved: Seq<Seq<char>>)
    requires
        dashed_keys_once(before, moved),
        forall|key: Seq<char>|
            before.contains_key(key) && dashed(key) ==> #[trigger] moved.contains(key),
        forall|i: int, j: int|
            0 <= i < j < moved.len() ==> precedes(#[trigger] moved[i], #[trigger] moved[j]),
    ensures
        renamed(before, after_moving(before, moved)),
{
    let after = after_moving(before, moved);
    assert forall|source: Seq<char>| #[trigger] before.contains_key(source) implies after.contains_key(
        undashed(source),
    ) by {
        let target = undashed(source);
        undashed_name_holds_no_dash(source);
        undashing_is_idempotent(source);
        lemma_after_moving(before, moved, target);
        if dashed(source) {
            assert(moved.contains(source));
            let i = choose|i: int| 0 <= i < moved.len() && moved[i] == source;
            assert(undashed(moved[i]) == target);
        }
    }
    assert forall|target: Seq<char>| #[trigger] after.contains_key(target) implies exists|
        source: Seq<char>,
    | #[trigger] prevails(before, source, target) && after[target] == before[source] by {
        lemma_after_moving(before, moved, target);
        if dashed(target) {
            assert(before.contains_key(target));
            assert(moved.contains(target));
        }
        if exists|j: int| #[trigger]
            last_mover(moved, j, target) && after[target] == before[moved[j]] {
            let j = choose|j: int| #[trigger]
                last_mover(moved, j, target) && after[target] == before[moved[j]];
            assert forall|other: Seq<char>| #[trigger] claims(before, other, target) implies other
                == moved[j] || outranks(moved[j], other) by {
                if dashed(other) {
                    assert(moved.contains(other));
                    let k = choose|k: int| 0 <= k < moved.len() && moved[k] == other;
                    assert(k <= j);
                }
            }
            assert(prevails(before, moved[j], target));
        } else {
            undashing_is_idempotent(target);
            assert forall|other: Seq<char>| #[trigger] claims(before, other, target) implies other
                == target by {
                undashing_is_idempotent(other);
                if dashed(other) {
                    assert(moved.contains(other));
                    let k = choose|k: int| 0 <= k < moved.len() && moved[k] == other;
                    assert(undashed(moved[k]) == target);
                }
            }
            assert(prevails(before, target, target));
        }
    }
}

/// Moves every entry to its name without dashes.
pub fn rename_keys(table: &mut Table)
    ensures
        renamed(entries(*old(table)), entries(*final(table))),
{
    let all = keys(table);
    let mut moved: Vec<String> = Vec::new();
    for i in 0..all.len()
        invariant
            forall|k: int| 0 <= k < moved.len() ==> dashed((#[trigger] moved[k])@),
            forall|k: int|
                0 <= k < moved.len() ==> all.deep_view().take(i as int).contains(
                    (#[trigger] moved[k])@,
                ),
            forall|k: int|
                0 <= k < i && dashed((#[trigger] all[k])@) ==> moved.deep_view().contains(all[k]@),
            forall|k: int, l: int|
                0 <= k < l < all.len() ==> precedes(#[trigger] all[k]@, #[trigger] all[l]@),
            forall|k: int, l: int|
                0 <= k < l < moved.len() ==> precedes(#[trigger] moved[k]@, #[trigger] moved[l]@),
    {
        let ghost views = all.deep_view();
        let ghost moved_before = moved.deep_view();
        assert forall|k: int| 0 <= k < moved.len() implies views.take(i + 1).contains(
            (#[trigger] moved[k])@,
        ) && precedes(moved[k]@, all[i as int]@) by {
            let m = choose|m: int|
                0 <= m < views.take(i as int).len() && views.take(i as int)[m] == moved[k]@;
            assert(views.take(i + 1)[m] == moved[k]@);
            assert(all[m]@ == moved[k]@);
        }
        assert(views.take(i + 1)[i as int] == all[i as int]@);
        if has_dash(all[i].as_str()) {
            moved.push(all[i].clone());
            assert(moved.deep_view() == moved_before.push(all[i as int]@));
            assert(moved.deep_view()[moved.len() - 1] == all[i as int]@);
            assert forall|k: int| 0 <= k < i && dashed((#[trigger] all[k])@) implies
                moved.deep_view().contains(all[k]@) by {
                let m = choose|m: int| 0 <= m < moved_before.len() && moved_before[m] == all[k]@;
                assert(moved.deep_view()[m] == all[k]@);
            }
        }
    }
    let ghost before = entries(*table);
    let ghost names = moved.deep_view();
    proof {
        assert forall|k: int| 0 <= k < names.len() implies before.contains_key(
            #[trigger] names[k],
        ) && dashed(names[k]) by {
            assert(names[k] == moved[k]@);
            assert(all.deep_view().take(all.len() as int) == all.deep_view());
        }
        assert forall|k: int, l: int| 0 <= k < l < names.len() implies precedes(
            #[trigger] names[k],
            #[trigger] names[l],
        ) && names[k] != names[l] by {
            assert(precedes(moved[k]@, moved[l]@));
            order_is_strict(names[k], names[l]);
        }
        assert forall|key: Seq<char>|
            before.contains_key(key) && dashed(key) implies #[trigger] names.contains(key) by {
            assert(all.deep_view().contains(key));
            let k = choose|k: int| 0 <= k < all.deep_view().len() && all.deep_view()[k] == key;
            assert(all[k]@ == key);
        }
        lemma_renamed(before, names);
    }
    for i in 0..moved.len()
        invariant
            names == moved.deep_view(),
            dashed_keys_once(before, names),
            entries(*table) == after_moving(before, names.take(i as int)),
    {
        proof {
            assert(names.take(i + 1).drop_last() == names.take(i as int));
            assert(names.take(i + 1).last() == moved[i as int]@);
            assert(dashed_keys_once(before, names.take(i as int)));
            lemma_after_moving(before, names.take(i as int), names[i as int]);
            assert(!names.take(i as int).contains(names[i as int])) by {
                if names.take(i as int).contains(names[i as int]) {
                    let k = choose|k: int|
                        0 <= k < i && names.take(i as int)[k] == names[i as int];
                    assert(names[k] == names[i as int]);
                }
            }
        }
        if let Some(value) = remove(table, moved[i].as_str()) {
            insert(table, undash(moved[i].as_str()), value);
        }
    }
    assert(names.take(moved.len() as int) == names);
}

/// Black's section as it stands in a document.
pub open spec fn section_in(document: Result<Value, toml::de::Error>) -> Result<
    Table,
    Failure<toml::de::Error>,
> {
    match document {
        Err(error) => Err(Failure { kind: ErrorKind::ParseToml, cause: Some(error) }),
        Ok(root) => match member(root, "tool"@) {
            None => Err(Failure { kind: ErrorKind::NoToolSection, cause: None }),
            Some(tool) => match member(tool, "black"@) {
                None => Err(Failure { kind: ErrorKind::NoBlackSection, cause: None }),
                Some(black) => match table_in(black) {
                    None => Err(Failure { kind: ErrorKind::BlackSectionIsNoTable, cause: None }),
                    Some(table) => Ok(table),
                },
            },
        },
    }
}

/// Whether `read` is Black's section of the document, with every key under its name without
/// dashes.
pub open spec fn reads_section(
    document: Result<Value, toml::de::Error>,
    read: Result<Table, Failure<toml::de::Error>>,
) -> bool {
    match section_in(document) {
        Ok(table) => read is Ok && renamed(entries(table), entries(read->Ok_0)),
        Err(failure) => read == Err::<Table, _>(failure),
    }
}

/// Takes Black's section out of a document.
pub fn black_section(document: Result<Value, toml::de::Error>) -> (read: Result<
    Table,
    Failure<toml::de::Error>,
>)
    ensures
        reads_section(document, read),
{
    let root = match document {
        Ok(root) => root,
        Err(error) => return Err(Failure::caused_by(ErrorKind::ParseToml, error)),
    };
    let tool = match get(&root, "tool") {
        Some(tool) => tool,
        None => return Err(Failure::plain(ErrorKind::NoToolSection)),
    };
    let black = match get(tool, "black") {
        Some(black) => black,
        None => return Err(Failure::plain(ErrorKind::NoBlackSection)),
    };
    match as_table(black) {
        Some(table) => {
            let mut copy = clone_table(table);
            rename_keys(&mut copy);
            Ok(copy)
        },
        None => Err(Failure::plain(ErrorKind::BlackSectionIsNoTable)),
    }
}

/// Reads Black's section from the text of a project's TOML file.
pub fn read_config(text: &str) -> (read: Result<Table, Failure<toml::de::Error>>)
    ensures
        reads_section(toml_document(text@), read),
{
    black_section(parse_toml(text))
}

/// No key of a renamed section holds a dash.
pub proof fn renamed_keys_hold_no_dash<V>(
    before: Map<Seq<char>, V>,
    after: Map<Seq<char>, V>,
    key: Seq<char>,
)
    requires
        renamed(before, after),
        after.contains_key(key),
    ensures
        !dashed(key),
{
    let source = choose|source: Seq<char>| #[trigger]
        prevails(before, source, key) && after[key] == before[source];
    undashed_name_holds_no_dash(source);
}

/// Only one entry gets a name.
pub proof fn one_entry_prevails<V>(
    before: Map<Seq<char>, V>,
    a: Seq<char>,
    b: Seq<char>,
    target: Seq<char>,
)
    requires
        prevails(before, a, target),
        prevails(before, b, target),
    ensures
        a == b,
{
    order_is_strict(a, b);
    assert(claims(before, a, target) && claims(before, b, target));
}

/// A section can be renamed in one way only.
pub proof fn renaming_is_determined<V>(
    before: Map<Seq<char>, V>,
    a: Map<Seq<char>, V>,
    b: Map<Seq<char>, V>,
)
    requires
        renamed(before, a),
        renamed(before, b),
    ensures
        a == b,
{
    assert forall|key: Seq<char>| a.contains_key(key) <==> b.contains_key(key) by {
        if a.contains_key(key) {
            let source = choose|source: Seq<char>| #[trigger]
                prevails(before, source, key) && a[key] == before[source];
            assert(before.contains_key(source));
        }
        if b.contains_key(key) {
            let source = choose|source: Seq<char>| #[trigger]
                prevails(before, source, key) && b[key] == before[source];
            assert(before.contains_key(source));
        }
    }
    assert forall|key: Seq<char>| a.contains_key(key) implies a[key] == b[key] by {
        let source = choose|source: Seq<char>| #[trigger]
            prevails(before, source, key) && a[key] == before[source];
        assert(b.contains_key(key));
        let other = choose|other: Seq<char>| #[trigger]
            prevails(before, other, key) && b[key] == before[other];
        one_entry_prevails(before, source, other, key);
    }
    assert(a =~= b);
}

/// A section without dashes in its keys stays as it is.
pub proof fn plain_sections_stay<V>(before: Map<Seq<char>, V>, after: Map<Seq<char>, V>)
    requires
        renamed(before, after),
        forall|key: Seq<char>| #[trigger] before.contains_key(key) ==> !dashed(key),
    ensures
        after == before,
{
    assert(renamed(before, before)) by {
        assert forall|key: Seq<char>| #[trigger] before.contains_key(key) implies prevails(
            before,
            key,
            key,
        ) && undashed(key) == key by {
            undashing_is_idempotent(key);
            assert forall|other: Seq<char>| #[trigger] claims(before, other, key) implies other
                == key by {
                undashing_is_idempotent(other);
            }
        }
    }
    renaming_is_determined(before, after, before);
}

/// Renaming a section twice is renaming it once.
pub proof fn renaming_is_idempotent<V>(
    before: Map<Seq<char>, V>,
    once: Map<Seq<char>, V>,
    twice: Map<Seq<char>, V>,
)
    requires
        renamed(before, once),
        renamed(once, twice),
    ensures
        twice == once,
{
    assert forall|key: Seq<char>| #[trigger] once.contains_key(key) implies !dashed(key) by {
        renamed_keys_hold_no_dash(before, once, key);
    }
    plain_sections_stay(once, twice);
}

/// Nothing comes before itself, nor two texts before each other.
pub proof fn order_is_strict(a: Seq<char>, b: Seq<char>)
    ensures
        !precedes(a, a),
        !(precedes(a, b) && precedes(b, a)),
{
    if precedes(a, b) && precedes(b, a) {
        let i = choose|i: int| #[trigger] first_differ_at(a, b, i);
        let j = choose|j: int| #[trigger] first_differ_at(b, a, j);
        if i < j {
            assert(b[i] == a[i]);
        } else if j < i {
            assert(a[j] == b[j]);
        }
    }
    if precedes(a, a) {
        let i = choose|i: int| #[trigger] first_differ_at(a, a, i);
        assert(a[i] < a[i]);
    }
}

/// Of two different texts, one comes before the other.
pub proof fn order_is_total(a: Seq<char>, b: Seq<char>)
    requires
        a != b,
    ensures
        precedes(a, b) || precedes(b, a),
{
    lemma_differ_from(a, b, 0);
}

proof fn lemma_differ_from(a: Seq<char>, b: Seq<char>, i: int)
    requires
        a != b,
        0 <= i <= a.len(),
        i <= b.len(),
        forall|k: int| 0 <= k < i ==> a[k] == b[k],
    ensures
        precedes(a, b) || precedes(b, a),
    decreases a.len() - i,
{
    if i < a.len() && i < b.len() && a[i] == b[i] {
        lemma_differ_from(a, b, i + 1);
    } else if i < b.len() && (i == a.len() || a[i] < b[i]) {
        assert(first_differ_at(a, b, i));
    } else if i < a.len() {
        assert(first_differ_at(b, a, i));
    } else {
        assert(a == b);
    }
}

/// The first character in which two texts differ decides which comes first, and a text comes
/// before those that it begins.
pub proof fn order_goes_by_the_first_difference(
    common: Seq<char>,
    x: char,
    y: char,
    after_x: Seq<char>,
    after_y: Seq<char>,
)
    requires
        x < y,
    ensures
        precedes(common.push(x) + after_x, common.push(y) + after_y),
        precedes(common, common.push(y) + after_y),
{
    let n = common.len() as int;
    assert(first_differ_at(common.push(x) + after_x, common.push(y) + after_y, n));
    assert(first_differ_at(common, common.push(y) + after_y, n));
}

/// An entry whose key holds a dash is found under the name with underscores, unless another
/// such entry with a later key claims that name. An entry whose key holds none stays where it
/// is, unless one whose key does claims its name.
pub proof fn entries_are_found_under_their_new_names<V>(
    before: Map<Seq<char>, V>,
    after: Map<Seq<char>, V>,
    key: Seq<char>,
)
    requires
        renamed(before, after),
        before.contains_key(key),
    ensures
        after.contains_key(undashed(key)),
        key.contains('-') && (forall|other: Seq<char>| #[trigger]
            before.contains_key(other) && other.contains('-') && undashed(other) == undashed(key)
                && other != key ==> precedes(other, key)) ==> after[undashed(key)] == before[key],
        !key.contains('-') && (forall|other: Seq<char>| #[trigger]
            before.contains_key(other) && other.contains('-') ==> undashed(other) != key)
            ==> after.contains_key(key) && after[key] == before[key],
{
    let target = undashed(key);
    undashing_is_idempotent(key);
    assert(after.contains_key(target));
    let source = choose|source: Seq<char>| #[trigger]
        prevails(before, source, target) && after[target] == before[source];
    assert(claims(before, key, target));
    order_is_strict(key, source);
    assert(before.contains_key(source));
}

/// Every entry of a renamed section comes from an entry whose key reads the same once its
/// dashes are underscores.
pub proof fn renamed_entries_come_from_the_section<V>(
    before: Map<Seq<char>, V>,
    after: Map<Seq<char>, V>,
    target: Seq<char>,
)
    requires
        renamed(before, after),
        after.contains_key(target),
    ensures
        exists|source: Seq<char>| #[trigger]
            before.contains_key(source) && undashed(source) == target && after[target]
                == before[source],
{
    let source = choose|source: Seq<char>| #[trigger]
        prevails(before, source, target) && after[target] == before[source];
    assert(before.contains_key(source));
}

/// The members of a value are the entries of the table that it is.
pub proof fn members_are_entries(value: Value, key: Seq<char>)
    ensures
        table_in(value) is None ==> member(value, key) is None,
        table_in(value) matches Some(table) ==> {
            &&& entries(table).contains_key(key) ==> member(value, key) == Some(
                entries(table)[key],
            )
            &&& !entries(table).contains_key(key) ==> member(value, key) is None
        },
{
}

/// Where the document has a table `tool` with a table `black`, that table is what is read,
/// with its keys renamed, whatever else there is.
pub proof fn tool_black_is_what_is_read(
    root: Value,
    top: Table,
    tool: Table,
    black: Table,
    read: Result<Table, Failure<toml::de::Error>>,
)
    requires
        reads_section(Ok(root), read),
        table_in(root) == Some(top),
        entries(top).contains_key("tool"@),
        table_in(entries(top)["tool"@]) == Some(tool),
        entries(tool).contains_key("black"@),
        table_in(entries(tool)["black"@]) == Some(black),
    ensures
        read matches Ok(section) && renamed(entries(black), entries(section)),
{
}

/// Two documents with the same `tool.black` read the same, whatever other sections they hold.
pub proof fn other_sections_do_not_matter(
    one: (Value, Table, Table, Table),
    other: (Value, Table, Table, Table),
    read_one: Result<Table, Failure<toml::de::Error>>,
    read_other: Result<Table, Failure<toml::de::Error>>,
)
    requires
        reads_section(Ok(one.0), read_one),
        reads_section(Ok(other.0), read_other),
        table_in(one.0) == Some(one.1),
        entries(one.1).contains_key("tool"@),
        table_in(entries(one.1)["tool"@]) == Some(one.2),
        entries(one.2).contains_key("black"@),
        table_in(entries(one.2)["black"@]) == Some(one.3),
        table_in(other.0) == Some(other.1),
        entries(other.1).contains_key("tool"@),
        table_in(entries(other.1)["tool"@]) == Some(other.2),
        entries(other.2).contains_key("black"@),
        table_in(entries(other.2)["black"@]) == Some(other.3),
        entries(one.3) == entries(other.3),
    ensures
        read_one is Ok,
        read_other is Ok,
        entries(read_one->Ok_0) == entries(read_other->Ok_0),
{
    tool_black_is_what_is_read(one.0, one.1, one.2, one.3, read_one);
    tool_black_is_what_is_read(other.0, other.1, other.2, other.3, read_other);
    renaming_is_determined(
        entries(one.3),
        entries(read_one->Ok_0),
        entries(read_other->Ok_0),
    );
}

/// A text that is not TOML is refused with the parser's error.
pub proof fn text_that_is_not_toml_is_refused(
    error: toml::de::Error,
    read: Result<Table, Failure<toml::de::Error>>,
)
    requires
        reads_section(Err(error), read),
    ensures
        read matches Err(failure) && failure.kind == ErrorKind::ParseToml && failure.cause == Some(
            error,
        ),
{
}

/// A document is refused for want of `tool`, then for want of `tool.black`, then because
/// `tool.black` is no table, and for nothing else.
pub proof fn documents_without_the_section_are_refused(
    root: Value,
    read: Result<Table, Failure<toml::de::Error>>,
)
    requires
        reads_section(Ok(root), read),
    ensures
        ({
            let tool = entries(table_in(root)->0)["tool"@];
            let black = entries(table_in(tool)->0)["black"@];
            let has_tool = table_in(root) is Some && entries(table_in(root)->0).contains_key(
                "tool"@,
            );
            let has_black = table_in(tool) is Some && entries(table_in(tool)->0).contains_key(
                "black"@,
            );
            &&& !has_tool <==> (read matches Err(failure) && failure.kind
                == ErrorKind::NoToolSection)
            &&& has_tool && !has_black <==> (read matches Err(failure) && failure.kind
                == ErrorKind::NoBlackSection)
            &&& has_tool && has_black && table_in(black) is None <==> (read matches Err(failure)
                && failure.kind == ErrorKind::BlackSectionIsNoTable)
            &&& has_tool && has_black && table_in(black) is Some <==> read is Ok
            &&& read matches Err(failure) ==> failure.cause is None
        }),
{
}

} // verus!
