use std::marker::PhantomData;

use vstd::prelude::*;
use vstd::string::*;

use crate::error::{IoErrorKind, IoFailure, SaveError};
use crate::registry::{find_key, keys_of, texts};
use crate::ron_codec::{
    bag_view, parse_ron_bag, parse_ron_value, ron_bag_entries, ron_bag_text, ron_bag_to_string,
    ron_error_text, ron_value_of, ron_value_parses, spanned_error_text, string_from_utf8,
    utf8_error_text,
};

verus! {

/// A marker for a save group. Implement it on an empty type to give the group a
/// name at the type level.
pub trait SaveGroup: 'static {}

/// Names a resource type without holding a value of it; being `Send` and `Sync`
/// itself, it lets what names a type through it be shared between threads
/// whatever the type is.
trait NamesType<R>: Send + Sync {}

/// A member of a save group, standing for the resource type `R`; a group file
/// stores it under the name of `R`. It holds no `R`, so it is `Send` and `Sync`
/// whatever `R` is.
#[verifier::reject_recursive_types(R)]
pub struct SaveEntry<R> {
    resource: PhantomData<dyn NamesType<R>>,
}

impl<R> SaveEntry<R> {
    /// The group member for resource type `R`.
    pub fn new() -> (entry: SaveEntry<R>) {
        SaveEntry { resource: PhantomData }
    }
}

/// What one resource of a group looked like when the group was saved.
#[derive(Debug, Clone, PartialEq, Eq)]
pub enum MemberSnapshot {
    /// The resource is not in the world.
    Missing,
    /// Writing the resource as RON failed with this message.
    Unwritable(String),
    /// The resource written as RON.
    Written(String),
}

/// A group file's contents: RON values under the names of their resources.
pub type Bag = Seq<(Seq<char>, ron::Value)>;

pub open spec fn bag_keys(bag: Bag) -> Seq<Seq<char>> {
    bag.map_values(|e: (Seq<char>, ron::Value)| e.0)
}

/// The value stored under `key`, if any.
pub open spec fn bag_lookup(bag: Bag, key: Seq<char>) -> Option<ron::Value> {
    if exists|i: int| 0 <= i < bag.len() && (#[trigger] bag[i]).0 == key {
        Some(bag[choose|i: int| 0 <= i < bag.len() && (#[trigger] bag[i]).0 == key].1)
    } else {
        None
    }
}

/// The bag after storing `value` under `key`, in place of an earlier value for it.
pub open spec fn bag_insert(bag: Bag, key: Seq<char>, value: ron::Value) -> Bag {
    if exists|i: int| 0 <= i < bag.len() && (#[trigger] bag[i]).0 == key {
        bag.update(choose|i: int| 0 <= i < bag.len() && (#[trigger] bag[i]).0 == key, (key, value))
    } else {
        bag.push((key, value))
    }
}

/// The text a snapshot holds, if it was written.
pub open spec fn snapshot_text(s: MemberSnapshot) -> Seq<char> {
    match s {
        MemberSnapshot::Written(t) => t@,
        _ => Seq::empty(),
    }
}

pub open spec fn snapshot_texts(s: Seq<(String, MemberSnapshot)>) -> Seq<Seq<char>> {
    s.map_values(|x: (String, MemberSnapshot)| snapshot_text(x.1))
}

/// The bag that saving builds: each member's text, read as a RON value, stored
/// under the member's name, in member order.
pub open spec fn saved_bag(keys: Seq<Seq<char>>, values: Seq<Seq<char>>) -> Bag
    decreases keys.len(),
{
    if keys.len() == 0 {
        Seq::empty()
    } else {
        let n = keys.len() - 1;
        bag_insert(saved_bag(keys.take(n), values.take(n)), keys[n], ron_value_of(values[n])->0)
    }
}

/// A member's snapshot can go into the group file: it was written, and its text
/// parses back as a RON value.
pub open spec fn snapshot_usable(s: MemberSnapshot) -> bool {
    s matches MemberSnapshot::Written(t) && ron_value_parses(t@)
}

/// The outcome of saving a group whose first unusable member is `key` with `snap`.
pub open spec fn member_save_failure(key: String, snap: MemberSnapshot, r: Result<String, SaveError>) -> bool {
    match snap {
        MemberSnapshot::Missing => r == Err::<String, SaveError>(SaveError::ResourceMissing(key)),
        MemberSnapshot::Unwritable(m) => r == Err::<String, SaveError>(
            SaveError::Serialize { resource_type: key, message: m },
        ),
        MemberSnapshot::Written(_) => r matches Err(SaveError::Internal(m)) && exists|detail: Seq<char>|
            m@ == #[trigger] reparse_failure_text(key@, detail),
    }
}

/// The message for a member whose written text does not parse back; `detail` is
/// what `ron` said.
pub open spec fn reparse_failure_text(key: Seq<char>, detail: Seq<char>) -> Seq<char> {
    "re-parsing RON produced for `"@ + key + "` failed: "@ + detail
}

pub open spec fn bag_type_name() -> Seq<char> {
    "SaveBag"@
}

/// The member at index `i` occurs there for the first time.
pub open spec fn first_occurrence(members: Seq<Seq<char>>, i: int) -> bool {
    !members.subrange(0, i).contains(members[i])
}

/// What loading gives each member from a bag: the value stored under its name,
/// the first time the member is listed.
pub open spec fn loaded_values(members: Seq<Seq<char>>, bag: Bag) -> Seq<Option<ron::Value>> {
    Seq::new(
        members.len(),
        |i: int|
            if first_occurrence(members, i) {
                bag_lookup(bag, members[i])
            } else {
                None
            },
    )
}

proof fn lemma_bag_keys_view(entries: Seq<(String, ron::Value)>)
    ensures
        bag_keys(bag_view(entries)) == keys_of(entries),
{
    assert(bag_keys(bag_view(entries)) =~= keys_of(entries));
}

/// In a bag without repeated keys, the entry at `j` is the one stored under its key.
pub proof fn lemma_lookup_at(bag: Bag, j: int)
    requires
        bag_keys(bag).no_duplicates(),
        0 <= j < bag.len(),
    ensures
        bag_lookup(bag, bag[j].0) == Some(bag[j].1),
        (choose|i: int| 0 <= i < bag.len() && (#[trigger] bag[i]).0 == bag[j].0) == j,
{
    assert(0 <= j < bag.len() && bag[j].0 == bag[j].0);
    let i = choose|i: int| 0 <= i < bag.len() && (#[trigger] bag[i]).0 == bag[j].0;
    assert(bag_keys(bag)[i] == bag[i].0);
    assert(bag_keys(bag)[j] == bag[j].0);
    assert(i == j);
}

proof fn lemma_lookup_remove(bag: Bag, j: int, q: Seq<char>)
    requires
        bag_keys(bag).no_duplicates(),
        0 <= j < bag.len(),
    ensures
        bag_keys(bag.remove(j)).no_duplicates(),
        bag_lookup(bag.remove(j), q) == if q == bag[j].0 {
            None
        } else {
            bag_lookup(bag, q)
        },
{
    let r = bag.remove(j);
    assert(bag_keys(r) =~= bag_keys(bag).remove(j));
    assert forall|a: int, b: int| 0 <= a < r.len() && 0 <= b < r.len() && a != b implies bag_keys(r)[a]
        != bag_keys(r)[b] by {
        let sa = if a < j { a } else { a + 1 };
        let sb = if b < j { b } else { b + 1 };
        assert(bag_keys(r)[a] == bag_keys(bag)[sa] && bag_keys(r)[b] == bag_keys(bag)[sb]);
    }
    if exists|i: int| 0 <= i < r.len() && (#[trigger] r[i]).0 == q {
        let i = choose|i: int| 0 <= i < r.len() && (#[trigger] r[i]).0 == q;
        let si = if i < j { i } else { i + 1 };
        assert(r[i] == bag[si]);
        lemma_lookup_at(r, i);
        lemma_lookup_at(bag, si);
        assert(bag_keys(bag)[si] != bag_keys(bag)[j]);
    } else {
        if q != bag[j].0 && exists|i: int| 0 <= i < bag.len() && (#[trigger] bag[i]).0 == q {
            let i = choose|i: int| 0 <= i < bag.len() && (#[trigger] bag[i]).0 == q;
            let ri = if i < j { i } else { i - 1 };
            assert(r[ri] == bag[i]);
        }
    }
}

/// With distinct names, saving puts member `i`'s value at index `i`, under its name.
pub proof fn lemma_saved_bag_distinct(keys: Seq<Seq<char>>, values: Seq<Seq<char>>)
    requires
        keys.no_duplicates(),
        values.len() == keys.len(),
    ensures
        saved_bag(keys, values).len() == keys.len(),
        bag_keys(saved_bag(keys, values)) == keys,
        forall|i: int|
            0 <= i < keys.len() ==> #[trigger] saved_bag(keys, values)[i] == (keys[i], ron_value_of(values[i])->0),
    decreases keys.len(),
{
    if keys.len() > 0 {
        let n = keys.len() - 1;
        let pk = keys.take(n);
        let pv = values.take(n);
        assert(pk.no_duplicates()) by {
            assert forall|a: int, b: int| 0 <= a < pk.len() && 0 <= b < pk.len() && a != b implies pk[a] != pk[b] by {
                assert(pk[a] == keys[a] && pk[b] == keys[b]);
            }
        }
        lemma_saved_bag_distinct(pk, pv);
        let prev = saved_bag(pk, pv);
        assert(!(exists|i: int| 0 <= i < prev.len() && (#[trigger] prev[i]).0 == keys[n])) by {
            if exists|i: int| 0 <= i < prev.len() && (#[trigger] prev[i]).0 == keys[n] {
                let i = choose|i: int| 0 <= i < prev.len() && (#[trigger] prev[i]).0 == keys[n];
                assert(prev[i].0 == bag_keys(prev)[i]);
                assert(keys[i] == keys[n]);
            }
        }
        assert(saved_bag(keys, values) == prev.push((keys[n], ron_value_of(values[n])->0)));
        assert(bag_keys(saved_bag(keys, values)) =~= keys) by {
            assert forall|i: int| 0 <= i < keys.len() implies bag_keys(saved_bag(keys, values))[i] == keys[i] by {
                if i < n {
                    assert(bag_keys(prev)[i] == pk[i]);
                }
            }
        }
        assert forall|i: int| 0 <= i < keys.len() implies #[trigger] saved_bag(keys, values)[i] == (
        keys[i], ron_value_of(values[i])->0) by {
            if i < n {
                assert(prev[i] == (pk[i], ron_value_of(pv[i])->0));
            }
        }
    }
}

/// Builds the text of a group file from its members (each name with its snapshot),
/// in member order. The first member that is missing, could not be written, or
/// whose text does not parse back decides the error, and then no text is produced
/// at all. Otherwise the text is what `ron` writes for the bag of all members, with
/// lines ending in `new_line`.
pub fn save_group_bag(members: &Vec<(String, MemberSnapshot)>, new_line: &str) -> (r: Result<String, SaveError>)
    ensures
        r is Ok ==> forall|i: int| 0 <= i < members@.len() ==> snapshot_usable(#[trigger] members@[i].1),
        forall|i: int|
            0 <= i < members@.len() && !snapshot_usable(#[trigger] members@[i].1) && (forall|j: int|
                0 <= j < i ==> snapshot_usable(members@[j].1)) ==> member_save_failure(members@[i].0, members@[i].1, r),
        (forall|i: int| 0 <= i < members@.len() ==> snapshot_usable(#[trigger] members@[i].1)) ==> {
            let bag = saved_bag(keys_of(members@), snapshot_texts(members@));
            &&& r is Ok <==> ron_bag_text(bag, new_line@) is Some
            &&& r matches Ok(t) ==> ron_bag_text(bag, new_line@) == Some(t@)
            &&& r is Err ==> (r matches Err(SaveError::Serialize { resource_type, .. }) && resource_type@
                == bag_type_name())
        },
{
    let mut bag: Vec<(String, ron::Value)> = Vec::new();
    let n = members.len();
    let ghost ks = keys_of(members@);
    let ghost ts = snapshot_texts(members@);
    for i in 0..n
        invariant
            n == members@.len(),
            ks == keys_of(members@),
            ts == snapshot_texts(members@),
            forall|j: int| 0 <= j < i ==> snapshot_usable(#[trigger] members@[j].1),
            keys_of(bag@).no_duplicates(),
            bag_view(bag@) == saved_bag(ks.take(i as int), ts.take(i as int)),
    {
        let key = &members[i].0;
        match &members[i].1 {
            MemberSnapshot::Missing => {
                return Err(SaveError::ResourceMissing(key.clone()));
            },
            MemberSnapshot::Unwritable(m) => {
                return Err(SaveError::Serialize { resource_type: key.clone(), message: m.clone() });
            },
            MemberSnapshot::Written(text) => {
                match parse_ron_value(text.as_str()) {
                    Err(e) => {
                        let mut msg = String::from_str("re-parsing RON produced for `");
                        msg.append(key.as_str());
                        msg.append("` failed: ");
                        let detail = spanned_error_text(&e);
                        msg.append(detail.as_str());
                        assert(msg@ == reparse_failure_text(key@, detail@));
                        return Err(SaveError::Internal(msg));
                    },
                    Ok(value) => {
                        let ghost before = bag_view(bag@);
                        let ghost before_keys = keys_of(bag@);
                        proof {
                            assert(ks.take(i + 1).take(i as int) =~= ks.take(i as int));
                            assert(ts.take(i + 1).take(i as int) =~= ts.take(i as int));
                            assert(ks.take(i + 1)[i as int] == key@);
                            assert(ts.take(i + 1)[i as int] == text@);
                            lemma_bag_keys_view(bag@);
                        }
                        match find_key(&bag, key) {
                            Some(j) => {
                                proof {
                                    lemma_lookup_at(before, j as int);
                                }
                                bag.set(j, (key.clone(), value));
                                proof {
                                    assert(bag_view(bag@) =~= before.update(j as int, (key@, value)));
                                    assert(keys_of(bag@) =~= before_keys);
                                }
                            },
                            None => {
                                proof {
                                    assert forall|q: int| 0 <= q < before.len() implies (#[trigger] before[q]).0
                                        != key@ by {
                                        assert(keys_of(bag@)[q] == before[q].0);
                                    }
                                }
                                bag.push((key.clone(), value));
                                proof {
                                    assert(bag_view(bag@) =~= before.push((key@, value)));
                                    assert(keys_of(bag@) =~= before_keys.push(key@));
                                }
                            },
                        }
                    },
                }
            },
        }
    }
    proof {
        assert(ks.take(n as int) =~= ks);
        assert(ts.take(n as int) =~= ts);
    }
    match ron_bag_to_string(&bag, new_line) {
        Ok(text) => Ok(text),
        Err(e) => Err(
            SaveError::Serialize {
                resource_type: String::from_str("SaveBag"),
                message: ron_error_text(&e),
            },
        ),
    }
}

/// Reads a group file: for each member, in order, the value stored under its
/// name, or `None` where the file has no such entry. A file that does not exist
/// reads as a file with no entries; any other failure to read it, bytes that are
/// not UTF-8, and text that is not a RON map are errors. A member listed twice
/// gets the stored value only the first time.
pub fn load_group_bag(members: &Vec<String>, path: &String, read: Result<Vec<u8>, IoFailure>) -> (r: Result<Vec<Option<ron::Value>>, SaveError>)
    ensures
        read matches Err(f) ==> (f.kind == IoErrorKind::NotFound ==> (r matches Ok(vs) && vs@ == loaded_values(
            texts(members@),
            Seq::empty(),
        ))),
        read matches Err(f) ==> (f.kind != IoErrorKind::NotFound ==> r == Err::<Vec<Option<ron::Value>>, SaveError>(
            SaveError::Io { path: *path, kind: f.kind, message: f.message },
        )),
        read matches Ok(bytes) ==> (!vstd::utf8::valid_utf8(bytes@) ==> r matches Err(SaveError::InvalidUtf8(_))),
        read matches Ok(bytes) ==> (vstd::utf8::valid_utf8(bytes@) && ron_bag_entries(vstd::utf8::decode_utf8(bytes@)) is None
            ==> r matches Err(SaveError::Deserialize(_))),
        read matches Ok(bytes) ==> (vstd::utf8::valid_utf8(bytes@) && ron_bag_entries(vstd::utf8::decode_utf8(bytes@)) is Some
            ==> (r matches Ok(vs) && vs@ == loaded_values(
            texts(members@),
            ron_bag_entries(vstd::utf8::decode_utf8(bytes@))->0,
        ))),
{
    let n = members.len();
    let ghost ms = texts(members@);
    let bytes = match read {
        Ok(bytes) => bytes,
        Err(f) => {
            if f.kind == IoErrorKind::NotFound {
                let mut vs: Vec<Option<ron::Value>> = Vec::new();
                for i in 0..n
                    invariant
                        n == members@.len(),
                        ms == texts(members@),
                        vs@ == loaded_values(ms, Seq::empty()).take(i as int),
                {
                    vs.push(None);
                    proof {
                        assert(vs@ =~= loaded_values(ms, Seq::empty()).take(i + 1));
                    }
                }
                proof {
                    assert(vs@ =~= loaded_values(ms, Seq::empty()));
                }
                return Ok(vs);
            }
            return Err(SaveError::io(path, &f));
        },
    };
    let text = match string_from_utf8(bytes) {
        Ok(text) => text,
        Err(e) => {
            return Err(SaveError::InvalidUtf8(utf8_error_text(&e)));
        },
    };
    let mut bag = match parse_ron_bag(text.as_str()) {
        Ok(entries) => entries,
        Err(e) => {
            return Err(SaveError::Deserialize(spanned_error_text(&e)));
        },
    };
    let ghost orig = ron_bag_entries(text@)->0;
    proof {
        lemma_bag_keys_view(bag@);
    }
    let mut vs: Vec<Option<ron::Value>> = Vec::new();
    for i in 0..n
        invariant
            n == members@.len(),
            ms == texts(members@),
            bag_keys(bag_view(bag@)).no_duplicates(),
            forall|q: Seq<char>| #[trigger] bag_lookup(bag_view(bag@), q) == if ms.take(i as int).contains(q) {
                None
            } else {
                bag_lookup(orig, q)
            },
            vs@ == loaded_values(ms, orig).take(i as int),
    {
        let ghost before = bag_view(bag@);
        let ghost k = ms[i as int];
        proof {
            assert(k == members@[i as int]@);
            assert(ms.take(i as int) =~= ms.subrange(0, i as int));
            let pre = ms.take(i as int);
            let post = ms.take(i + 1);
            assert(post =~= pre.push(k));
            assert forall|q: Seq<char>| post.contains(q) <==> (pre.contains(q) || q == k) by {
                if post.contains(q) {
                    let w = choose|w: int| 0 <= w < post.len() && #[trigger] post[w] == q;
                    if w < i {
                        assert(pre[w] == q);
                    }
                }
                if pre.contains(q) {
                    let w = choose|w: int| 0 <= w < pre.len() && #[trigger] pre[w] == q;
                    assert(post[w] == q);
                }
                if q == k {
                    assert(post[i as int] == q);
                }
            }
            lemma_bag_keys_view(bag@);
        }
        match find_key(&bag, &members[i]) {
            Some(j) => {
                proof {
                    assert(before[j as int].0 == k);
                    lemma_lookup_at(before, j as int);
                    assert(bag_lookup(before, k) == Some(before[j as int].1));
                }
                let (_, value) = bag.remove(j);
                vs.push(Some(value));
                proof {
                    assert(bag_view(bag@) =~= before.remove(j as int));
                    assert forall|q: Seq<char>| #[trigger] bag_lookup(bag_view(bag@), q) == if ms.take(i + 1).contains(q) {
                        None
                    } else {
                        bag_lookup(orig, q)
                    } by {
                        lemma_lookup_remove(before, j as int, q);
                    }
                    lemma_lookup_remove(before, j as int, k);
                }
            },
            None => {
                proof {
                    assert(!(exists|x: int| 0 <= x < before.len() && (#[trigger] before[x]).0 == k)) by {
                        if exists|x: int| 0 <= x < before.len() && (#[trigger] before[x]).0 == k {
                            let x = choose|x: int| 0 <= x < before.len() && (#[trigger] before[x]).0 == k;
                            assert(keys_of(bag@)[x] == k);
                        }
                    }
                    assert(bag_lookup(before, k) is None);
                }
                vs.push(None);
            },
        }
        proof {
            assert(vs@ =~= loaded_values(ms, orig).take(i + 1));
        }
    }
    proof {
        assert(vs@ =~= loaded_values(ms, orig));
    }
    Ok(vs)
}

} // verus!
