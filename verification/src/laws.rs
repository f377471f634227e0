use vstd::prelude::*;

use crate::group::{
    Bag, bag_keys, bag_lookup, first_occurrence, lemma_lookup_at, lemma_saved_bag_distinct,
    loaded_values, saved_bag,
};
use crate::ron_codec::{ron_bag_entries, ron_bag_text, ron_value_of, ron_value_parses};
use crate::location::{PathStyle, has_parent_component, is_valid_sub_path, parent_component_at, is_verbatim, joined, without_trailing_backslashes};
use crate::registry::RegistryView;
use crate::save_attribute::{DeriveError, SaveAttributeEntry, entry_ok, timing_result};
use crate::timing::SaveTiming;

verus! {

/// A save file resolved from a directory and an accepted sub path lies under that
/// directory: the path starts with the directory and ends with the sub path, which
/// holds no `..` component. (A verbatim Windows directory is rewritten by the join;
/// see the next law.)
pub proof fn law_resolved_path_stays_under_base(style: PathStyle, base: Seq<char>, sub: Seq<char>)
    requires
        is_valid_sub_path(style, sub),
        !is_verbatim(style, base),
    ensures
        base.is_prefix_of(joined(style, base, sub)),
        joined(style, base, sub).subrange(
            joined(style, base, sub).len() - sub.len(),
            joined(style, base, sub).len() as int,
        ) == sub,
{
    let j = joined(style, base, sub);
    assert(j.subrange(j.len() - sub.len(), j.len() as int) =~= sub);
    assert(forall|i: int| 0 <= i < base.len() ==> j[i] == base[i]);
}

/// Dropping trailing backslashes leaves a prefix of the path.
proof fn lemma_without_trailing_backslashes_is_prefix(b: Seq<char>)
    ensures
        without_trailing_backslashes(b).is_prefix_of(b),
    decreases b.len(),
{
    if b.len() > 0 && b.last() == '\\' {
        lemma_without_trailing_backslashes_is_prefix(b.drop_last());
        let w = without_trailing_backslashes(b.drop_last());
        assert(forall|i: int| 0 <= i < w.len() ==> w[i] == b.drop_last()[i]);
    }
}

/// Joining to a verbatim Windows directory (`\\?\...`) keeps that directory, up to
/// its trailing backslashes, at the start of the result.
pub proof fn law_verbatim_join_keeps_base(style: PathStyle, base: Seq<char>, sub: Seq<char>)
    requires
        is_verbatim(style, base),
    ensures
        without_trailing_backslashes(base).is_prefix_of(base),
        without_trailing_backslashes(base).is_prefix_of(joined(style, base, sub)),
{
    lemma_without_trailing_backslashes_is_prefix(base);
    let w = without_trailing_backslashes(base);
    let j = joined(style, base, sub);
    assert(forall|i: int| 0 <= i < w.len() ==> j[i] == w[i]);
}

/// Registering a resource again replaces its save path: the latest registration wins.
pub proof fn law_latest_save_path_wins(v: RegistryView, resource: Seq<char>, first: Seq<char>, second: Seq<char>)
    ensures
        v.with_save_path(resource, first).with_save_path(resource, second) == v.with_save_path(resource, second),
        v.with_save_path(resource, first).with_save_path(resource, second).save_paths[resource] == second,
{
    assert(v.with_save_path(resource, first).with_save_path(resource, second).save_paths
        =~= v.with_save_path(resource, second).save_paths);
}

/// The automatic save of a resource is installed at most once, however often the
/// resource is registered: no two successive registrations both need it.
pub proof fn law_auto_save_installed_once(v: RegistryView, resource: Seq<char>, first: SaveTiming, second: SaveTiming)
    ensures
        !(v.auto_save_needed(resource, first) && v.with_timing(resource, first).auto_save_needed(resource, second)),
{
}

/// A resource registered with `Manual` timing never gets an automatic save, and
/// registering it changes nothing about automatic saves.
pub proof fn law_manual_never_auto_saves(v: RegistryView, resource: Seq<char>)
    ensures
        !v.auto_save_needed(resource, SaveTiming::Manual),
        v.with_timing(resource, SaveTiming::Manual) == v,
{
}

/// Once a resource saves automatically, it keeps doing so through any later registration.
pub proof fn law_auto_save_stays(v: RegistryView, resource: Seq<char>, other: Seq<char>, timing: SaveTiming)
    requires
        v.auto_saved.contains(resource),
    ensures
        v.with_timing(other, timing).auto_saved.contains(resource),
{
}

/// Registering the same member of a group twice is the same as registering it once.
pub proof fn law_member_registration_idempotent(v: RegistryView, group: Seq<char>, member: Seq<char>)
    ensures
        v.with_member(group, member).with_member(group, member) == v.with_member(group, member),
{
    let w = v.with_member(group, member);
    assert(w.members(group).contains(member)) by {
        let ms = v.members(group);
        if !ms.contains(member) {
            assert(ms.push(member)[ms.len() as int] == member);
        }
    }
    assert(w.with_member(group, member).groups =~= w.groups);
}

/// Registering a member keeps the group's earlier members, in their order, and the
/// member is in the group afterwards.
pub proof fn law_member_registration_keeps_order(v: RegistryView, group: Seq<char>, member: Seq<char>)
    ensures
        v.members(group).is_prefix_of(v.with_member(group, member).members(group)),
        v.with_member(group, member).members(group).contains(member),
{
    let ms = v.members(group);
    if !ms.contains(member) {
        assert(ms.push(member)[ms.len() as int] == member);
    }
}

/// Registering a member of one group leaves every other group as it was.
pub proof fn law_other_groups_untouched(v: RegistryView, group: Seq<char>, member: Seq<char>, other: Seq<char>)
    requires
        other != group,
    ensures
        v.with_member(group, member).members(other) == v.members(other),
{
}

/// No group ever lists a member twice.
pub proof fn law_members_stay_distinct(v: RegistryView, group: Seq<char>, member: Seq<char>)
    requires
        v.groups_distinct(),
    ensures
        v.with_member(group, member).groups_distinct(),
{
    let w = v.with_member(group, member);
    assert forall|g: Seq<char>| #[trigger] w.groups.contains_key(g) implies w.groups[g].no_duplicates() by {
        if g == group {
            let ms = v.members(group);
            if !ms.contains(member) {
                assert forall|a: int, b: int| 0 <= a < ms.push(member).len() && 0 <= b < ms.push(member).len() && a
                    != b implies ms.push(member)[a] != ms.push(member)[b] by {
                    if a == ms.len() {
                        assert(ms[b] == ms.push(member)[b]);
                    } else if b == ms.len() {
                        assert(ms[a] == ms.push(member)[a]);
                    }
                }
            }
        }
    }
}

/// In a list without repeats (as every group's members are), each entry occurs
/// for the first time where it stands; so loading a registered group gives a
/// member the stored value exactly when the file holds the member's name.
pub proof fn law_distinct_members_first_occurrence(members: Seq<Seq<char>>, i: int)
    requires
        members.no_duplicates(),
        0 <= i < members.len(),
    ensures
        first_occurrence(members, i),
{
    if members.subrange(0, i).contains(members[i]) {
        let j = choose|j: int| 0 <= j < i && members.subrange(0, i)[j] == members[i];
        assert(members[j] == members[i]);
    }
}

/// Saving a group and then loading the file it wrote gives every member back the
/// value saved for it, provided `ron` reads the map it wrote back as the same map
/// (the same value under every name). The bytes written are the text's UTF-8,
/// which load decodes back to the text.
pub proof fn law_group_round_trip(members: Seq<Seq<char>>, values: Seq<Seq<char>>, new_line: Seq<char>, file: Seq<char>)
    requires
        members.no_duplicates(),
        values.len() == members.len(),
        forall|i: int| 0 <= i < values.len() ==> ron_value_parses(#[trigger] values[i]),
        ron_bag_text(saved_bag(members, values), new_line) == Some(file),
        ron_bag_entries(file) is Some,
        forall|k: Seq<char>|
            #[trigger] bag_lookup(ron_bag_entries(file)->0, k) == bag_lookup(saved_bag(members, values), k),
    ensures
        vstd::utf8::valid_utf8(vstd::utf8::encode_utf8(file)),
        vstd::utf8::decode_utf8(vstd::utf8::encode_utf8(file)) == file,
        loaded_values(members, ron_bag_entries(file)->0) == values.map_values(|t: Seq<char>| ron_value_of(t)),
{
    vstd::utf8::encode_utf8_valid_utf8(file);
    vstd::utf8::encode_utf8_decode_utf8(file);
    lemma_saved_bag_distinct(members, values);
    let bag = saved_bag(members, values);
    let got = loaded_values(members, ron_bag_entries(file)->0);
    assert forall|i: int| 0 <= i < members.len() implies #[trigger] got[i] == ron_value_of(values[i]) by {
        law_distinct_members_first_occurrence(members, i);
        lemma_lookup_at(bag, i);
        assert(bag[i] == (members[i], ron_value_of(values[i])->0));
        assert(bag_lookup(ron_bag_entries(file)->0, members[i]) == bag_lookup(bag, members[i]));
    }
    assert(got =~= values.map_values(|t: Seq<char>| ron_value_of(t)));
}


/// A sub path is accepted exactly when it does not start at a root (`/`, and on
/// Windows `\`), does not start with a Windows drive (`X:`), and none of its whole
/// components is `..`, wherever in the path that component stands: read character
/// by character, a `..` with a separator or the start of the path before it and a
/// separator or the end of the path after it is refused.
pub proof fn law_sub_path_validity_by_characters(style: PathStyle, p: Seq<char>)
    ensures
        is_valid_sub_path(style, p) <==> {
            &&& !(p.len() > 0 && (p[0] == '/' || (style == PathStyle::Windows && p[0] == '\\')))
            &&& !(style == PathStyle::Windows && p.len() >= 2 && (('a' <= p[0] && p[0] <= 'z') || ('A' <= p[0]
                && p[0] <= 'Z')) && p[1] == ':')
            &&& forall|i: int| #![trigger p[i]]
                !(0 <= i && i + 2 <= p.len() && p[i] == '.' && p[i + 1] == '.' && (i == 0 || p[i - 1] == '/'
                    || (style == PathStyle::Windows && p[i - 1] == '\\')) && (i + 2 == p.len() || p[i + 2] == '/'
                    || (style == PathStyle::Windows && p[i + 2] == '\\')))
        },
{
    if has_parent_component(style, p) {
        let i = choose|i: int| parent_component_at(style, p, i);
        assert(parent_component_at(style, p, i));
        assert(p[i] == '.');
    } else {
        assert forall|i: int| #![trigger p[i]]
            !(0 <= i && i + 2 <= p.len() && p[i] == '.' && p[i + 1] == '.' && (i == 0 || p[i - 1] == '/' || (style
                == PathStyle::Windows && p[i - 1] == '\\')) && (i + 2 == p.len() || p[i + 2] == '/' || (style
                == PathStyle::Windows && p[i + 2] == '\\'))) by {
            if 0 <= i && i + 2 <= p.len() && p[i] == '.' && p[i + 1] == '.' && (i == 0 || p[i - 1] == '/' || (style
                == PathStyle::Windows && p[i - 1] == '\\')) && (i + 2 == p.len() || p[i + 2] == '/' || (style
                == PathStyle::Windows && p[i + 2] == '\\')) {
                assert(parent_component_at(style, p, i));
            }
        }
    }
}

/// Loading gives a member, at its first listing, the value that the file stores
/// under that member's name, and nothing at a later listing. What the file holds
/// under names that are not members plays no part: two files that agree on every
/// member's entry load the same values.
pub proof fn law_load_reads_each_members_own_entry(members: Seq<Seq<char>>, file: Bag, other: Bag)
    requires
        forall|m: Seq<char>| #[trigger] members.contains(m) ==> bag_lookup(file, m) == bag_lookup(other, m),
    ensures
        loaded_values(members, file).len() == members.len(),
        forall|i: int| 0 <= i < members.len() && !members.subrange(0, i).contains(members[i])
            ==> #[trigger] loaded_values(members, file)[i] == bag_lookup(file, members[i]),
        forall|i: int| 0 <= i < members.len() && members.subrange(0, i).contains(members[i])
            ==> #[trigger] loaded_values(members, file)[i] is None,
        loaded_values(members, file) == loaded_values(members, other),
{
    assert forall|i: int| 0 <= i < members.len() implies #[trigger] loaded_values(members, file)[i]
        == loaded_values(members, other)[i] by {
        assert(members.contains(members[i]));
    }
    assert(loaded_values(members, file) =~= loaded_values(members, other));
}

/// `#[save(...)]` is refused at its first entry that is not `timing = value`,
/// wherever that entry stands and whatever came before it: an entry with another
/// key gives `UnsupportedKey` with that key, and a `timing` entry without a value
/// gives `MalformedValue`.
pub proof fn law_save_attribute_refuses_first_bad_entry(entries: Seq<SaveAttributeEntry>, i: int)
    requires
        0 <= i < entries.len(),
        !(entries[i].key@ == "timing"@ && entries[i].value is Some),
        forall|j: int| 0 <= j < i ==> (#[trigger] entries[j]).key@ == "timing"@ && entries[j].value is Some,
    ensures
        timing_result(entries) is Err,
        entries[i].key@ != "timing"@ ==> timing_result(entries) == Err::<SaveTiming, DeriveError>(
            DeriveError::UnsupportedKey(entries[i].key),
        ),
        entries[i].key@ == "timing"@ ==> timing_result(entries) == Err::<SaveTiming, DeriveError>(
            DeriveError::MalformedValue,
        ),
{
    assert(!entry_ok(entries[i]));
    let c = choose|c: int|
        0 <= c < entries.len() && !entry_ok(#[trigger] entries[c]) && forall|j: int|
            0 <= j < c ==> entry_ok(#[trigger] entries[j]);
    assert(exists|c: int|
        0 <= c < entries.len() && !entry_ok(#[trigger] entries[c]) && forall|j: int|
            0 <= j < c ==> entry_ok(#[trigger] entries[j])) by {
        assert forall|j: int| 0 <= j < i implies entry_ok(#[trigger] entries[j]) by {
            assert(entries[j].key@ == "timing"@);
        }
    }
    if c < i {
        assert(entries[c].key@ == "timing"@ && entries[c].value is Some);
    }
    if c > i {
        assert(entry_ok(entries[i]));
    }
    assert(c == i);
}

/// When every entry of `#[save(...)]` is `timing = value`, the last one decides:
/// `auto` and `manual` give their timing, any other value is refused with that
/// value, and an attribute with no entry at all lacks its timing.
pub proof fn law_save_attribute_last_timing_decides(entries: Seq<SaveAttributeEntry>)
    requires
        forall|j: int| 0 <= j < entries.len() ==> (#[trigger] entries[j]).key@ == "timing"@ && entries[j].value is Some,
    ensures
        entries.len() == 0 ==> timing_result(entries) == Err::<SaveTiming, DeriveError>(DeriveError::MissingTiming),
        entries.len() > 0 && entries.last().value->0@ == "auto"@ ==> timing_result(entries) == Ok::<
            SaveTiming,
            DeriveError,
        >(SaveTiming::Auto),
        entries.len() > 0 && entries.last().value->0@ == "manual"@ ==> timing_result(entries) == Ok::<
            SaveTiming,
            DeriveError,
        >(SaveTiming::Manual),
        entries.len() > 0 && entries.last().value->0@ != "auto"@ && entries.last().value->0@ != "manual"@
            ==> timing_result(entries) == Err::<SaveTiming, DeriveError>(
            DeriveError::UnknownTiming(entries.last().value->0),
        ),
{
    assert forall|j: int| 0 <= j < entries.len() implies entry_ok(#[trigger] entries[j]) by {
        assert(entries[j].key@ == "timing"@);
    }
    reveal_strlit("auto");
    reveal_strlit("manual");
    assert("manual"@[0] != "auto"@[0]);
}

/// A group file that does not exist, read as a file with no entries, gives no
/// member a value.
pub proof fn law_empty_file_loads_nothing(members: Seq<Seq<char>>)
    ensures
        loaded_values(members, Seq::empty()).len() == members.len(),
        forall|i: int| 0 <= i < members.len() ==> #[trigger] loaded_values(members, Seq::empty())[i] is None,
{
}

/// Registering with `Auto` a resource whose automatic save is not installed yet
/// always installs it, whatever else is registered and however many other
/// resources already save automatically; nothing else is added.
pub proof fn law_auto_registration_installs_own_save(v: RegistryView, resource: Seq<char>)
    requires
        !v.auto_saved.contains(resource),
    ensures
        v.auto_save_needed(resource, SaveTiming::Auto),
        v.with_timing(resource, SaveTiming::Auto).auto_saved == v.auto_saved.insert(resource),
        v.with_timing(resource, SaveTiming::Auto).save_paths == v.save_paths,
        v.with_timing(resource, SaveTiming::Auto).groups == v.groups,
{
}

} // verus!
