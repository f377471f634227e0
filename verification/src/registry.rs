use vstd::prelude::*;

use crate::error::SaveError;
use crate::resource::{LoadAction, fallback_action};
use crate::timing::SaveTiming;

verus! {

/// The keys of an association list, by their text.
pub open spec fn keys_of<V>(entries: Seq<(String, V)>) -> Seq<Seq<char>> {
    entries.map_values(|e: (String, V)| e.0@)
}

/// The text of each string in a sequence.
pub open spec fn texts(s: Seq<String>) -> Seq<Seq<char>> {
    s.map_values(|x: String| x@)
}

/// What the registry records, by the text of each type and group name.
pub struct RegistryView {
    /// The file each registered resource is saved to.
    pub save_paths: Map<Seq<char>, Seq<char>>,
    /// The resources whose automatic save has been installed.
    pub auto_saved: Set<Seq<char>>,
    /// The members of each group, in the order they were registered.
    pub groups: Map<Seq<char>, Seq<Seq<char>>>,
}

impl RegistryView {
    /// The empty registry.
    pub open spec fn empty() -> RegistryView {
        RegistryView { save_paths: Map::empty(), auto_saved: Set::empty(), groups: Map::empty() }
    }

    /// The registry after `resource` was told to save to `path`.
    pub open spec fn with_save_path(self, resource: Seq<char>, path: Seq<char>) -> RegistryView {
        RegistryView { save_paths: self.save_paths.insert(resource, path), ..self }
    }

    /// Whether registering `resource` with `timing` must install its automatic save.
    pub open spec fn auto_save_needed(self, resource: Seq<char>, timing: SaveTiming) -> bool {
        timing == SaveTiming::Auto && !self.auto_saved.contains(resource)
    }

    /// The registry after `resource` was registered with `timing`.
    pub open spec fn with_timing(self, resource: Seq<char>, timing: SaveTiming) -> RegistryView {
        if self.auto_save_needed(resource, timing) {
            RegistryView { auto_saved: self.auto_saved.insert(resource), ..self }
        } else {
            self
        }
    }

    /// The members of `group`; a group nobody registered to has none.
    pub open spec fn members(self, group: Seq<char>) -> Seq<Seq<char>> {
        if self.groups.contains_key(group) {
            self.groups[group]
        } else {
            Seq::empty()
        }
    }

    /// The registry after `member` was added to `group`: the group is created if
    /// needed, and a member that is already there is not added twice.
    pub open spec fn with_member(self, group: Seq<char>, member: Seq<char>) -> RegistryView {
        let ms = self.members(group);
        RegistryView {
            groups: self.groups.insert(
                group,
                if ms.contains(member) {
                    ms
                } else {
                    ms.push(member)
                },
            ),
            ..self
        }
    }

    /// Every group lists each member once.
    pub open spec fn groups_distinct(self) -> bool {
        forall|g: Seq<char>| #[trigger] self.groups.contains_key(g) ==> self.groups[g].no_duplicates()
    }
}

/// The bookkeeping that registrations leave behind: where each resource is saved,
/// which resources save automatically, and which resources each group holds.
pub struct SaveRegistry {
    save_paths: Vec<(String, String)>,
    auto_saved: Vec<String>,
    groups: Vec<(String, Vec<String>)>,
}

/// The map that an association list with distinct keys stands for.
pub open spec fn assoc<V, W>(entries: Seq<(String, V)>, f: spec_fn(V) -> W) -> Map<Seq<char>, W> {
    Map::new(
        |k: Seq<char>| keys_of(entries).contains(k),
        |k: Seq<char>| f(entries[keys_of(entries).index_of(k)].1),
    )
}

proof fn lemma_index_of_distinct(s: Seq<Seq<char>>, i: int)
    requires
        s.no_duplicates(),
        0 <= i < s.len(),
    ensures
        s.contains(s[i]),
        s.index_of(s[i]) == i,
{
    assert(s[i] == s[i]);
    let j = s.index_of(s[i]);
    assert(0 <= j < s.len() && s[j] == s[i]);
}

impl View for SaveRegistry {
    type V = RegistryView;

    closed spec fn view(&self) -> RegistryView {
        RegistryView {
            save_paths: assoc(self.save_paths@, |p: String| p@),
            auto_saved: texts(self.auto_saved@).to_set(),
            groups: assoc(self.groups@, |ms: Vec<String>| texts(ms@)),
        }
    }
}

/// The index of `key` among the keys of `entries`.
pub(crate) fn find_key<V>(entries: &Vec<(String, V)>, key: &String) -> (r: Option<usize>)
    ensures
        r matches Some(i) ==> i < entries@.len() && entries@[i as int].0@ == key@,
        r is None ==> !keys_of(entries@).contains(key@),
{
    let mut i: usize = 0;
    while i < entries.len()
        invariant
            i <= entries@.len(),
            forall|j: int| 0 <= j < i ==> entries@[j].0@ != key@,
        decreases entries@.len() - i,
    {
        if entries[i].0 == *key {
            return Some(i);
        }
        i = i + 1;
    }
    proof {
        if keys_of(entries@).contains(key@) {
            let j = choose|j: int| 0 <= j < keys_of(entries@).len() && keys_of(entries@)[j] == key@;
            assert(entries@[j].0@ == key@);
        }
    }
    None
}

/// Whether `key` is among `items`.
fn contains_text(items: &Vec<String>, key: &String) -> (found: bool)
    ensures
        found == texts(items@).contains(key@),
{
    let mut i: usize = 0;
    while i < items.len()
        invariant
            i <= items@.len(),
            forall|j: int| 0 <= j < i ==> items@[j]@ != key@,
        decreases items@.len() - i,
    {
        if items[i] == *key {
            assert(texts(items@)[i as int] == key@);
            return true;
        }
        i = i + 1;
    }
    proof {
        if texts(items@).contains(key@) {
            let j = choose|j: int| 0 <= j < texts(items@).len() && texts(items@)[j] == key@;
            assert(items@[j]@ == key@);
        }
    }
    false
}

impl SaveRegistry {
    #[verifier::type_invariant]
    spec fn well_formed(self) -> bool {
        &&& keys_of(self.save_paths@).no_duplicates()
        &&& texts(self.auto_saved@).no_duplicates()
        &&& keys_of(self.groups@).no_duplicates()
        &&& forall|i: int| 0 <= i < self.groups@.len() ==> texts(#[trigger] self.groups@[i].1@).no_duplicates()
    }

    /// A registry that records nothing yet.
    pub fn new() -> (r: SaveRegistry)
        ensures
            r@ == RegistryView::empty(),
    {
        let r = SaveRegistry { save_paths: Vec::new(), auto_saved: Vec::new(), groups: Vec::new() };
        assert(r@.save_paths =~= Map::empty());
        assert(r@.auto_saved =~= Set::empty());
        assert(r@.groups =~= Map::empty());
        r
    }

    /// Records that `resource` is saved to `path`; a later registration of the same
    /// resource replaces the earlier path.
    pub fn set_save_path(&mut self, resource: String, path: String)
        ensures
            final(self)@ == old(self)@.with_save_path(resource@, path@),
    {
        proof {
            use_type_invariant(&*self);
        }
        let mut entries: Vec<(String, String)> = Vec::new();
        std::mem::swap(&mut entries, &mut self.save_paths);
        let ghost old_entries = entries@;
        let ghost k = resource@;
        let ghost pv = path@;
        let ghost f = |p: String| p@;
        match find_key(&entries, &resource) {
            Some(i) => {
                entries.set(i, (resource, path));
                proof {
                    let new_entries = entries@;
                    assert(keys_of(new_entries) =~= keys_of(old_entries));
                    lemma_index_of_distinct(keys_of(new_entries), i as int);
                    assert forall|q: Seq<char>| #[trigger] keys_of(old_entries).contains(q) && q != k implies
                        keys_of(new_entries).index_of(q) != i as int by {
                        let j = keys_of(old_entries).index_of(q);
                        assert(keys_of(old_entries)[j] == q);
                    }
                    assert(assoc(new_entries, f) =~= assoc(old_entries, f).insert(k, pv));
                }
            },
            None => {
                entries.push((resource, path));
                proof {
                    let new_entries = entries@;
                    assert(keys_of(new_entries) =~= keys_of(old_entries).push(k));
                    lemma_index_of_distinct(keys_of(new_entries), old_entries.len() as int);
                    assert forall|q: Seq<char>| #[trigger] keys_of(old_entries).contains(q) implies
                        keys_of(new_entries).index_of(q) == keys_of(old_entries).index_of(q) by {
                        let j = keys_of(old_entries).index_of(q);
                        lemma_index_of_distinct(keys_of(new_entries), j);
                    }
                    assert forall|q: Seq<char>| #[trigger] keys_of(new_entries).contains(q) implies
                        keys_of(old_entries).contains(q) || q == k by {
                        let j = keys_of(new_entries).index_of(q);
                        if j < old_entries.len() {
                            assert(keys_of(old_entries)[j] == q);
                        }
                    }
                    assert forall|q: Seq<char>| #[trigger] keys_of(old_entries).contains(q) implies
                        keys_of(new_entries).contains(q) by {
                        let j = keys_of(old_entries).index_of(q);
                        assert(keys_of(new_entries)[j] == q);
                    }
                    assert(assoc(new_entries, f) =~= assoc(old_entries, f).insert(k, pv));
                }
            },
        }
        self.save_paths = entries;
        proof {
            assert(self@.save_paths =~= old(self)@.save_paths.insert(k, pv));
        }
    }

    /// Records a registration of `resource` with `timing`, and says whether its
    /// automatic save must be installed now: only for `Auto`, and only the first time.
    pub fn claim_auto_save(&mut self, resource: &String, timing: SaveTiming) -> (needed: bool)
        ensures
            needed == old(self)@.auto_save_needed(resource@, timing),
            final(self)@ == old(self)@.with_timing(resource@, timing),
    {
        proof {
            use_type_invariant(&*self);
        }
        if timing != SaveTiming::Auto || contains_text(&self.auto_saved, resource) {
            return false;
        }
        let mut items: Vec<String> = Vec::new();
        std::mem::swap(&mut items, &mut self.auto_saved);
        let ghost old_items = items@;
        items.push(resource.clone());
        proof {
            assert(texts(items@) =~= texts(old_items) + seq![resource@]);
            Seq::lemma_to_set_insert_commutes(texts(old_items), resource@);
        }
        self.auto_saved = items;
        true
    }

    /// Registers `resource` to be saved to `path` with `timing`, once its file was
    /// loaded with outcome `loaded`: says what to do with the resource in the world,
    /// and whether its automatic save must be installed now.
    pub fn register_resource(
        &mut self,
        resource: String,
        path: String,
        timing: SaveTiming,
        loaded: Result<bool, SaveError>,
    ) -> (r: (LoadAction, bool))
        ensures
            loaded == Ok::<bool, SaveError>(true) ==> r.0 == LoadAction::Keep,
            loaded == Ok::<bool, SaveError>(false) ==> r.0 == LoadAction::InsertDefault,
            loaded matches Err(e) ==> r.0 == LoadAction::InsertDefaultAndReport(e),
            r.1 == old(self)@.auto_save_needed(resource@, timing),
            final(self)@ == old(self)@.with_save_path(resource@, path@).with_timing(resource@, timing),
    {
        let action = fallback_action(loaded);
        let key = resource.clone();
        self.set_save_path(resource, path);
        let install = self.claim_auto_save(&key, timing);
        (action, install)
    }

    /// The file that `resource` is saved to, if it was registered.
    pub fn save_path(&self, resource: &String) -> (r: Option<String>)
        ensures
            r is Some <==> self@.save_paths.contains_key(resource@),
            r matches Some(p) ==> p@ == self@.save_paths[resource@],
    {
        proof {
            use_type_invariant(self);
        }
        match find_key(&self.save_paths, resource) {
            Some(i) => {
                proof {
                    lemma_index_of_distinct(keys_of(self.save_paths@), i as int);
                }
                Some(self.save_paths[i].1.clone())
            },
            None => None,
        }
    }

    /// Adds `member` to `group`, creating the group if needed; says whether the
    /// member was new to it. A member registered twice is listed once.
    pub fn add_group_member(&mut self, group: &String, member: &String) -> (added: bool)
        ensures
            added == !old(self)@.members(group@).contains(member@),
            final(self)@ == old(self)@.with_member(group@, member@),
    {
        proof {
            use_type_invariant(&*self);
        }
        let mut entries: Vec<(String, Vec<String>)> = Vec::new();
        std::mem::swap(&mut entries, &mut self.groups);
        let ghost old_entries = entries@;
        let ghost g = group@;
        let ghost m = member@;
        let ghost f = |ms: Vec<String>| texts(ms@);
        let added;
        match find_key(&entries, group) {
            Some(i) => {
                proof {
                    lemma_index_of_distinct(keys_of(old_entries), i as int);
                }
                let mut ms = entries[i].1.clone();
                if contains_text(&ms, member) {
                    added = false;
                } else {
                    let ghost old_ms = ms@;
                    ms.push(member.clone());
                    proof {
                        assert(texts(ms@) =~= texts(old_ms).push(m));
                    }
                    entries.set(i, (group.clone(), ms));
                    added = true;
                }
                proof {
                    let new_entries = entries@;
                    assert(keys_of(new_entries) =~= keys_of(old_entries));
                    lemma_index_of_distinct(keys_of(new_entries), i as int);
                    assert forall|q: Seq<char>| #[trigger] keys_of(old_entries).contains(q) && q != g implies
                        keys_of(new_entries).index_of(q) != i as int by {
                        let j = keys_of(old_entries).index_of(q);
                        assert(keys_of(old_entries)[j] == q);
                    }
                    assert forall|j: int| 0 <= j < new_entries.len() implies texts(
                        #[trigger] new_entries[j].1@,
                    ).no_duplicates() by {
                        if j != i {
                            assert(new_entries[j] == old_entries[j]);
                        }
                    }
                    assert(assoc(new_entries, f) =~= assoc(old_entries, f).insert(
                        g,
                        if texts(old_entries[i as int].1@).contains(m) {
                            texts(old_entries[i as int].1@)
                        } else {
                            texts(old_entries[i as int].1@).push(m)
                        },
                    ));
                }
            },
            None => {
                let mut ms: Vec<String> = Vec::new();
                ms.push(member.clone());
                entries.push((group.clone(), ms));
                added = true;
                proof {
                    let new_entries = entries@;
                    assert(texts(ms@) =~= seq![m]);
                    assert(keys_of(new_entries) =~= keys_of(old_entries).push(g));
                    lemma_index_of_distinct(keys_of(new_entries), old_entries.len() as int);
                    assert forall|q: Seq<char>| #[trigger] keys_of(old_entries).contains(q) implies
                        keys_of(new_entries).index_of(q) == keys_of(old_entries).index_of(q) by {
                        let j = keys_of(old_entries).index_of(q);
                        lemma_index_of_distinct(keys_of(new_entries), j);
                    }
                    assert forall|q: Seq<char>| #[trigger] keys_of(new_entries).contains(q) implies
                        keys_of(old_entries).contains(q) || q == g by {
                        let j = keys_of(new_entries).index_of(q);
                        if j < old_entries.len() {
                            assert(keys_of(old_entries)[j] == q);
                        }
                    }
                    assert forall|q: Seq<char>| #[trigger] keys_of(old_entries).contains(q) implies
                        keys_of(new_entries).contains(q) by {
                        let j = keys_of(old_entries).index_of(q);
                        assert(keys_of(new_entries)[j] == q);
                    }
                    assert forall|j: int| 0 <= j < new_entries.len() implies texts(
                        #[trigger] new_entries[j].1@,
                    ).no_duplicates() by {
                        if j < old_entries.len() {
                            assert(new_entries[j] == old_entries[j]);
                        }
                    }
                    assert(Seq::<Seq<char>>::empty().push(m) =~= seq![m]);
                    assert(assoc(new_entries, f) =~= assoc(old_entries, f).insert(g, seq![m]));
                }
            },
        }
        self.groups = entries;
        proof {
            assert(self@.groups =~= old(self)@.with_member(g, m).groups);
        }
        added
    }
    /// The file that `resource` is saved to; where the resource was never
    /// registered, the error names its missing registration `registration`.
    pub fn path_for_save(&self, resource: &String, registration: &String) -> (r: Result<String, SaveError>)
        ensures
            r is Ok <==> self@.save_paths.contains_key(resource@),
            r matches Ok(p) ==> p@ == self@.save_paths[resource@],
            r is Err ==> r == Err::<String, SaveError>(SaveError::ResourceMissing(*registration)),
    {
        match self.save_path(resource) {
            Some(p) => Ok(p),
            None => Err(SaveError::ResourceMissing(registration.clone())),
        }
    }

    /// The members of `group` in registration order; a group that nothing was
    /// registered to is an error.
    pub fn members_of(&self, group: &String) -> (r: Result<Vec<String>, SaveError>)
        ensures
            r is Ok <==> self@.groups.contains_key(group@),
            r matches Ok(ms) ==> texts(ms@) == self@.groups[group@] && texts(ms@).no_duplicates(),
            r is Err ==> r == Err::<Vec<String>, SaveError>(SaveError::UnknownGroup(*group)),
    {
        proof {
            use_type_invariant(self);
        }
        match find_key(&self.groups, group) {
            Some(i) => {
                proof {
                    lemma_index_of_distinct(keys_of(self.groups@), i as int);
                }
                Ok(self.groups[i].1.clone())
            },
            None => Err(SaveError::UnknownGroup(group.clone())),
        }
    }
}

} // verus!
