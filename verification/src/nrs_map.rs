use crate::errors::Error;
use crate::link::ContentLocator;
use crate::link::validate_nrs_link;
use crate::name::joined_labels;
use crate::name::label_views;
use crate::name::parse_out_subnames;
use crate::name::str_eq;
use crate::name::sub_names_vec_to_str;
use crate::name::subname_path;
use vstd::prelude::*;

verus! {

/// A subname path: zero or more labels joined with `.`, excluding the top
/// name. The empty string denotes the default, top-level entry.
pub type SubName = String;

/// An opaque locator string naming content in the storage network.
pub type XorUrl = String;

/// Mapping subname paths to locator strings.
///
/// For a given top name `"example"`:
///
/// | SubName key   | Full name         | XorUrl value |
/// |---------------|-------------------|--------------|
/// | `""`          | `"example"`       | `"safe://eg1"` |
/// | `"sub"`       | `"sub.example"`   | `"safe://eg2"` |
/// | `"sub.sub"`   | `"sub.sub.example"` | `"safe://eg3"` |
///
/// No two entries share a key; each `update` simply replaces the prior value
/// for its key. Every stored locator satisfied the version-anchor rule at the
/// time it was stored.
#[derive(Debug, PartialEq)]
pub struct NrsMap {
    entries: Vec<(SubName, XorUrl)>,
}

impl Clone for NrsMap {
    /// A clone holds exactly the association of the original.
    fn clone(&self) -> (r: Self)
        ensures
            r@ == self@,
    {
        proof {
            use_type_invariant(&*self);
        }
        let mut entries: Vec<(SubName, XorUrl)> = Vec::new();
        let n = self.entries.len();
        let mut i: usize = 0;
        while i < n
            invariant
                i <= n,
                n == self.entries@.len(),
                entries@ =~= self.entries@.take(i as int),
            decreases n - i,
        {
            let pair = &self.entries[i];
            entries.push((pair.0.clone(), pair.1.clone()));
            i += 1;
        }
        proof {
            assert(entries@ =~= self.entries@);
        }
        NrsMap { entries }
    }
}

/// The association a sequence of entries stands for: later entries win,
/// though under [`NrsMap`]'s invariant every key occurs at most once.
pub open spec fn assoc_map(entries: Seq<(String, String)>) -> Map<Seq<char>, Seq<char>>
    decreases entries.len(),
{
    if entries.len() == 0 {
        Map::empty()
    } else {
        assoc_map(entries.drop_last()).insert(entries.last().0@, entries.last().1@)
    }
}

/// Whether some entry carries the key `k`.
spec fn has_key(entries: Seq<(String, String)>, k: Seq<char>) -> bool {
    exists|i: int| 0 <= i < entries.len() && entries[i].0@ == k
}

/// Entry keys are pairwise distinct.
spec fn distinct_keys(entries: Seq<(String, String)>) -> bool {
    forall|i: int, j: int|
        0 <= i < j < entries.len() ==> entries[i].0@ != entries[j].0@
}

impl NrsMap {
    /// The association the map holds, from subname path to locator string.
    pub closed spec fn view(&self) -> Map<Seq<char>, Seq<char>> {
        assoc_map(self.entries@)
    }

    #[verifier::type_invariant]
    spec fn wf(self) -> bool {
        distinct_keys(self.entries@)
    }

    /// Resolves a sequence of subname labels: the labels are joined with `.`
    /// into a subname path and looked up exactly.
    pub fn resolve_for_subnames(&self, sub_names: &[SubName]) -> (r: Result<XorUrl, Error>)
        ensures
            self@.contains_key(joined_labels(label_views(sub_names@))) ==> (r matches Ok(url)
                && url@ == self@[joined_labels(label_views(sub_names@))]),
            !self@.contains_key(joined_labels(label_views(sub_names@))) ==> (r matches Err(e)
                && e is NotFound),
    {
        let sub_names_str = sub_names_vec_to_str(sub_names);
        self.get_link_for(sub_names_str.as_str())
    }

    /// Resolves a full hierarchical name: its subname path is derived (scheme
    /// stripped, top name dropped) and looked up exactly.
    pub fn resolve_for_full_name(&self, full_name: &str) -> (r: Result<XorUrl, Error>)
        ensures
            self@.contains_key(subname_path(full_name@)) ==> (r matches Ok(url)
                && url@ == self@[subname_path(full_name@)]),
            !self@.contains_key(subname_path(full_name@)) ==> (r matches Err(e) && e is NotFound),
    {
        let path = parse_out_subnames(full_name);
        self.get_link_for(path.as_str())
    }

    /// Resolves the default entry: the top name itself, under the reserved
    /// empty subname path.
    pub fn get_default_link(&self) -> (r: Result<XorUrl, Error>)
        ensures
            self@.contains_key(Seq::<char>::empty()) ==> (r matches Ok(url)
                && url@ == self@[Seq::<char>::empty()]),
            !self@.contains_key(Seq::<char>::empty()) ==> (r matches Err(e) && e is NotFound),
    {
        proof {
            reveal_strlit("");
            assert(""@ =~= Seq::<char>::empty());
        }
        self.get_link_for("")
    }

    /// Removes the entry of the given subname path and returns its former
    /// value; fails with [`Error::NotFound`] when the path is absent, leaving
    /// the map unchanged.
    pub fn nrs_map_remove_subname(&mut self, name: &str) -> (r: Result<XorUrl, Error>)
        ensures
            old(self)@.contains_key(name@) ==> (r matches Ok(url) && url@ == old(self)@[name@]
                && final(self)@ == old(self)@.remove(name@)),
            !old(self)@.contains_key(name@) ==> (r matches Err(e) && e is NotFound && final(self)@
                == old(self)@),
    {
        proof {
            use_type_invariant(&*self);
        }
        let mut entries: Vec<(SubName, XorUrl)> = Vec::new();
        core::mem::swap(&mut entries, &mut self.entries);
        let found = position_of(&entries, name);
        let r = match found {
            Some(i) => {
                let ghost old_entries = entries@;
                let (_key, url) = entries.remove(i);
                proof {
                    lemma_assoc_contains(old_entries, name@);
                    lemma_assoc_value(old_entries, i as int);
                    lemma_assoc_remove(old_entries, i as int);
                }
                Ok(url)
            },
            None => {
                proof {
                    lemma_assoc_contains(entries@, name@);
                }
                Err(
                    Error::NotFound(
                        String::from_str("Sub name not found in NRS Map Container"),
                    ),
                )
            },
        };
        self.entries = entries;
        r
    }

    /// Validates the locator against the version-anchor rule, then stores it
    /// under the subname path derived from the full name, replacing any prior
    /// value for that path; returns the stored locator string. On a
    /// [`Error::ValidationError`] the map is left unmodified.
    pub fn update(&mut self, name: &str, link: &ContentLocator) -> (r: Result<XorUrl, Error>)
        ensures
            r is Ok <==> !link.violates_version_rule(),
            r matches Ok(url) ==> url@ == link.url@ && final(self)@ == old(self)@.insert(
                subname_path(name@),
                link.url@,
            ),
            r matches Err(e) ==> (e matches Error::ValidationError(msg) && msg@
                == link.version_rule_error_message() && final(self)@ == old(self)@),
    {
        match validate_nrs_link(link) {
            Err(e) => {
                proof {
                    use_type_invariant(&*self);
                }
                return Err(e);
            },
            Ok(()) => {},
        }
        let subname = parse_out_subnames(name);
        self.insert_entry(subname, link.url.clone());
        Ok(link.url.clone())
    }

    /// Looks the subname path up exactly: a path with no explicit entry is
    /// unresolved even when an ancestor path has one.
    pub fn get_link_for(&self, sub_name: &str) -> (r: Result<XorUrl, Error>)
        ensures
            self@.contains_key(sub_name@) ==> (r matches Ok(url) && url@ == self@[sub_name@]),
            !self@.contains_key(sub_name@) ==> (r matches Err(e) && e is NotFound),
    {
        proof {
            use_type_invariant(&*self);
        }
        let found = position_of(&self.entries, sub_name);
        match found {
            Some(i) => {
                proof {
                    lemma_assoc_contains(self.entries@, sub_name@);
                    lemma_assoc_value(self.entries@, i as int);
                }
                Ok(self.entries[i].1.clone())
            },
            None => {
                proof {
                    lemma_assoc_contains(self.entries@, sub_name@);
                }
                let not_found_message = String::from_str(
                    "Link not found in NRS Map Container for: ",
                ).concat(sub_name);
                Err(Error::NotFound(not_found_message))
            },
        }
    }

    /// The full snapshot: every entry as a subname path with its locator
    /// string, for the surrounding application to persist. Keys are pairwise
    /// distinct, and the entries carry exactly the association of the map.
    pub fn entries(&self) -> (r: &Vec<(SubName, XorUrl)>)
        ensures
            forall|i: int|
                #![trigger r@[i]]
                0 <= i < r@.len() ==> self@.contains_key(r@[i].0@) && self@[r@[i].0@]
                    == r@[i].1@,
            forall|i: int, j: int| 0 <= i < j < r@.len() ==> r@[i].0@ != r@[j].0@,
            forall|k: Seq<char>|
                #![trigger self@.contains_key(k)]
                self@.contains_key(k) ==> exists|i: int|
                    0 <= i < r@.len() && r@[i].0@ == k,
    {
        proof {
            use_type_invariant(&*self);
            assert forall|i: int|
                0 <= i < self.entries@.len() implies self@.contains_key(#[trigger] self.entries@[i].0@)
                && self@[self.entries@[i].0@] == self.entries@[i].1@ by {
                lemma_assoc_value(self.entries@, i);
            }
            assert forall|k: Seq<char>| #[trigger] self@.contains_key(k) implies exists|i: int|
                0 <= i < self.entries@.len() && self.entries@[i].0@ == k by {
                lemma_assoc_contains(self.entries@, k);
            }
        }
        &self.entries
    }

    /// Hydrates a map from a persisted snapshot of entries. When a key
    /// repeats, the later entry wins. Locators of a snapshot were validated
    /// when they were first stored and are not re-validated here.
    pub fn from_entries(entries: Vec<(SubName, XorUrl)>) -> (r: NrsMap)
        ensures
            r@ == assoc_map(entries@),
    {
        let mut map = NrsMap { entries: Vec::new() };
        let n = entries.len();
        let mut i: usize = 0;
        while i < n
            invariant
                i <= n,
                n == entries@.len(),
                map@ == assoc_map(entries@.take(i as int)),
            decreases n - i,
        {
            let pair = &entries[i];
            map.insert_entry(pair.0.clone(), pair.1.clone());
            proof {
                assert(entries@.take(i + 1).drop_last() =~= entries@.take(i as int));
                assert(entries@.take(i + 1).last() == entries@[i as int]);
            }
            i += 1;
        }
        proof {
            assert(entries@.take(n as int) =~= entries@);
        }
        map
    }

    /// Stores `value` under `key`, replacing any prior value for that key.
    fn insert_entry(&mut self, key: SubName, value: XorUrl)
        ensures
            final(self)@ == old(self)@.insert(key@, value@),
    {
        proof {
            use_type_invariant(&*self);
        }
        let mut entries: Vec<(SubName, XorUrl)> = Vec::new();
        core::mem::swap(&mut entries, &mut self.entries);
        let found = position_of(&entries, key.as_str());
        let ghost old_entries = entries@;
        match found {
            Some(i) => {
                entries[i] = (key, value);
                proof {
                    lemma_assoc_update(old_entries, i as int, entries@[i as int]);
                    assert(distinct_keys(entries@));
                }
            },
            None => {
                entries.push((key, value));
                proof {
                    assert(entries@.drop_last() =~= old_entries);
                    assert(distinct_keys(entries@));
                }
            },
        }
        self.entries = entries;
    }
}

impl Default for NrsMap {
    /// The empty map: no entry for any subname path.
    fn default() -> (r: Self)
        ensures
            r@ == Map::<Seq<char>, Seq<char>>::empty(),
    {
        NrsMap { entries: Vec::new() }
    }
}

/// The index of the entry carrying `key`, if any.
fn position_of(entries: &Vec<(String, String)>, key: &str) -> (r: Option<usize>)
    ensures
        match r {
            Some(i) => i < entries@.len() && entries@[i as int].0@ == key@,
            None => forall|m: int| 0 <= m < entries@.len() ==> entries@[m].0@ != key@,
        },
{
    let n = entries.len();
    let mut i: usize = 0;
    while i < n
        invariant
            i <= n,
            n == entries@.len(),
            forall|m: int| 0 <= m < i ==> entries@[m].0@ != key@,
        decreases n - i,
    {
        if str_eq(entries[i].0.as_str(), key) {
            return Some(i);
        }
        i += 1;
    }
    None
}

/// Round trip: a successful `update` of a full name turns the association
/// `m` into `m.insert(subname_path(n), link)`, and `resolve_for_full_name`
/// of the same full name reads the association at `subname_path(n)`; the key
/// just written holds exactly the link that was stored.
pub proof fn lemma_update_then_resolve(
    m: Map<Seq<char>, Seq<char>>,
    full_name: Seq<char>,
    link: Seq<char>,
)
    ensures
        m.insert(subname_path(full_name), link).contains_key(subname_path(full_name)),
        m.insert(subname_path(full_name), link)[subname_path(full_name)] == link,
{
}

/// Removal: a successful `nrs_map_remove_subname` of a path turns the
/// association `m` into `m.remove(path)`, where a later lookup of that path
/// finds nothing.
pub proof fn lemma_removed_path_unresolved(m: Map<Seq<char>, Seq<char>>, path: Seq<char>)
    ensures
        !m.remove(path).contains_key(path),
{
}

/// Default equivalence: no labels join to the empty subname path, so
/// `resolve_for_subnames` of no labels, `get_default_link`, and
/// `get_link_for` of the empty path all read the association at the same
/// key, the reserved empty one.
pub proof fn lemma_default_equivalence()
    ensures
        joined_labels(label_views(Seq::<String>::empty())) == Seq::<char>::empty(),
{
    assert(label_views(Seq::<String>::empty()) =~= Seq::<Seq<char>>::empty());
}

/// An entry sequence holds a key exactly when its association does.
proof fn lemma_assoc_contains(entries: Seq<(String, String)>, k: Seq<char>)
    ensures
        assoc_map(entries).contains_key(k) <==> has_key(entries, k),
    decreases entries.len(),
{
    if entries.len() > 0 {
        lemma_assoc_contains(entries.drop_last(), k);
        if assoc_map(entries).contains_key(k) {
            if k == entries.last().0@ {
                assert(entries[entries.len() - 1].0@ == k);
            } else {
                let i = choose|i: int|
                    0 <= i < entries.drop_last().len() && entries.drop_last()[i].0@ == k;
                assert(entries[i].0@ == k);
            }
        }
        if has_key(entries, k) {
            let i = choose|i: int| 0 <= i < entries.len() && entries[i].0@ == k;
            if i < entries.len() - 1 {
                assert(entries.drop_last()[i].0@ == k);
            }
        }
    }
}

/// Under distinct keys, the association maps each entry's key to that
/// entry's value.
proof fn lemma_assoc_value(entries: Seq<(String, String)>, i: int)
    requires
        distinct_keys(entries),
        0 <= i < entries.len(),
    ensures
        assoc_map(entries).contains_key(entries[i].0@),
        assoc_map(entries)[entries[i].0@] == entries[i].1@,
    decreases entries.len(),
{
    if i == entries.len() - 1 {
    } else {
        assert(entries.drop_last()[i] == entries[i]);
        lemma_assoc_value(entries.drop_last(), i);
        assert(entries[i].0@ != entries.last().0@);
    }
}

/// Replacing the entry at `i` by one with the same key updates the
/// association at that key alone.
proof fn lemma_assoc_update(entries: Seq<(String, String)>, i: int, p: (String, String))
    requires
        distinct_keys(entries),
        0 <= i < entries.len(),
        p.0@ == entries[i].0@,
    ensures
        assoc_map(entries.update(i, p)) == assoc_map(entries).insert(p.0@, p.1@),
    decreases entries.len(),
{
    if i == entries.len() - 1 {
        assert(entries.update(i, p).drop_last() =~= entries.drop_last());
        assert(entries.update(i, p).last() == p);
        assert(assoc_map(entries.drop_last()).insert(p.0@, p.1@) =~= assoc_map(
            entries.drop_last(),
        ).insert(entries.last().0@, entries.last().1@).insert(p.0@, p.1@));
    } else {
        assert(entries.update(i, p).drop_last() =~= entries.drop_last().update(i, p));
        assert(entries.update(i, p).last() == entries.last());
        assert(entries.drop_last()[i] == entries[i]);
        lemma_assoc_update(entries.drop_last(), i, p);
        assert(p.0@ != entries.last().0@);
        assert(assoc_map(entries.drop_last()).insert(p.0@, p.1@).insert(
            entries.last().0@,
            entries.last().1@,
        ) =~= assoc_map(entries.drop_last()).insert(entries.last().0@, entries.last().1@).insert(
            p.0@,
            p.1@,
        ));
    }
}

/// Under distinct keys, removing the entry at `i` removes its key, and its
/// key alone, from the association.
proof fn lemma_assoc_remove(entries: Seq<(String, String)>, i: int)
    requires
        distinct_keys(entries),
        0 <= i < entries.len(),
    ensures
        assoc_map(entries.remove(i)) == assoc_map(entries).remove(entries[i].0@),
    decreases entries.len(),
{
    if i == entries.len() - 1 {
        assert(entries.remove(i) =~= entries.drop_last());
        lemma_assoc_contains(entries.drop_last(), entries[i].0@);
        assert(!has_key(entries.drop_last(), entries[i].0@)) by {
            if has_key(entries.drop_last(), entries[i].0@) {
                let m = choose|m: int|
                    0 <= m < entries.drop_last().len() && entries.drop_last()[m].0@
                        == entries[i].0@;
                assert(entries[m].0@ == entries[i].0@);
            }
        }
        assert(assoc_map(entries.drop_last()) =~= assoc_map(entries.drop_last()).insert(
            entries.last().0@,
            entries.last().1@,
        ).remove(entries.last().0@));
    } else {
        assert(entries.remove(i).drop_last() =~= entries.drop_last().remove(i));
        assert(entries.remove(i).last() == entries.last());
        assert(entries.drop_last()[i] == entries[i]);
        lemma_assoc_remove(entries.drop_last(), i);
        assert(entries[i].0@ != entries.last().0@);
        assert(assoc_map(entries.drop_last()).remove(entries[i].0@).insert(
            entries.last().0@,
            entries.last().1@,
        ) =~= assoc_map(entries.drop_last()).insert(entries.last().0@, entries.last().1@).remove(
            entries[i].0@,
        ));
    }
}

} // verus!
