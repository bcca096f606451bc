//! The package index: for each package name the files that belong to it, in
//! the order in which they were added. The entries live in a
//! `multimap::MultiMap`.

use multimap::MultiMap;
use vstd::prelude::*;

verus! {

/// `multimap::MultiMap`, whose entries Verus does not look into.
#[verifier::external_type_specification]
#[verifier::external_body]
#[verifier::reject_recursive_types(K)]
#[verifier::reject_recursive_types(V)]
#[verifier::reject_recursive_types(S)]
pub struct ExMultiMap<K, V, S>(MultiMap<K, V, S>);

/// What a `MultiMap` of strings holds: for each key the values inserted under
/// it, oldest first.
pub uninterp spec fn grouped(m: MultiMap<String, String>) -> Map<Seq<char>, Seq<Seq<char>>>;

/// The groups of an index to which nothing was added.
pub open spec fn no_groups() -> Map<Seq<char>, Seq<Seq<char>>> {
    Map::empty()
}

/// The groups after `file` was added under `name`: appended to the files of
/// a package that is there, or the first file of a new one.
pub open spec fn with_file(
    groups: Map<Seq<char>, Seq<Seq<char>>>,
    name: Seq<char>,
    file: Seq<char>,
) -> Map<Seq<char>, Seq<Seq<char>>> {
    if groups.dom().contains(name) {
        groups.insert(name, groups[name].push(file))
    } else {
        groups.insert(name, seq![file])
    }
}

/// `entries` lists the groups, each package once with its files, in some
/// order.
pub open spec fn is_walk_of(
    entries: Seq<(Seq<char>, Seq<Seq<char>>)>,
    groups: Map<Seq<char>, Seq<Seq<char>>>,
) -> bool {
    &&& forall|i: int|
        0 <= i < entries.len() ==> {
            let entry = #[trigger] entries[i];
            groups.dom().contains(entry.0) && groups[entry.0] == entry.1
        }
    &&& forall|i: int, j: int|
        0 <= i < j < entries.len() ==> (#[trigger] entries[i]).0 != (#[trigger] entries[j]).0
    &&& forall|name: Seq<char>| #[trigger]
        groups.dom().contains(name) ==> exists|i: int|
            0 <= i < entries.len() && (#[trigger] entries[i]).0 == name
}

/// Calls `MultiMap::new`: the new map holds nothing.
#[verifier::external_body]
fn multimap_new() -> (m: MultiMap<String, String>)
    ensures
        grouped(m) == no_groups(),
{
    MultiMap::new()
}

/// Calls `MultiMap::insert`, which pushes the value onto the vector of a key
/// that is present and starts a vector for one that is not.
#[verifier::external_body]
fn multimap_insert(m: &mut MultiMap<String, String>, name: String, file: String)
    ensures
        grouped(*final(m)) == with_file(grouped(*old(m)), name@, file@),
{
    m.insert(name, file)
}

/// Calls `MultiMap::into_iter`, which hands out each key once, with its
/// vector, in the order of the hash map underneath. That order is not fixed,
/// so the contract holds for every order.
#[verifier::external_body]
fn multimap_into_entries(m: MultiMap<String, String>) -> (entries: Vec<(String, Vec<String>)>)
    ensures
        is_walk_of(entries.deep_view(), grouped(m)),
{
    m.into_iter().collect()
}

/// Package names with their files.
pub struct PackageIndex {
    groups: MultiMap<String, String>,
}

impl View for PackageIndex {
    type V = Map<Seq<char>, Seq<Seq<char>>>;

    closed spec fn view(&self) -> Map<Seq<char>, Seq<Seq<char>>> {
        grouped(self.groups)
    }
}

impl PackageIndex {
    /// An index without packages.
    pub fn new() -> (index: PackageIndex)
        ensures
            index@ == no_groups(),
    {
        PackageIndex { groups: multimap_new() }
    }

    /// Adds `file` to the package `name`, behind the files it already has.
    pub fn insert(&mut self, name: String, file: String)
        ensures
            final(self)@ == with_file(old(self)@, name@, file@),
    {
        multimap_insert(&mut self.groups, name, file)
    }

    /// The packages with their files, each package once, in no particular
    /// order.
    pub fn into_entries(self) -> (entries: Vec<(String, Vec<String>)>)
        ensures
            is_walk_of(entries.deep_view(), self@),
    {
        multimap_into_entries(self.groups)
    }
}

} // verus!
