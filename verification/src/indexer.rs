//! The indexer: from a listing of the store to the index pages.

use crate::names::{
    is_wheel, is_wheel_name, lemma_pick_from_wheels, package_name, package_name_of, wheels_in,
    MalformedFilenameError,
};
use crate::package_index::{is_walk_of, no_groups, with_file, PackageIndex};
use crate::pages::{package_page, package_page_of, root_page, root_page_of, Page, PageView};
use crate::pattern::{
    filename_in_key, leftmost_match, pattern_compiles, text_of, PatternError, FILENAME_PATTERN,
};
use vstd::prelude::*;

verus! {

broadcast use vstd::seq_lib::group_seq_properties;

/// What one key of the listing contributes to the index.
#[derive(Debug, Clone, PartialEq, Eq)]
pub enum KeyEntry {
    /// The key carries no wheel marker and is passed over.
    Skipped,
    /// The key ends in the wheel `file`, which belongs to `package`.
    Wheel { package: String, file: String },
    /// The key carries the marker, but no package name can be read from it.
    Malformed,
}

/// A `KeyEntry` as characters.
pub enum KeyEntryView {
    Skipped,
    Wheel { package: Seq<char>, file: Seq<char> },
    Malformed,
}

impl View for KeyEntry {
    type V = KeyEntryView;

    open spec fn view(&self) -> KeyEntryView {
        match self {
            KeyEntry::Skipped => KeyEntryView::Skipped,
            KeyEntry::Wheel { package, file } => KeyEntryView::Wheel {
                package: package@,
                file: file@,
            },
            KeyEntry::Malformed => KeyEntryView::Malformed,
        }
    }
}

/// The entry of a wheel's key, given what the search for a filename found in
/// it: the file is the match, its package is the package name of the match.
pub open spec fn entry_of_match(found: Option<Seq<char>>) -> KeyEntryView {
    match found {
        Some(file) => match package_name_of(file) {
            Some(package) => KeyEntryView::Wheel { package, file },
            None => KeyEntryView::Malformed,
        },
        None => KeyEntryView::Malformed,
    }
}

/// The entry of any key: keys without the wheel marker are skipped, the
/// others are searched for a filename.
pub open spec fn entry_of(key: Seq<char>) -> KeyEntryView {
    if is_wheel_name(key) {
        entry_of_match(leftmost_match(FILENAME_PATTERN@, key))
    } else {
        KeyEntryView::Skipped
    }
}

/// `key` is a wheel of package `name`.
pub open spec fn belongs_to(key: Seq<char>, name: Seq<char>) -> bool {
    entry_of(key) matches KeyEntryView::Wheel { package, .. } && package == name
}

/// The filename that a wheel's key ends in.
pub open spec fn file_of(key: Seq<char>) -> Seq<char> {
    entry_of(key)->file
}

/// The files of package `name` in a listing, in listing order.
pub open spec fn files_of(keys: Seq<Seq<char>>, name: Seq<char>) -> Seq<Seq<char>> {
    keys.filter(|key: Seq<char>| belongs_to(key, name)).map_values(|key: Seq<char>| file_of(key))
}

/// The packages of a listing: every name that some key is a wheel of, with
/// its files.
pub open spec fn groups_of(keys: Seq<Seq<char>>) -> Map<Seq<char>, Seq<Seq<char>>> {
    Map::new(
        |name: Seq<char>| files_of(keys, name).len() > 0,
        |name: Seq<char>| files_of(keys, name),
    )
}

/// The keys of a listing that carry the marker but name no package, in
/// listing order.
pub open spec fn rejected_of(keys: Seq<Seq<char>>) -> Seq<Seq<char>> {
    keys.filter(|key: Seq<char>| entry_of(key) is Malformed)
}

/// Some key of the listing carries the wheel marker, so that the filename
/// pattern is put to use.
pub open spec fn has_wheels(keys: Seq<Seq<char>>) -> bool {
    exists|i: int| 0 <= i < keys.len() && is_wheel_name(#[trigger] keys[i])
}

/// The entry of a wheel's key from the filename found in it.
pub fn entry_from_match(found: Option<String>) -> (entry: KeyEntry)
    ensures
        entry@ == entry_of_match(text_of(found)),
{
    match found {
        Some(file) => match package_name(file.as_str()) {
            Ok(package) => KeyEntry::Wheel { package, file },
            Err(_) => KeyEntry::Malformed,
        },
        None => KeyEntry::Malformed,
    }
}

/// What `key` contributes to the index. Fails only where the key is a wheel's
/// and the regex engine refuses the filename pattern.
pub fn classify_key(key: &str) -> (entry: Result<KeyEntry, PatternError>)
    ensures
        entry is Err <==> is_wheel_name(key@) && !pattern_compiles(FILENAME_PATTERN@),
        entry matches Ok(e) ==> e@ == entry_of(key@),
{
    if !is_wheel(key) {
        return Ok(KeyEntry::Skipped);
    }
    match filename_in_key(key) {
        Ok(found) => Ok(entry_from_match(found)),
        Err(e) => Err(e),
    }
}

/// One more key at the end of a listing adds its file to its package, or
/// itself to the rejected keys, or nothing.
pub proof fn lemma_listing_push(keys: Seq<Seq<char>>, key: Seq<char>)
    ensures
        groups_of(keys.push(key)) == match entry_of(key) {
            KeyEntryView::Wheel { package, file } => with_file(groups_of(keys), package, file),
            _ => groups_of(keys),
        },
        rejected_of(keys.push(key)) == if entry_of(key) is Malformed {
            rejected_of(keys).push(key)
        } else {
            rejected_of(keys)
        },
{
    keys.lemma_filter_push(key, |k: Seq<char>| entry_of(k) is Malformed);
    assert forall|name: Seq<char>|
        files_of(keys.push(key), name) == if belongs_to(key, name) {
            files_of(keys, name).push(file_of(key))
        } else {
            files_of(keys, name)
        } by {
        let of_name = |k: Seq<char>| belongs_to(k, name);
        keys.lemma_filter_push(key, of_name);
        keys.filter(of_name).lemma_push_map_commute(|k: Seq<char>| file_of(k), key);
    }
}

/// An empty listing has no packages and no rejected keys.
pub proof fn lemma_listing_empty()
    ensures
        groups_of(Seq::empty()) == no_groups(),
        rejected_of(Seq::empty()) == Seq::<Seq<char>>::empty(),
{
    let none = Seq::<Seq<char>>::empty();
    assert forall|name: Seq<char>| files_of(none, name).len() == 0 by {
        none.lemma_filter_len(|k: Seq<char>| belongs_to(k, name));
    }
    none.lemma_filter_len(|k: Seq<char>| entry_of(k) is Malformed);
}

/// The wheels of a listing by package, and the keys that were refused.
pub struct Grouping {
    pub index: PackageIndex,
    pub rejected: Vec<MalformedFilenameError>,
}

/// Groups the wheels of a listing by package name. A key without the wheel
/// marker is passed over; a wheel's key that names no package is recorded in
/// `rejected` and the rest is still grouped.
pub fn group_keys(keys: &Vec<String>) -> (grouping: Result<Grouping, PatternError>)
    ensures
        grouping is Err <==> has_wheels(keys.deep_view()) && !pattern_compiles(FILENAME_PATTERN@),
        grouping matches Ok(g) ==> g.index@ == groups_of(keys.deep_view()) && g.rejected.deep_view()
            == rejected_of(keys.deep_view()),
{
    let mut index = PackageIndex::new();
    let mut rejected: Vec<MalformedFilenameError> = Vec::new();
    let mut i: usize = 0;
    proof {
        lemma_listing_empty();
    }
    while i < keys.len()
        invariant
            i <= keys.len(),
            index@ == groups_of(keys.deep_view().take(i as int)),
            rejected.deep_view() == rejected_of(keys.deep_view().take(i as int)),
            has_wheels(keys.deep_view().take(i as int)) ==> pattern_compiles(FILENAME_PATTERN@),
        decreases keys.len() - i,
    {
        let ghost seen = keys.deep_view().take(i as int);
        let ghost key = keys[i as int]@;
        proof {
            assert(keys.deep_view().take(i + 1) =~= seen.push(key));
            lemma_listing_push(seen, key);
        }
        match classify_key(keys[i].as_str()) {
            Ok(KeyEntry::Skipped) => {},
            Ok(KeyEntry::Wheel { package, file }) => {
                index.insert(package, file);
            },
            Ok(KeyEntry::Malformed) => {
                rejected.push(MalformedFilenameError { filename: keys[i].clone() });
            },
            Err(e) => {
                assert(keys.deep_view()[i as int] == key);
                return Err(e);
            },
        }
        i += 1;
    }
    Ok(Grouping { index, rejected })
}

/// The pages of a whole index, as `create_indexes` lays them out.
#[derive(Debug, Clone, PartialEq, Eq)]
pub struct SiteIndex {
    /// The packages, in the order in which the pages list them.
    pub names: Vec<String>,
    /// The page that links to every package.
    pub root: Page,
    /// One page for each package, in the order of `names`.
    pub packages: Vec<Page>,
    /// The wheel keys that no package could be read from.
    pub rejected: Vec<MalformedFilenameError>,
}

/// A `SiteIndex` as characters.
pub struct SiteIndexView {
    pub names: Seq<Seq<char>>,
    pub root: PageView,
    pub packages: Seq<PageView>,
    pub rejected: Seq<Seq<char>>,
}

impl View for SiteIndex {
    type V = SiteIndexView;

    open spec fn view(&self) -> SiteIndexView {
        SiteIndexView {
            names: self.names.deep_view(),
            root: self.root@,
            packages: self.packages.deep_view(),
            rejected: self.rejected.deep_view(),
        }
    }
}

/// `site` is the index of the listing `keys` under `prefix`: its names are
/// the packages of the listing, each once; the root page links to them in
/// that order; each package has its page, with its files in listing order;
/// and the rejected keys are those of the listing.
pub open spec fn is_site_of(site: SiteIndexView, prefix: Seq<char>, keys: Seq<Seq<char>>) -> bool {
    &&& site.names.no_duplicates()
    &&& site.names.to_set() == groups_of(keys).dom()
    &&& site.root == root_page_of(prefix, site.names)
    &&& site.packages == site.names.map_values(
        |name: Seq<char>| package_page_of(prefix, name, files_of(keys, name)),
    )
    &&& site.rejected == rejected_of(keys)
}

/// Builds every index page from a listing of the store under `prefix`: the
/// root page and one page for each package that has a wheel in the listing.
/// The order of the packages is that of the hash map the grouping uses, and
/// so is not fixed. Fails only where the listing holds a wheel and the regex
/// engine refuses the filename pattern.
pub fn create_indexes(prefix: &str, keys: &Vec<String>) -> (site: Result<SiteIndex, PatternError>)
    ensures
        site is Err <==> has_wheels(keys.deep_view()) && !pattern_compiles(FILENAME_PATTERN@),
        site matches Ok(s) ==> is_site_of(s@, prefix@, keys.deep_view()),
{
    let grouping = match group_keys(keys) {
        Ok(grouping) => grouping,
        Err(e) => {
            return Err(e);
        },
    };
    let ghost listing = keys.deep_view();
    let ghost groups = grouping.index@;
    let ghost page = |name: Seq<char>| package_page_of(prefix@, name, files_of(listing, name));
    let rejected = grouping.rejected;
    let entries = grouping.index.into_entries();
    let mut names: Vec<String> = Vec::new();
    let mut packages: Vec<Page> = Vec::new();
    let mut i: usize = 0;
    while i < entries.len()
        invariant
            i <= entries.len(),
            groups == groups_of(listing),
            is_walk_of(entries.deep_view(), groups),
            page == |name: Seq<char>| package_page_of(prefix@, name, files_of(listing, name)),
            names.len() == i,
            packages.len() == i,
            forall|j: int| 0 <= j < i ==> names[j]@ == #[trigger] entries.deep_view()[j].0,
            forall|j: int| 0 <= j < i ==> #[trigger] packages[j]@ == page(names[j]@),
        decreases entries.len() - i,
    {
        let name = entries[i].0.clone();
        let package = package_page(prefix, entries[i].0.as_str(), &entries[i].1);
        proof {
            let entry = entries.deep_view()[i as int];
            assert(groups[entry.0] == entry.1);
        }
        names.push(name);
        packages.push(package);
        i += 1;
    }
    let root = root_page(prefix, &names);
    proof {
        let walked = entries.deep_view();
        let listed = names.deep_view();
        assert forall|a: int, b: int|
            0 <= a < listed.len() && 0 <= b < listed.len() && a != b implies listed[a] != listed[b] by {
            assert(listed[a] == walked[a].0);
            assert(listed[b] == walked[b].0);
        }
        assert forall|name: Seq<char>|
            listed.to_set().contains(name) <==> groups.dom().contains(name) by {
            if listed.to_set().contains(name) {
                let a: int = choose|a: int| 0 <= a < listed.len() && listed[a] == name;
                assert(listed[a] == walked[a].0);
            }
            if groups.dom().contains(name) {
                let a: int = choose|a: int| 0 <= a < walked.len() && #[trigger] walked[a].0 == name;
                assert(listed[a] == name);
            }
        }
        assert(listed.to_set() =~= groups.dom());
        assert(packages.deep_view() =~= listed.map_values(page));
    }
    Ok(SiteIndex { names, root, packages, rejected })
}

/// Keys without the wheel marker never reach the index: the packages, their
/// files and the rejected keys of a listing are those of its wheels alone.
pub proof fn lemma_only_wheels_are_indexed(keys: Seq<Seq<char>>)
    ensures
        forall|name: Seq<char>| #[trigger] files_of(keys, name) == files_of(wheels_in(keys), name),
        groups_of(keys) == groups_of(wheels_in(keys)),
        rejected_of(keys) == rejected_of(wheels_in(keys)),
{
    assert forall|name: Seq<char>|
        #[trigger] files_of(keys, name) == files_of(wheels_in(keys), name) by {
        lemma_pick_from_wheels(keys, |key: Seq<char>| belongs_to(key, name));
    }
    lemma_pick_from_wheels(keys, |key: Seq<char>| entry_of(key) is Malformed);
}

/// Indexing again changes nothing. Two listings with the same wheels, such
/// as the listings before and after index pages were written under keys
/// that are no wheels', give the same root page, the same package pages and
/// the same rejected keys, provided that the packages are taken in the same
/// order.
pub proof fn lemma_reindexing_gives_same_pages(
    prefix: Seq<char>,
    first_keys: Seq<Seq<char>>,
    second_keys: Seq<Seq<char>>,
    first: SiteIndexView,
    second: SiteIndexView,
)
    requires
        wheels_in(first_keys) == wheels_in(second_keys),
        is_site_of(first, prefix, first_keys),
        is_site_of(second, prefix, second_keys),
        first.names == second.names,
    ensures
        first == second,
{
    lemma_only_wheels_are_indexed(first_keys);
    lemma_only_wheels_are_indexed(second_keys);
    assert(first.packages =~= second.packages);
}

/// No page is made for a package that has no wheel: every name of an index
/// is the package of some wheel key of the listing.
pub proof fn lemma_every_page_has_a_wheel(
    site: SiteIndexView,
    prefix: Seq<char>,
    keys: Seq<Seq<char>>,
    i: int,
)
    requires
        is_site_of(site, prefix, keys),
        0 <= i < site.names.len(),
    ensures
        exists|k: int|
            0 <= k < keys.len() && is_wheel_name(#[trigger] keys[k]) && belongs_to(
                keys[k],
                site.names[i],
            ),
{
    let name = site.names[i];
    let of_name = |key: Seq<char>| belongs_to(key, name);
    assert(groups_of(keys).dom().contains(name));
    let found = keys.filter(of_name);
    keys.lemma_filter_pred(of_name, 0);
    keys.lemma_filter_contains_rev(of_name, found[0]);
}

} // verus!
