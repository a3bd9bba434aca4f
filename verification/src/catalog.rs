//! The catalogue of configuration files: which entries of a directory
//! listing it holds and in what order, and which of them a query selects.

use crate::order::{path_before, path_leq, path_order, sort_paths};
use crate::paths::{
    display_name, extension, extension_of, file_name, file_name_of, shown_name,
};
use crate::text::{
    blank, contains_text, eq_ignoring_ascii_case, is_blank, lowercase_of, occurs_at, occurs_in,
    same_ignoring_ascii_case, to_lowercase,
};
use vstd::prelude::*;

verus! {

/// One child of a directory, as the listing of the directory reports it.
#[derive(Clone, Debug, PartialEq)]
pub struct DirEntry {
    /// The child's full path.
    pub path: String,
    /// Whether the child is a regular file.
    pub is_file: bool,
}

/// A directory entry as plain values.
pub struct DirEntryView {
    pub path: Seq<char>,
    pub is_file: bool,
}

impl View for DirEntry {
    type V = DirEntryView;

    open spec fn view(&self) -> DirEntryView {
        DirEntryView { path: self.path@, is_file: self.is_file }
    }
}

impl DeepView for DirEntry {
    type V = DirEntryView;

    open spec fn deep_view(&self) -> DirEntryView {
        self.view()
    }
}

/// The extension by which a configuration file is recognised.
pub open spec fn config_extension() -> Seq<char> {
    "json"@
}

/// The path names a file with the configuration extension, in any mix of
/// ASCII capital and small letters.
pub open spec fn has_config_extension(path: Seq<char>) -> bool {
    match extension_of(path) {
        Some(ext) => same_ignoring_ascii_case(ext, config_extension()),
        None => false,
    }
}

/// The entry is a configuration file: a regular file with the configuration extension.
pub open spec fn is_config(entry: DirEntryView) -> bool {
    entry.is_file && has_config_extension(entry.path)
}

/// `path` is the path of a configuration file of the listing.
pub open spec fn lists_config(listing: Seq<DirEntryView>, path: Seq<char>) -> bool {
    exists|i: int| 0 <= i < listing.len() && is_config(#[trigger] listing[i]) && listing[i].path == path
}

/// The paths of the configuration files of a listing, in the listing's order.
pub open spec fn config_paths(listing: Seq<DirEntryView>) -> Seq<Seq<char>>
    decreases listing.len(),
{
    if listing.len() == 0 {
        Seq::empty()
    } else {
        let rest = config_paths(listing.drop_last());
        if is_config(listing.last()) {
            rest.push(listing.last().path)
        } else {
            rest
        }
    }
}

/// The catalogue that a directory gives: the paths of its configuration files
/// in the listing order; empty where the directory could not be listed.
pub open spec fn catalogue_of(listing: Option<Seq<DirEntryView>>) -> Seq<Seq<char>> {
    match listing {
        Some(entries) => config_paths(entries).sort_by(path_order()),
        None => Seq::empty(),
    }
}

/// A listing, if there is one, as plain values.
pub open spec fn listing_view(listing: Option<Vec<DirEntry>>) -> Option<Seq<DirEntryView>> {
    match listing {
        Some(entries) => Some(entries.deep_view()),
        None => None,
    }
}

/// Tells whether `path` names a file with the configuration extension.
pub fn is_config_path(path: &str) -> (r: bool)
    ensures
        r == has_config_extension(path@),
{
    match extension(path) {
        Some(ext) => eq_ignoring_ascii_case(ext.as_str(), "json"),
        None => false,
    }
}

/// Builds the catalogue from the listing of a directory: `None` stands for a
/// directory that does not exist or cannot be read.
pub fn scan(listing: Option<Vec<DirEntry>>) -> (configs: Vec<String>)
    ensures
        configs.deep_view() == catalogue_of(listing_view(listing)),
        listing is None ==> configs.len() == 0,
        vstd::relations::sorted_by(configs.deep_view(), path_order()),
        listing is Some ==> configs.deep_view().to_multiset() == config_paths(
            listing->0.deep_view(),
        ).to_multiset(),
{
    match listing {
        None => {
            let configs: Vec<String> = Vec::new();
            assert(configs.deep_view() =~= Seq::<Seq<char>>::empty());
            configs
        },
        Some(entries) => {
            let ghost given = entries.deep_view();
            let mut found: Vec<String> = Vec::new();
            let mut i: usize = 0;
            assert(found.deep_view() =~= config_paths(given.take(0)));
            while i < entries.len()
                invariant
                    given == entries.deep_view(),
                    i <= entries.len(),
                    found.deep_view() == config_paths(given.take(i as int)),
                decreases entries.len() - i,
            {
                let ghost before = found.deep_view();
                let entry = &entries[i];
                assert(given.take(i + 1).drop_last() =~= given.take(i as int));
                assert(given.take(i + 1).last() == entry.deep_view());
                if entry.is_file && is_config_path(entry.path.as_str()) {
                    found.push(entry.path.clone());
                    assert(found.deep_view() =~= before.push(entry.path@));
                }
                i += 1;
            }
            assert(given.take(i as int) =~= given);
            sort_paths(&found)
        },
    }
}

/// The configuration paths of two listings put together are those of the
/// first followed by those of the second.
pub proof fn lemma_config_paths_of_concat(a: Seq<DirEntryView>, b: Seq<DirEntryView>)
    ensures
        config_paths(a + b) == config_paths(a) + config_paths(b),
    decreases b.len(),
{
    if b.len() == 0 {
        assert(a + b =~= a);
        assert(config_paths(a) + config_paths(b) =~= config_paths(a));
    } else {
        lemma_config_paths_of_concat(a, b.drop_last());
        assert((a + b).drop_last() =~= a + b.drop_last());
        assert((a + b).last() == b.last());
        if is_config(b.last()) {
            assert(config_paths(a) + config_paths(b.drop_last()).push(b.last().path) =~= (
            config_paths(a) + config_paths(b.drop_last())).push(b.last().path));
        }
    }
}

/// Two listings with the same entries, in whatever order, hold the same
/// configuration paths, each as often as the other.
pub proof fn lemma_config_paths_of_permutation(a: Seq<DirEntryView>, b: Seq<DirEntryView>)
    requires
        a.to_multiset() == b.to_multiset(),
    ensures
        config_paths(a).to_multiset() == config_paths(b).to_multiset(),
    decreases a.len(),
{
    broadcast use vstd::seq_lib::group_to_multiset_ensures;

    if a.len() == 0 {
        assert(b.to_multiset().len() == b.len());
        assert(a.to_multiset().len() == a.len());
        assert(a =~= b);
    } else {
        let x = a.last();
        assert(a.to_multiset().count(x) > 0) by {
            assert(a[a.len() - 1] == x);
            assert(a.contains(x));
        }
        assert(b.contains(x));
        let j = choose|j: int| 0 <= j < b.len() && b[j] == x;
        let head = b.take(j);
        let tail = b.skip(j + 1);
        let rest = b.remove(j);
        assert(rest =~= head + tail);
        assert(b =~= head + seq![x] + tail);
        assert(a.drop_last() =~= a.remove(a.len() - 1));
        assert(a.drop_last().to_multiset() =~= rest.to_multiset());
        lemma_config_paths_of_permutation(a.drop_last(), rest);
        lemma_config_paths_of_concat(head, tail);
        lemma_config_paths_of_concat(head, seq![x]);
        lemma_config_paths_of_concat(head + seq![x], tail);
        let one = config_paths(seq![x]);
        assert(seq![x].drop_last() =~= Seq::<DirEntryView>::empty());
        assert(config_paths(Seq::<DirEntryView>::empty()) =~= Seq::<Seq<char>>::empty());
        assert(seq![x].last() == x);
        assert(one =~= if is_config(x) {
            seq![x.path]
        } else {
            Seq::<Seq<char>>::empty()
        });
        vstd::seq_lib::lemma_multiset_commutative(config_paths(head), config_paths(tail));
        vstd::seq_lib::lemma_multiset_commutative(config_paths(head), one);
        vstd::seq_lib::lemma_multiset_commutative(config_paths(head) + one, config_paths(tail));
        if is_config(x) {
            assert(config_paths(a) =~= config_paths(a.drop_last()) + one);
            vstd::seq_lib::lemma_multiset_commutative(config_paths(a.drop_last()), one);
            assert(config_paths(a).to_multiset() =~= config_paths(b).to_multiset());
        } else {
            assert(config_paths(head) + one =~= config_paths(head));
        }
    }
}

/// The catalogue of a listing is in the listing order and holds the
/// configuration paths of the listing, each as often as the listing does.
pub proof fn lemma_catalogue_sorted(listing: Seq<DirEntryView>)
    ensures
        vstd::relations::sorted_by(catalogue_of(Some(listing)), path_order()),
        catalogue_of(Some(listing)).to_multiset() == config_paths(listing).to_multiset(),
{
    crate::order::lemma_path_order_total();
    config_paths(listing).lemma_sort_by_ensures(path_order());
}

/// A rescan of a directory that has not changed gives the same catalogue,
/// in whatever order the system lists the directory.
pub proof fn lemma_rescan_unchanged(first: Seq<DirEntryView>, second: Seq<DirEntryView>)
    requires
        first.to_multiset() == second.to_multiset(),
    ensures
        catalogue_of(Some(first)) == catalogue_of(Some(second)),
{
    crate::order::lemma_path_order_total();
    lemma_config_paths_of_permutation(first, second);
    lemma_catalogue_sorted(first);
    lemma_catalogue_sorted(second);
    vstd::seq_lib::lemma_sorted_unique(
        catalogue_of(Some(first)),
        catalogue_of(Some(second)),
        path_order(),
    );
}

/// The place of a path in a catalogue: the number of leading entries that the
/// path does not come before.
pub open spec fn insertion_point(catalogue: Seq<Seq<char>>, path: Seq<char>) -> nat
    decreases catalogue.len(),
{
    if catalogue.len() == 0 || path_before(path, catalogue[0]) {
        0
    } else {
        1 + insertion_point(catalogue.drop_first(), path)
    }
}

/// In a catalogue in the listing order, the entries before the insertion
/// point of a path come no later than the path, and the path comes before all the others.
pub proof fn lemma_insertion_point(catalogue: Seq<Seq<char>>, path: Seq<char>)
    requires
        vstd::relations::sorted_by(catalogue, path_order()),
    ensures
        insertion_point(catalogue, path) <= catalogue.len(),
        forall|j: int|
            0 <= j < insertion_point(catalogue, path) ==> path_leq(#[trigger] catalogue[j], path),
        forall|j: int|
            insertion_point(catalogue, path) <= j < catalogue.len() ==> path_before(
                path,
                #[trigger] catalogue[j],
            ),
    decreases catalogue.len(),
{
    crate::order::lemma_path_order_total();
    let r = path_order();
    if catalogue.len() == 0 {
    } else if path_before(path, catalogue[0]) {
        assert forall|j: int| 0 <= j < catalogue.len() implies path_before(
            path,
            #[trigger] catalogue[j],
        ) by {
            if j > 0 {
                assert(r(catalogue[0], catalogue[j]));
            }
            assert(r(path, catalogue[0]));
            assert(r(path, catalogue[j]));
            if path == catalogue[j] {
                assert(r(catalogue[0], path));
            }
        }
    } else {
        let rest = catalogue.drop_first();
        assert forall|i: int, j: int| 0 <= i < j < rest.len() implies #[trigger] r(
            rest[i],
            rest[j],
        ) by {
            assert(r(catalogue[i + 1], catalogue[j + 1]));
        }
        lemma_insertion_point(rest, path);
        let k = insertion_point(catalogue, path);
        assert forall|j: int| 0 <= j < k implies path_leq(#[trigger] catalogue[j], path) by {
            if j == 0 {
                assert(r(path, catalogue[0]) || r(catalogue[0], path));
            } else {
                assert(catalogue[j] == rest[j - 1]);
            }
        }
        assert forall|j: int| k <= j < catalogue.len() implies path_before(
            path,
            #[trigger] catalogue[j],
        ) by {
            assert(catalogue[j] == rest[j - 1]);
        }
    }
}

/// A rescan after a file was added to the directory gives the catalogue of
/// before with the new file's path at its place in the listing order, and
/// nothing else changed; a new file that is no configuration file changes nothing.
pub proof fn lemma_rescan_with_added_file(listing: Seq<DirEntryView>, added: DirEntryView)
    ensures
        ({
            let before = catalogue_of(Some(listing));
            let after = catalogue_of(Some(listing.push(added)));
            if is_config(added) {
                after == before.insert(insertion_point(before, added.path) as int, added.path)
            } else {
                after == before
            }
        }),
        is_config(added) && !catalogue_of(Some(listing)).contains(added.path) ==> catalogue_of(
            Some(listing.push(added)),
        ).to_multiset().count(added.path) == 1,
{
    broadcast use vstd::seq_lib::group_to_multiset_ensures;

    crate::order::lemma_path_order_total();
    let r = path_order();
    let before = catalogue_of(Some(listing));
    let after = catalogue_of(Some(listing.push(added)));
    assert(listing.push(added).drop_last() =~= listing);
    if is_config(added) {
        let p = added.path;
        let k = insertion_point(before, p) as int;
        let inserted = before.insert(k, p);
        lemma_catalogue_sorted(listing);
        lemma_catalogue_sorted(listing.push(added));
        lemma_insertion_point(before, p);
        assert forall|i: int, j: int| 0 <= i < j < inserted.len() implies #[trigger] r(
            inserted[i],
            inserted[j],
        ) by {
            if j == k {
                assert(path_leq(before[i], p));
            } else if i == k {
                assert(path_before(p, before[j - 1]));
            } else {
                assert(r(
                    before[if i < k { i } else { i - 1 }],
                    before[if j < k { j } else { j - 1 }],
                ));
            }
        }
        vstd::seq_lib::to_multiset_insert(before, k, p);
        vstd::seq_lib::to_multiset_build(config_paths(listing), p);
        vstd::seq_lib::lemma_sorted_unique(after, inserted, r);
        if !before.contains(p) {
            assert(before.to_multiset().count(p) == 0);
        }
    }
}

/// The configuration paths of a listing are the paths of its configuration files.
pub proof fn lemma_config_paths_membership(listing: Seq<DirEntryView>, path: Seq<char>)
    ensures
        config_paths(listing).contains(path) <==> lists_config(listing, path),
    decreases listing.len(),
{
    if listing.len() > 0 {
        let rest = listing.drop_last();
        let last = listing.len() - 1;
        lemma_config_paths_membership(rest, path);
        let paths = config_paths(listing);
        if paths.contains(path) {
            let k = choose|k: int| 0 <= k < paths.len() && paths[k] == path;
            if k < config_paths(rest).len() {
                assert(config_paths(rest)[k] == path);
                assert(config_paths(rest).contains(path));
                let i = choose|i: int|
                    0 <= i < rest.len() && is_config(#[trigger] rest[i]) && rest[i].path == path;
                assert(listing[i] == rest[i]);
            } else {
                assert(is_config(listing[last]) && listing[last].path == path);
            }
        }
        if lists_config(listing, path) {
            let i = choose|i: int|
                0 <= i < listing.len() && is_config(#[trigger] listing[i]) && listing[i].path
                    == path;
            if i < last {
                assert(rest[i] == listing[i]);
                assert(lists_config(rest, path));
                let k = choose|k: int|
                    0 <= k < config_paths(rest).len() && config_paths(rest)[k] == path;
                assert(paths[k] == path);
            } else {
                assert(paths[paths.len() - 1] == path);
            }
        }
    }
}

/// The catalogue holds a path exactly if the listing holds a configuration
/// file of that path: nothing else comes in, and no configuration file is left out.
pub proof fn lemma_catalogue_membership(listing: Seq<DirEntryView>, path: Seq<char>)
    ensures
        catalogue_of(Some(listing)).contains(path) <==> lists_config(listing, path),
{
    lemma_catalogue_sorted(listing);
    lemma_config_paths_membership(listing, path);
    vstd::seq_lib::to_multiset_contains(catalogue_of(Some(listing)), path);
    vstd::seq_lib::to_multiset_contains(config_paths(listing), path);
}

/// A directory holds no two children of one path, and then the catalogue
/// holds no path twice.
pub proof fn lemma_catalogue_has_no_duplicates(listing: Seq<DirEntryView>)
    requires
        forall|i: int, j: int|
            0 <= i < j < listing.len() ==> (#[trigger] listing[i]).path != (
            #[trigger] listing[j]).path,
    ensures
        catalogue_of(Some(listing)).no_duplicates(),
{
    lemma_config_paths_distinct(listing);
    lemma_catalogue_sorted(listing);
    config_paths(listing).lemma_multiset_has_no_duplicates();
    catalogue_of(Some(listing)).lemma_multiset_has_no_duplicates_conv();
}

/// The configuration paths of a listing are the paths of its configuration
/// files, and a listing of distinct paths holds distinct configuration paths.
pub proof fn lemma_config_paths_distinct(listing: Seq<DirEntryView>)
    requires
        forall|i: int, j: int|
            0 <= i < j < listing.len() ==> (#[trigger] listing[i]).path != (
            #[trigger] listing[j]).path,
    ensures
        config_paths(listing).no_duplicates(),
        forall|k: int|
            0 <= k < config_paths(listing).len() ==> lists_config(
                listing,
                #[trigger] config_paths(listing)[k],
            ),
    decreases listing.len(),
{
    if listing.len() > 0 {
        let rest = listing.drop_last();
        let last = listing.len() - 1;
        assert forall|i: int, j: int| 0 <= i < j < rest.len() implies (#[trigger] rest[i]).path != (
        #[trigger] rest[j]).path by {
            assert(rest[i] == listing[i] && rest[j] == listing[j]);
        }
        lemma_config_paths_distinct(rest);
        let paths = config_paths(listing);
        assert forall|k: int| 0 <= k < config_paths(rest).len() implies lists_config(
            listing,
            #[trigger] config_paths(rest)[k],
        ) && config_paths(rest)[k] != listing[last].path by {
            assert(lists_config(rest, config_paths(rest)[k]));
            let i = choose|i: int|
                0 <= i < rest.len() && is_config(#[trigger] rest[i]) && rest[i].path
                    == config_paths(rest)[k];
            assert(listing[i] == rest[i]);
            assert(listing[i].path != listing[last].path);
        }
        if is_config(listing.last()) {
            assert(is_config(listing[last]));
            assert(lists_config(listing, listing[last].path));
        }
    }
}

/// What the catalogue says of a scan: where it found nothing it names the
/// scanned directory, else it is silent.
pub open spec fn status_of_scan(directory: Seq<char>, configs: Seq<Seq<char>>) -> Seq<char> {
    if configs.len() == 0 {
        "No .json configs found in "@ + directory
    } else {
        Seq::empty()
    }
}

/// The status of a scan that found nothing is not empty and holds the path
/// of the scanned directory.
pub proof fn lemma_empty_scan_status_names_directory(directory: Seq<char>)
    ensures
        status_of_scan(directory, Seq::empty()).len() > 0,
        occurs_in(directory, status_of_scan(directory, Seq::empty())),
{
    reveal_strlit("No .json configs found in ");
    let lead = "No .json configs found in "@;
    let status = status_of_scan(directory, Seq::empty());
    assert(status.subrange(lead.len() as int, (lead.len() + directory.len()) as int) =~= directory);
    assert(occurs_at(directory, status, lead.len() as int));
}

/// The status text after a scan of `directory` that found `configs`.
pub fn scan_status(directory: &str, configs: &Vec<String>) -> (status: String)
    ensures
        status@ == status_of_scan(directory@, configs.deep_view()),
{
    if configs.len() == 0 {
        String::from_str("No .json configs found in ").concat(directory)
    } else {
        String::new()
    }
}

/// The label of an entry in the list of configurations: its file name, or a
/// placeholder where the path has none.
pub open spec fn row_label_of(path: Seq<char>) -> Seq<char> {
    match file_name_of(path) {
        Some(name) => name,
        None => "<invalid>"@,
    }
}

/// The label under which the entry `path` is listed.
pub fn row_label(path: &str) -> (label: String)
    ensures
        label@ == row_label_of(path@),
{
    match file_name(path) {
        Some(name) => name,
        None => String::from_str("<invalid>"),
    }
}

/// Every index below `n`, ascending.
pub open spec fn all_indices(n: nat) -> Seq<usize> {
    Seq::new(n, |i: int| i as usize)
}

/// The indices of the names in which `needle` occurs, ascending.
pub open spec fn containing(names: Seq<Seq<char>>, needle: Seq<char>) -> Seq<usize>
    decreases names.len(),
{
    if names.len() == 0 {
        Seq::empty()
    } else {
        let rest = containing(names.drop_last(), needle);
        if occurs_in(needle, names.last()) {
            rest.push((names.len() - 1) as usize)
        } else {
            rest
        }
    }
}

/// The texts in which a query is searched: the file name of each entry, in lower case.
pub open spec fn search_names(entries: Seq<Seq<char>>) -> Seq<Seq<char>> {
    Seq::new(entries.len(), |i: int| lowercase_of(shown_name(entries[i])))
}

/// The indices that a query selects: all of them for a blank query, else those
/// of the entries whose file name holds the query, both taken in lower case.
pub open spec fn filtered(entries: Seq<Seq<char>>, query: Seq<char>) -> Seq<usize> {
    if is_blank(query) {
        all_indices(entries.len())
    } else {
        containing(search_names(entries), lowercase_of(query))
    }
}

/// The indices that a search returns are those of the names in which the
/// needle occurs, each once and in ascending order.
pub proof fn lemma_containing_ascending(names: Seq<Seq<char>>, needle: Seq<char>)
    requires
        names.len() <= usize::MAX,
    ensures
        forall|k: int|
            0 <= k < containing(names, needle).len() ==> (#[trigger] containing(names, needle)[k])
                < names.len() && occurs_in(needle, names[containing(names, needle)[k] as int]),
        forall|k: int, l: int|
            0 <= k < l < containing(names, needle).len() ==> containing(names, needle)[k]
                < containing(names, needle)[l],
        forall|i: int|
            0 <= i < names.len() && occurs_in(needle, #[trigger] names[i]) ==> containing(
                names,
                needle,
            ).contains(i as usize),
    decreases names.len(),
{
    if names.len() > 0 {
        let rest = names.drop_last();
        let found = containing(names, needle);
        let last = (names.len() - 1) as usize;
        lemma_containing_ascending(rest, needle);
        assert forall|i: int| 0 <= i < names.len() && occurs_in(needle, #[trigger] names[i])
            implies found.contains(i as usize) by {
            if i < rest.len() {
                assert(occurs_in(needle, rest[i]));
                let k = choose|k: int|
                    0 <= k < containing(rest, needle).len() && containing(rest, needle)[k] == i as usize;
                assert(found[k] == i as usize);
            } else {
                assert(found[found.len() - 1] == last);
            }
        }
        assert forall|k: int| 0 <= k < found.len() implies (#[trigger] found[k]) < names.len()
            && occurs_in(needle, names[found[k] as int]) by {
            if k < containing(rest, needle).len() {
                assert(found[k] == containing(rest, needle)[k]);
                assert(names[found[k] as int] == rest[found[k] as int]);
            }
        }
    }
}

/// Whatever the query, the selected indices point into the entries and ascend.
pub proof fn lemma_filtered_ascending(entries: Seq<Seq<char>>, query: Seq<char>)
    requires
        entries.len() <= usize::MAX,
    ensures
        forall|k: int|
            0 <= k < filtered(entries, query).len() ==> (#[trigger] filtered(entries, query)[k])
                < entries.len(),
        forall|k: int, l: int|
            0 <= k < l < filtered(entries, query).len() ==> filtered(entries, query)[k] < filtered(
                entries,
                query,
            )[l],
{
    lemma_containing_ascending(search_names(entries), lowercase_of(query));
}

/// A blank query selects every entry, in the catalogue's order; the empty query is blank.
pub proof fn lemma_blank_query_selects_all(entries: Seq<Seq<char>>, query: Seq<char>)
    requires
        is_blank(query),
    ensures
        filtered(entries, query) == all_indices(entries.len()),
        filtered(entries, Seq::empty()) == all_indices(entries.len()),
        forall|i: int| 0 <= i < entries.len() ==> #[trigger] filtered(entries, query)[i] == i as usize,
{
}

/// The indices of the names in which `needle` occurs, ascending.
pub fn indices_containing(names: &Vec<String>, needle: &str) -> (indices: Vec<usize>)
    ensures
        indices@ == containing(names.deep_view(), needle@),
{
    let ghost given = names.deep_view();
    let mut indices: Vec<usize> = Vec::new();
    let mut i: usize = 0;
    assert(given.take(0) =~= Seq::<Seq<char>>::empty());
    while i < names.len()
        invariant
            given == names.deep_view(),
            i <= names.len(),
            indices@ == containing(given.take(i as int), needle@),
        decreases names.len() - i,
    {
        assert(given.take(i + 1).drop_last() =~= given.take(i as int));
        assert(given.take(i + 1).last() == names[i as int]@);
        if contains_text(names[i].as_str(), needle) {
            indices.push(i);
        }
        i += 1;
    }
    assert(given.take(i as int) =~= given);
    indices
}

/// The indices of the entries that `query` selects, in their order.
pub fn filter(entries: &Vec<String>, query: &str) -> (indices: Vec<usize>)
    ensures
        indices@ == filtered(entries.deep_view(), query@),
        is_blank(query@) ==> indices@ == all_indices(entries.len() as nat),
        forall|k: int| 0 <= k < indices.len() ==> (#[trigger] indices[k]) < entries.len(),
        forall|k: int, l: int| 0 <= k < l < indices.len() ==> indices[k] < indices[l],
{
    proof {
        assert(entries.deep_view().len() == entries.len());
        lemma_filtered_ascending(entries.deep_view(), query@);
    }
    if blank(query) {
        let mut indices: Vec<usize> = Vec::new();
        let mut i: usize = 0;
        while i < entries.len()
            invariant
                i <= entries.len(),
                indices@ == all_indices(i as nat),
            decreases entries.len() - i,
        {
            indices.push(i);
            assert(indices@ =~= all_indices((i + 1) as nat));
            i += 1;
        }
        assert(entries.deep_view().len() == entries.len());
        indices
    } else {
        let needle = to_lowercase(query);
        let mut names: Vec<String> = Vec::new();
        let mut i: usize = 0;
        while i < entries.len()
            invariant
                i <= entries.len(),
                names.len() == i,
                forall|j: int|
                    0 <= j < i ==> #[trigger] names[j]@ == lowercase_of(shown_name(entries[j]@)),
            decreases entries.len() - i,
        {
            let name = display_name(entries[i].as_str());
            names.push(to_lowercase(name.as_str()));
            i += 1;
        }
        assert(names.deep_view() =~= search_names(entries.deep_view()));
        indices_containing(&names, needle.as_str())
    }
}

} // verus!
