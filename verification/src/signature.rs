//! Folder signatures: which files a directory tree holds, each with the
//! digest of its content, and which of them a peer lacks.

use vstd::prelude::*;

verus! {

/// One file of a signature: its root-relative path and its content's digest.
#[derive(Clone, Debug, PartialEq, Eq)]
pub struct FolderEntry {
    pub path: String,
    pub hash: String,
}

/// What a `FolderEntry` says. Two entries are the same when both texts are.
pub struct FolderEntryView {
    pub path: Seq<char>,
    pub hash: Seq<char>,
}

impl View for FolderEntry {
    type V = FolderEntryView;

    open spec fn view(&self) -> FolderEntryView {
        FolderEntryView { path: self.path@, hash: self.hash@ }
    }
}

/// The texts of a list of strings.
pub open spec fn texts(strings: Seq<String>) -> Seq<Seq<char>> {
    strings.map_values(|s: String| s@)
}

/// What a list of entries says.
pub open spec fn entry_views(entries: Seq<FolderEntry>) -> Seq<FolderEntryView> {
    entries.map_values(|e: FolderEntry| e@)
}

/// The entries that name each path of `paths` with the digest at its place
/// in `hashes`.
pub open spec fn paired(paths: Seq<Seq<char>>, hashes: Seq<Seq<char>>) -> Seq<FolderEntryView> {
    Seq::new(paths.len(), |i: int| FolderEntryView { path: paths[i], hash: hashes[i] })
}

/// Some entry has this path.
pub open spec fn has_path(entries: Seq<FolderEntryView>, path: Seq<char>) -> bool {
    exists|i: int| 0 <= i < entries.len() && (#[trigger] entries[i]).path == path
}

/// No two entries share a path.
pub open spec fn unique_paths(entries: Seq<FolderEntryView>) -> bool {
    forall|i: int, j: int|
        0 <= i < j < entries.len() ==> (#[trigger] entries[i]).path != (#[trigger] entries[j]).path
}

/// The paths that the holder of `local` must transfer to the holder of
/// `remote`: those of the entries of `local`, in their order, that `remote`
/// does not hold with the same path and the same digest.
pub open spec fn new_and_changed_spec(
    local: Seq<FolderEntryView>,
    remote: Seq<FolderEntryView>,
) -> Seq<Seq<char>> {
    local.filter(|e: FolderEntryView| !remote.contains(e)).map_values(|e: FolderEntryView| e.path)
}

impl FolderEntry {
    /// The entry for the file at `path` whose content has the digest `hash`.
    pub fn new(path: String, hash: String) -> (entry: FolderEntry)
        ensures
            entry@ == (FolderEntryView { path: path@, hash: hash@ }),
    {
        FolderEntry { path, hash }
    }

    /// Whether two entries name the same path with the same digest.
    pub fn same_as(&self, other: &FolderEntry) -> (same: bool)
        ensures
            same == (self@ == other@),
    {
        self.path == other.path && self.hash == other.hash
    }
}

/// The signature of a directory tree: its files in the order of the walk,
/// no path twice.
#[derive(Debug, PartialEq, Eq)]
pub struct FolderSignature {
    entries: Vec<FolderEntry>,
}

impl View for FolderSignature {
    type V = Seq<FolderEntryView>;

    closed spec fn view(&self) -> Seq<FolderEntryView> {
        entry_views(self.entries@)
    }
}

impl FolderSignature {
    #[verifier::type_invariant]
    spec fn well_formed(self) -> bool {
        unique_paths(entry_views(self.entries@))
    }

    /// The signature of an empty tree.
    pub fn new() -> (signature: FolderSignature)
        ensures
            signature@ == Seq::<FolderEntryView>::empty(),
    {
        FolderSignature { entries: Vec::new() }
    }

    /// The entries, in their order.
    pub fn entries(&self) -> (entries: &Vec<FolderEntry>)
        ensures
            entry_views(entries@) == self@,
            unique_paths(self@),
    {
        proof {
            use_type_invariant(self);
        }
        &self.entries
    }

    /// Whether some entry has this path.
    pub fn contains_path(&self, path: &String) -> (found: bool)
        ensures
            found == has_path(self@, path@),
    {
        let mut i: usize = 0;
        while i < self.entries.len()
            invariant
                i <= self.entries.len(),
                forall|k: int| 0 <= k < i ==> (#[trigger] self@[k]).path != path@,
                self@ == entry_views(self.entries@),
            decreases self.entries.len() - i,
        {
            if self.entries[i].path == *path {
                assert(self@[i as int].path == path@);
                return true;
            }
            i += 1;
        }
        false
    }

    /// Adds `entry` at the end, unless an entry with its path is there
    /// already: then the signature stays as it is.
    pub fn add_entry(&mut self, entry: FolderEntry) -> (added: bool)
        ensures
            added == !has_path(old(self)@, entry.path@),
            added ==> final(self)@ == old(self)@.push(entry@),
            !added ==> final(self)@ == old(self)@,
    {
        proof {
            use_type_invariant(&*self);
        }
        if self.contains_path(&entry.path) {
            return false;
        }
        let mut taken = FolderSignature::new();
        core::mem::swap(self, &mut taken);
        let mut entries = taken.entries;
        let ghost before = entries@;
        let ghost view = entry@;
        entries.push(entry);
        proof {
            assert(entry_views(entries@) =~= entry_views(before).push(view));
        }
        *self = FolderSignature { entries };
        true
    }

    /// The signature with these entries, if no two of them share a path.
    pub fn from_entries(entries: Vec<FolderEntry>) -> (signature: Option<FolderSignature>)
        ensures
            signature is Some <==> unique_paths(entry_views(entries@)),
            signature matches Some(s) ==> s@ == entry_views(entries@),
    {
        let ghost all = entry_views(entries@);
        let mut i: usize = 0;
        while i < entries.len()
            invariant
                i <= entries.len(),
                all == entry_views(entries@),
                unique_paths(all.take(i as int)),
            decreases entries.len() - i,
        {
            let mut j: usize = 0;
            while j < i
                invariant
                    j <= i < entries.len(),
                    all == entry_views(entries@),
                    forall|k: int| 0 <= k < j ==> (#[trigger] all[k]).path != all[i as int].path,
                decreases i - j,
            {
                if entries[j].path == entries[i].path {
                    assert(all[j as int].path == all[i as int].path);
                    return None;
                }
                j += 1;
            }
            assert(all.take(i + 1) =~= all.take(i as int).push(all[i as int]));
            i += 1;
        }
        assert(all.take(entries.len() as int) =~= all);
        Some(FolderSignature { entries })
    }

    /// The signature of the files at `paths`, in their order, where
    /// `hashes` holds the digest of each file's content at its place. There
    /// is none where the two lists differ in length or a path comes twice.
    pub fn create_sig_files(paths: &Vec<String>, hashes: &Vec<String>) -> (signature: Option<
        FolderSignature,
    >)
        ensures
            signature is Some <==> paths@.len() == hashes@.len() && texts(paths@).no_duplicates(),
            signature matches Some(s) ==> s@ == paired(texts(paths@), texts(hashes@)),
    {
        if paths.len() != hashes.len() {
            return None;
        }
        let ghost all = paired(texts(paths@), texts(hashes@));
        let mut signature = FolderSignature::new();
        let mut i: usize = 0;
        assert(all.take(0) =~= Seq::empty());
        while i < paths.len()
            invariant
                i <= paths@.len() == hashes@.len(),
                all == paired(texts(paths@), texts(hashes@)),
                signature@ == all.take(i as int),
                texts(paths@).take(i as int).no_duplicates(),
            decreases paths.len() - i,
        {
            let entry = FolderEntry::new(paths[i].clone(), hashes[i].clone());
            assert(entry@ == all[i as int]);
            let ghost before = signature@;
            let added = signature.add_entry(entry);
            if !added {
                proof {
                    let j = choose|j: int|
                        0 <= j < before.len() && (#[trigger] before[j]).path == all[i as int].path;
                    assert(before[j] == all[j]);
                    assert(texts(paths@)[j] == texts(paths@)[i as int]);
                }
                return None;
            }
            proof {
                assert(signature@ =~= all.take(i + 1));
                let upto = texts(paths@).take(i + 1);
                assert forall|a: int, b: int| 0 <= a < upto.len() && 0 <= b < upto.len() && a
                    != b implies upto[a] != upto[b] by {
                    let earlier = texts(paths@).take(i as int);
                    if a < i && b < i {
                        assert(earlier[a] != earlier[b]);
                    } else {
                        let other = if a < i { a } else { b };
                        assert(before[other] == all[other]);
                        assert(before[other].path == texts(paths@)[other]);
                    }
                }
            }
            i += 1;
        }
        assert(all.take(paths.len() as int) =~= all);
        assert(texts(paths@).take(paths.len() as int) =~= texts(paths@));
        Some(signature)
    }

    /// Whether the signature holds an entry with the path and the digest of
    /// `entry`.
    pub fn contains(&self, entry: &FolderEntry) -> (found: bool)
        ensures
            found == self@.contains(entry@),
    {
        let mut i: usize = 0;
        while i < self.entries.len()
            invariant
                i <= self.entries.len(),
                forall|k: int| 0 <= k < i ==> #[trigger] self@[k] != entry@,
                self@ == entry_views(self.entries@),
            decreases self.entries.len() - i,
        {
            if self.entries[i].same_as(entry) {
                assert(self@[i as int] == entry@);
                return true;
            }
            i += 1;
        }
        false
    }

    /// The paths of the files that are new or changed here with respect to
    /// `other`: what the holder of this signature must send, each path once.
    pub fn new_and_changed(&self, other: &FolderSignature) -> (paths: Vec<String>)
        ensures
            texts(paths@) == new_and_changed_spec(self@, other@),
            texts(paths@).no_duplicates(),
    {
        let mut paths: Vec<String> = Vec::new();
        let mut i: usize = 0;
        assert(self@.take(0) =~= Seq::empty());
        while i < self.entries.len()
            invariant
                i <= self.entries.len(),
                self@ == entry_views(self.entries@),
                texts(paths@) == new_and_changed_spec(self@.take(i as int), other@),
            decreases self.entries.len() - i,
        {
            let entry = &self.entries[i];
            let ghost absent = |e: FolderEntryView| !other@.contains(e);
            let ghost before = self@.take(i as int);
            proof {
                assert(self@.take(i + 1) =~= before.push(entry@));
                assert(before.push(entry@).drop_last() =~= before);
                reveal(Seq::filter);
            }
            if !other.contains(entry) {
                let ghost earlier = paths@;
                paths.push(entry.path.clone());
                proof {
                    assert(texts(paths@) =~= texts(earlier).push(entry@.path));
                    assert(before.push(entry@).filter(absent) == before.filter(absent).push(entry@));
                    assert(before.filter(absent).push(entry@).map_values(
                        |e: FolderEntryView| e.path,
                    ) =~= before.filter(absent).map_values(|e: FolderEntryView| e.path).push(
                        entry@.path,
                    ));
                }
            } else {
                assert(before.push(entry@).filter(absent) == before.filter(absent));
            }
            i += 1;
        }
        proof {
            assert(self@.take(self.entries.len() as int) =~= self@);
            use_type_invariant(self);
            lemma_diff_has_no_duplicates(self@, other@);
        }
        paths
    }
}

/// A path is reported exactly when `local` holds an entry with that path
/// which `remote` does not hold.
pub proof fn lemma_diff_membership(
    local: Seq<FolderEntryView>,
    remote: Seq<FolderEntryView>,
    path: Seq<char>,
)
    ensures
        new_and_changed_spec(local, remote).contains(path) <==> exists|i: int|
            0 <= i < local.len() && (#[trigger] local[i]).path == path && !remote.contains(
                local[i],
            ),
{
    let absent = |e: FolderEntryView| !remote.contains(e);
    let kept = local.filter(absent);
    let paths = new_and_changed_spec(local, remote);
    assert(paths == kept.map_values(|e: FolderEntryView| e.path));
    if paths.contains(path) {
        let k = choose|k: int| 0 <= k < paths.len() && paths[k] == path;
        local.lemma_filter_pred(absent, k);
        assert(kept.contains(kept[k]));
        local.lemma_filter_contains_rev(absent, kept[k]);
        let i = choose|i: int| 0 <= i < local.len() && local[i] == kept[k];
        assert(local[i].path == path && !remote.contains(local[i]));
    }
    if exists|i: int|
        0 <= i < local.len() && (#[trigger] local[i]).path == path && !remote.contains(local[i]) {
        let i = choose|i: int|
            0 <= i < local.len() && (#[trigger] local[i]).path == path && !remote.contains(
                local[i],
            );
        local.lemma_filter_contains(absent, i);
        let k = choose|k: int| 0 <= k < kept.len() && kept[k] == local[i];
        assert(paths[k] == path);
    }
}

/// A signature has nothing new or changed with respect to itself.
pub proof fn lemma_diff_reflexive(catalog: Seq<FolderEntryView>)
    ensures
        new_and_changed_spec(catalog, catalog) == Seq::<Seq<char>>::empty(),
{
    let paths = new_and_changed_spec(catalog, catalog);
    if paths.len() > 0 {
        assert(paths.contains(paths[0]));
        lemma_diff_membership(catalog, catalog, paths[0]);
    }
    assert(paths =~= Seq::empty());
}

/// A file that both sides hold under one path, with different digests, is
/// reported.
pub proof fn lemma_diff_reports_changed(
    local: Seq<FolderEntryView>,
    remote: Seq<FolderEntryView>,
    path: Seq<char>,
    local_hash: Seq<char>,
    remote_hash: Seq<char>,
)
    requires
        unique_paths(remote),
        local.contains(FolderEntryView { path, hash: local_hash }),
        remote.contains(FolderEntryView { path, hash: remote_hash }),
        local_hash != remote_hash,
    ensures
        new_and_changed_spec(local, remote).contains(path),
{
    let mine = FolderEntryView { path, hash: local_hash };
    let theirs = FolderEntryView { path, hash: remote_hash };
    let i = choose|i: int| 0 <= i < local.len() && local[i] == mine;
    let j = choose|j: int| 0 <= j < remote.len() && remote[j] == theirs;
    if remote.contains(mine) {
        let k = choose|k: int| 0 <= k < remote.len() && remote[k] == mine;
        assert(remote[k].path == remote[j].path);
    }
    assert(local[i].path == path && !remote.contains(local[i]));
    lemma_diff_membership(local, remote, path);
}

/// A file that only the local side holds is reported.
pub proof fn lemma_diff_reports_new(
    local: Seq<FolderEntryView>,
    remote: Seq<FolderEntryView>,
    path: Seq<char>,
    hash: Seq<char>,
)
    requires
        local.contains(FolderEntryView { path, hash }),
        !has_path(remote, path),
    ensures
        new_and_changed_spec(local, remote).contains(path),
{
    let mine = FolderEntryView { path, hash };
    let i = choose|i: int| 0 <= i < local.len() && local[i] == mine;
    if remote.contains(mine) {
        let k = choose|k: int| 0 <= k < remote.len() && remote[k] == mine;
        assert(remote[k].path == path);
    }
    assert(local[i].path == path && !remote.contains(local[i]));
    lemma_diff_membership(local, remote, path);
}

/// A path that the local side does not hold is never reported, whatever the
/// remote side holds under it: nothing is ever asked to be deleted.
pub proof fn lemma_diff_never_reports_missing(
    local: Seq<FolderEntryView>,
    remote: Seq<FolderEntryView>,
    path: Seq<char>,
)
    requires
        !has_path(local, path),
    ensures
        !new_and_changed_spec(local, remote).contains(path),
{
    lemma_diff_membership(local, remote, path);
}

/// No path is reported twice.
pub proof fn lemma_diff_has_no_duplicates(
    local: Seq<FolderEntryView>,
    remote: Seq<FolderEntryView>,
)
    requires
        unique_paths(local),
    ensures
        new_and_changed_spec(local, remote).no_duplicates(),
    decreases local.len(),
{
    let absent = |e: FolderEntryView| !remote.contains(e);
    let path_of = |e: FolderEntryView| e.path;
    reveal(Seq::filter);
    if local.len() > 0 {
        let earlier = local.drop_last();
        let last = local.last();
        lemma_diff_has_no_duplicates(earlier, remote);
        let before = new_and_changed_spec(earlier, remote);
        if absent(last) {
            assert(local.filter(absent) == earlier.filter(absent).push(last));
            assert(new_and_changed_spec(local, remote) =~= before.push(last.path));
            if before.contains(last.path) {
                lemma_diff_membership(earlier, remote, last.path);
                let i = choose|i: int|
                    0 <= i < earlier.len() && (#[trigger] earlier[i]).path == last.path
                        && !remote.contains(earlier[i]);
                assert(local[i].path == local[local.len() - 1].path);
            }
        } else {
            assert(local.filter(absent) == earlier.filter(absent));
        }
    }
}

} // verus!
