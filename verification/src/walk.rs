//! The walk over a directory tree that collects the directories (and, for an
//! easter batch, the files and their extensions) under a root, down to a
//! depth limit. Reading a directory is the caller's work: the walk hands out
//! one directory at a time and is fed back what it holds.

use vstd::prelude::*;
use crate::error::IconError;
use crate::model::strings_view;
use crate::outside::{lowercase, path_extension, path_extension_of, to_lowercase};
use crate::target::limit_for;
use crate::text::{insert_sorted, strictly_sorted};

verus! {

/// One entry of a directory listing, as the file system reported it.
#[derive(Debug, Clone, PartialEq, Eq)]
pub struct WalkEntry {
    pub path: String,
    pub is_dir: bool,
    pub is_file: bool,
    pub is_symlink: bool,
}

/// The extension key of a file path: a dot and the lowercased extension,
/// where the path has a non-empty extension.
pub open spec fn extension_key(path: Seq<char>) -> Option<Seq<char>> {
    match path_extension_of(path) {
        Some(e) => if e.len() > 0 { Some("."@ + lowercase(e)) } else { None },
        None => None,
    }
}

/// Every file type has its key, however long its extension: a path whose
/// extension (the text after the last dot of its file name) is any non-empty
/// text `e` has the key `.` followed by `e` in lowercase, and a path without
/// an extension, or with an empty one, has none.
pub proof fn lemma_extension_key_any_length(path: Seq<char>)
    ensures
        forall|e: Seq<char>|
            path_extension_of(path) == Some(e) && e.len() > 0 ==> #[trigger] extension_key(path) == Some(
                "."@ + lowercase(e),
            ),
        extension_key(path) is Some <==> (path_extension_of(path) matches Some(e) && e.len() > 0),
{
}

/// The extension key of a file path, as `extension_key` describes it.
pub fn extension_key_of(path: &str) -> (r: Option<String>)
    ensures
        match r {
            Some(k) => extension_key(path@) == Some(k@),
            None => extension_key(path@) is None,
        },
{
    match path_extension(path) {
        Some(e) => {
            if e.as_str().unicode_len() > 0 {
                let low = to_lowercase(e.as_str());
                let k = String::from_str(".").concat(low.as_str());
                Some(k)
            } else {
                None
            }
        },
        None => None,
    }
}

/// What a walk collects.
#[derive(Debug, Clone, Copy, PartialEq, Eq, Structural)]
pub enum WalkMode {
    /// Directories only; a directory at the depth limit is not read.
    Directories,
    /// Directories, files and extensions; every collected directory is read.
    Easter,
}

/// The collected directories, files and sorted extension keys of a walk.
#[derive(Debug, Clone, PartialEq, Eq)]
pub struct WalkResult {
    pub dirs: Vec<String>,
    pub files: Vec<String>,
    pub extensions: Vec<String>,
}

/// A walk entry as values.
pub struct EntryView {
    pub path: Seq<char>,
    pub is_dir: bool,
    pub is_file: bool,
    pub is_symlink: bool,
}

impl View for WalkEntry {
    type V = EntryView;

    open spec fn view(&self) -> EntryView {
        EntryView { path: self.path@, is_dir: self.is_dir, is_file: self.is_file, is_symlink: self.is_symlink }
    }
}

/// The values of each entry of a listing.
pub open spec fn entries_view(v: Seq<WalkEntry>) -> Seq<EntryView> {
    v.map_values(|e: WalkEntry| e@)
}

/// An entry the walk descends into: a directory that is not a symbolic link.
pub open spec fn descends(e: EntryView) -> bool {
    e.is_dir && !e.is_symlink
}

/// An entry an easter walk counts as a file: a regular file, not a link.
pub open spec fn counts_as_file(e: EntryView) -> bool {
    !e.is_symlink && !e.is_dir && e.is_file
}

/// The paths of the entries of a listing that the walk descends into, in
/// listing order.
pub open spec fn subdir_paths(entries: Seq<EntryView>) -> Seq<Seq<char>>
    decreases entries.len(),
{
    if entries.len() == 0 {
        Seq::empty()
    } else {
        subdir_paths(entries.drop_last()) + if descends(entries.last()) {
            seq![entries.last().path]
        } else {
            Seq::empty()
        }
    }
}

/// The paths of the entries of a listing that an easter walk counts as
/// files, in listing order.
pub open spec fn file_paths(entries: Seq<EntryView>) -> Seq<Seq<char>>
    decreases entries.len(),
{
    if entries.len() == 0 {
        Seq::empty()
    } else {
        file_paths(entries.drop_last()) + if counts_as_file(entries.last()) {
            seq![entries.last().path]
        } else {
            Seq::empty()
        }
    }
}

/// The indices `from`, `from + 1`, ... of `n` directories.
pub open spec fn index_run(from: int, n: nat) -> Seq<usize> {
    Seq::new(n, |u: int| (from + u) as usize)
}

/// The state of a walk as values. Directory `0` is the root; every other
/// directory `j` was found at position `positions[j]` of the listing of
/// directory `parents[j]`. `stack` holds the directories still to read,
/// `current` the one handed out and not yet fed back, and `sources[f]` the
/// listing and position file `f` was found at.
pub struct WalkState {
    pub mode: WalkMode,
    pub limit: usize,
    pub dirs: Seq<Seq<char>>,
    pub depths: Seq<usize>,
    pub parents: Seq<int>,
    pub positions: Seq<int>,
    pub listings: Map<int, Seq<EntryView>>,
    pub stack: Seq<usize>,
    pub current: Option<usize>,
    pub files: Seq<Seq<char>>,
    pub sources: Seq<(int, int)>,
    pub extensions: Seq<Seq<char>>,
}

/// Whether a walk in the given mode reads a directory at depth `d`: an
/// easter walk reads every directory it collects, a directory walk only those
/// above the limit.
pub open spec fn reads_at(mode: WalkMode, limit: usize, d: usize) -> bool {
    mode == WalkMode::Easter || d < limit
}

/// The collected directories form a tree hanging from the root, each found
/// in the listing of a directory above the limit.
pub open spec fn tree_found(
    limit: usize,
    dirs: Seq<Seq<char>>,
    depths: Seq<usize>,
    parents: Seq<int>,
    positions: Seq<int>,
    listings: Map<int, Seq<EntryView>>,
) -> bool {
    let n = dirs.len();
    &&& n >= 1
    &&& depths.len() == n
    &&& parents.len() == n
    &&& positions.len() == n
    &&& depths[0] == 0
    &&& forall|j: int|
        #![trigger parents[j]]
        1 <= j < n ==> {
            let i = parents[j];
            &&& 0 <= i < j
            &&& depths[j] == depths[i] + 1
            &&& depths[i] < limit
            &&& listings.contains_key(i)
            &&& 0 <= positions[j] < listings[i].len()
            &&& descends(listings[i][positions[j]])
            &&& listings[i][positions[j]].path == dirs[j]
        }
    &&& forall|a: int, b: int|
        1 <= a < b < n && #[trigger] parents[a] == #[trigger] parents[b] ==> positions[a] < positions[b]
}

/// Only collected directories that the walk reads have listings.
pub open spec fn listings_read(
    mode: WalkMode,
    limit: usize,
    n: int,
    depths: Seq<usize>,
    listings: Map<int, Seq<EntryView>>,
) -> bool {
    forall|i: int| #[trigger] listings.contains_key(i) ==> 0 <= i < n && reads_at(mode, limit, depths[i])
}

/// Each collected file was found in a listing.
pub open spec fn files_found(
    mode: WalkMode,
    listings: Map<int, Seq<EntryView>>,
    files: Seq<Seq<char>>,
    sources: Seq<(int, int)>,
) -> bool {
    &&& files.len() == sources.len()
    &&& mode == WalkMode::Directories ==> files.len() == 0
    &&& forall|f: int|
        #![trigger sources[f]]
        0 <= f < files.len() ==> {
            let (i, p) = sources[f];
            &&& listings.contains_key(i)
            &&& 0 <= p < listings[i].len()
            &&& counts_as_file(listings[i][p])
            &&& listings[i][p].path == files[f]
        }
    &&& forall|f: int, g: int|
        0 <= f < g < files.len() && (#[trigger] sources[f]).0 == (#[trigger] sources[g]).0 ==> sources[f].1
            < sources[g].1
}

/// The extension keys are those of the files, sorted and without repeats.
pub open spec fn keys_match(files: Seq<Seq<char>>, extensions: Seq<Seq<char>>) -> bool {
    &&& strictly_sorted(extensions)
    &&& forall|x: int|
        #![trigger extensions[x]]
        0 <= x < extensions.len() ==> exists|f: int|
            0 <= f < files.len() && extension_key(#[trigger] files[f]) == Some(extensions[x])
    &&& forall|f: int|
        #![trigger files[f]]
        0 <= f < files.len() && extension_key(files[f]) is Some ==> extensions.contains(
            extension_key(files[f])->0,
        )
}

/// Whether `i` is on the stack.
pub open spec fn on_stack(stack: Seq<usize>, i: int) -> bool {
    exists|u: int| 0 <= u < stack.len() && stack[u] as int == i
}

/// Every directory the walk reads is read, being read, or still to read;
/// the stack holds distinct unread directories in increasing order.
pub open spec fn frontier(
    mode: WalkMode,
    limit: usize,
    n: int,
    depths: Seq<usize>,
    listings: Map<int, Seq<EntryView>>,
    stack: Seq<usize>,
    current: Option<usize>,
) -> bool {
    &&& forall|u: int|
        #![trigger stack[u]]
        0 <= u < stack.len() ==> {
            &&& stack[u] < n
            &&& !listings.contains_key(stack[u] as int)
            &&& current != Some(stack[u])
        }
    &&& forall|a: int, b: int| 0 <= a < b < stack.len() ==> #[trigger] stack[a] < #[trigger] stack[b]
    &&& (current matches Some(c) ==> c < n && !listings.contains_key(c as int) && reads_at(
        mode,
        limit,
        depths[c as int],
    ))
    &&& forall|i: int|
        0 <= i < n && #[trigger] reads_at(mode, limit, depths[i]) ==> listings.contains_key(i) || (
        current matches Some(c) && c as int == i) || on_stack(stack, i)
}

/// The first `k` entries of listing `i` were taken in: their directories
/// collected (where `i` lies above the limit) and, on an easter walk, their
/// files.
pub open spec fn taken(
    mode: WalkMode,
    limit: usize,
    n: int,
    depths: Seq<usize>,
    parents: Seq<int>,
    positions: Seq<int>,
    listings: Map<int, Seq<EntryView>>,
    nfiles: int,
    sources: Seq<(int, int)>,
    i: int,
    k: int,
) -> bool {
    &&& depths[i] < limit ==> forall|p: int|
        #![trigger listings[i][p]]
        0 <= p < k && descends(listings[i][p]) ==> exists|j: int|
            0 < j < n && parents[j] == i && #[trigger] positions[j] == p
    &&& mode == WalkMode::Easter ==> forall|p: int|
        #![trigger listings[i][p]]
        0 <= p < k && counts_as_file(listings[i][p]) ==> exists|f: int|
            0 <= f < nfiles && #[trigger] sources[f] == (i, p)
}

impl WalkState {
    /// Whether the walk reads directory `i`.
    pub open spec fn reads(self, i: int) -> bool {
        reads_at(self.mode, self.limit, self.depths[i])
    }

    /// Whether no directory is left to hand out.
    pub open spec fn done(self) -> bool {
        self.stack.len() == 0 && self.current is None
    }

    /// The first `k` entries of listing `i` were taken in.
    pub open spec fn taken_upto(self, i: int, k: int) -> bool {
        taken(
            self.mode,
            self.limit,
            self.dirs.len() as int,
            self.depths,
            self.parents,
            self.positions,
            self.listings,
            self.files.len() as int,
            self.sources,
            i,
            k,
        )
    }

    /// Everything the walk keeps true but that listings be fully taken in.
    pub open spec fn basics(self) -> bool {
        &&& tree_found(self.limit, self.dirs, self.depths, self.parents, self.positions, self.listings)
        &&& listings_read(self.mode, self.limit, self.dirs.len() as int, self.depths, self.listings)
        &&& frontier(
            self.mode,
            self.limit,
            self.dirs.len() as int,
            self.depths,
            self.listings,
            self.stack,
            self.current,
        )
        &&& files_found(self.mode, self.listings, self.files, self.sources)
        &&& keys_match(self.files, self.extensions)
    }

    /// The walk's invariant.
    pub open spec fn inv(self) -> bool {
        &&& self.basics()
        &&& forall|i: int| #[trigger] self.listings.contains_key(i) ==> self.taken_upto(i, self.listings[i].len() as int)
    }
}

/// The state while listing `c` is being taken in, its first `k` entries done.
pub open spec fn feeding(s: WalkState, c: int, k: int) -> bool {
    &&& s.basics()
    &&& s.current is None
    &&& s.listings.contains_key(c)
    &&& 0 <= k <= s.listings[c].len()
    &&& forall|i: int|
        #[trigger] s.listings.contains_key(i) && i != c ==> s.taken_upto(i, s.listings[i].len() as int)
    &&& s.taken_upto(c, k)
    &&& forall|j: int| 1 <= j < s.dirs.len() && #[trigger] s.parents[j] == c ==> s.positions[j] < k
    &&& forall|f: int| 0 <= f < s.files.len() && (#[trigger] s.sources[f]).0 == c ==> s.sources[f].1 < k
}

/// Receiving the listing of the directory handed out starts taking it in.
proof fn lemma_begin_feed(s: WalkState, entries: Seq<EntryView>)
    requires
        s.inv(),
        s.current is Some,
    ensures
        feeding(
            WalkState { current: None, listings: s.listings.insert(s.current->0 as int, entries), ..s },
            s.current->0 as int,
            0,
        ),
{
    let c = s.current->0 as int;
    let t = WalkState { current: None, listings: s.listings.insert(c, entries), ..s };
    let n = s.dirs.len() as int;
    assert(tree_found(t.limit, t.dirs, t.depths, t.parents, t.positions, t.listings)) by {
        assert forall|j: int| #![trigger t.parents[j]] 1 <= j < n implies t.parents[j] != c
            && t.listings[t.parents[j]] == s.listings[s.parents[j]] by {
            assert(s.listings.contains_key(s.parents[j]));
        }
    }
    assert(listings_read(t.mode, t.limit, n, t.depths, t.listings)) by {
        assert forall|i: int| #[trigger] t.listings.contains_key(i) implies 0 <= i < n && reads_at(
            t.mode,
            t.limit,
            t.depths[i],
        ) by {
            if i != c {
                assert(s.listings.contains_key(i));
            }
        }
    }
    assert(frontier(t.mode, t.limit, n, t.depths, t.listings, t.stack, t.current)) by {
        assert forall|u: int| #![trigger t.stack[u]] 0 <= u < t.stack.len() implies {
            &&& t.stack[u] < n
            &&& !t.listings.contains_key(t.stack[u] as int)
            &&& t.current != Some(t.stack[u])
        } by {
            assert(s.current != Some(s.stack[u]));
        }
        assert forall|i: int| 0 <= i < n && #[trigger] reads_at(t.mode, t.limit, t.depths[i]) implies t.listings.contains_key(
            i,
        ) || (t.current matches Some(x) && x as int == i) || on_stack(t.stack, i) by {
            if i == c {
                assert(t.listings.contains_key(i));
            }
        }
    }
    assert(files_found(t.mode, t.listings, t.files, t.sources)) by {
        assert forall|f: int| #![trigger t.sources[f]] 0 <= f < t.files.len() implies t.listings[t.sources[f].0]
            == s.listings[s.sources[f].0] by {
            assert(s.listings.contains_key(s.sources[f].0));
        }
    }
    assert forall|i: int| #[trigger] t.listings.contains_key(i) && i != c implies t.taken_upto(
        i,
        t.listings[i].len() as int,
    ) by {
        assert(s.listings.contains_key(i));
        assert(s.taken_upto(i, s.listings[i].len() as int));
    }
}

/// An entry that the walk neither descends into nor counts is passed over.
proof fn lemma_pass_over(s: WalkState, c: int, k: int)
    requires
        feeding(s, c, k),
        k < s.listings[c].len(),
        !descends(s.listings[c][k]) || s.depths[c] >= s.limit,
        !counts_as_file(s.listings[c][k]) || s.mode == WalkMode::Directories,
    ensures
        feeding(s, c, k + 1),
{
}

/// A directory entry of a listing above the limit is collected and put on
/// the stack.
proof fn lemma_add_dir(s: WalkState, c: int, k: int)
    requires
        feeding(s, c, k),
        k < s.listings[c].len(),
        descends(s.listings[c][k]),
        s.depths[c] < s.limit,
        s.dirs.len() <= usize::MAX,
    ensures
        feeding(
            WalkState {
                dirs: s.dirs.push(s.listings[c][k].path),
                depths: s.depths.push((s.depths[c] + 1) as usize),
                parents: s.parents.push(c),
                positions: s.positions.push(k),
                stack: s.stack.push(s.dirs.len() as usize),
                ..s
            },
            c,
            k + 1,
        ),
{
    let n = s.dirs.len() as int;
    let t = WalkState {
        dirs: s.dirs.push(s.listings[c][k].path),
        depths: s.depths.push((s.depths[c] + 1) as usize),
        parents: s.parents.push(c),
        positions: s.positions.push(k),
        stack: s.stack.push(n as usize),
        ..s
    };
    assert(t.stack[s.stack.len() as int] as int == n);
    assert(tree_found(t.limit, t.dirs, t.depths, t.parents, t.positions, t.listings)) by {
        assert forall|j: int| #![trigger t.parents[j]] 1 <= j < n + 1 implies {
            let i = t.parents[j];
            &&& 0 <= i < j
            &&& t.depths[j] == t.depths[i] + 1
            &&& t.depths[i] < t.limit
            &&& t.listings.contains_key(i)
            &&& 0 <= t.positions[j] < t.listings[i].len()
            &&& descends(t.listings[i][t.positions[j]])
            &&& t.listings[i][t.positions[j]].path == t.dirs[j]
        } by {
            if j < n {
                assert(s.parents[j] == t.parents[j]);
            }
        }
    }
    assert(listings_read(t.mode, t.limit, n + 1, t.depths, t.listings)) by {
        assert forall|i: int| #[trigger] t.listings.contains_key(i) implies 0 <= i < n + 1 && reads_at(
            t.mode,
            t.limit,
            t.depths[i],
        ) by {
            assert(s.listings.contains_key(i));
            assert(t.depths[i] == s.depths[i]);
        }
    }
    assert(frontier(t.mode, t.limit, n + 1, t.depths, t.listings, t.stack, t.current)) by {
        assert forall|u: int| #![trigger t.stack[u]] 0 <= u < t.stack.len() implies {
            &&& t.stack[u] < n + 1
            &&& !t.listings.contains_key(t.stack[u] as int)
            &&& t.current != Some(t.stack[u])
        } by {
            if u < s.stack.len() {
                assert(t.stack[u] == s.stack[u]);
            } else {
                assert(!s.listings.contains_key(n));
            }
        }
        assert forall|a: int, b: int| 0 <= a < b < t.stack.len() implies #[trigger] t.stack[a] < #[trigger] t.stack[b] by {
            assert(t.stack[a] == s.stack[a]);
            if b < s.stack.len() {
                assert(t.stack[b] == s.stack[b]);
                assert(s.stack[a] < s.stack[b]);
            } else {
                assert(s.stack[a] < n);
            }
        }
        assert forall|i: int| 0 <= i < n + 1 && #[trigger] reads_at(t.mode, t.limit, t.depths[i]) implies t.listings.contains_key(
            i,
        ) || (t.current matches Some(x) && x as int == i) || on_stack(t.stack, i) by {
            if i < n {
                assert(t.depths[i] == s.depths[i]);
                assert(reads_at(s.mode, s.limit, s.depths[i]));
                if on_stack(s.stack, i) {
                    let u = choose|u: int| 0 <= u < s.stack.len() && s.stack[u] as int == i;
                    assert(t.stack[u] as int == i);
                }
            }
        }
    }
    assert(files_found(t.mode, t.listings, t.files, t.sources));
    assert forall|i: int| #[trigger] t.listings.contains_key(i) && i != c implies t.taken_upto(
        i,
        t.listings[i].len() as int,
    ) by {
        assert(s.taken_upto(i, s.listings[i].len() as int));
        assert(s.listings.contains_key(i));
        assert(t.depths[i] == s.depths[i]);
        if s.depths[i] < s.limit {
            assert forall|p: int|
                #![trigger t.listings[i][p]]
                0 <= p < t.listings[i].len() && descends(t.listings[i][p]) implies exists|j: int|
                    0 < j < t.dirs.len() && t.parents[j] == i && #[trigger] t.positions[j] == p by {
                let j = choose|j: int| 0 < j < s.dirs.len() && s.parents[j] == i && #[trigger] s.positions[j] == p;
                assert(t.positions[j] == p);
                assert(t.parents[j] == i);
            }
        }
    }
    assert(t.taken_upto(c, k + 1)) by {
        assert(s.taken_upto(c, k));
        assert forall|p: int|
            #![trigger t.listings[c][p]]
            0 <= p < k + 1 && descends(t.listings[c][p]) implies exists|j: int|
                0 < j < t.dirs.len() && t.parents[j] == c && #[trigger] t.positions[j] == p by {
            if p < k {
                let j = choose|j: int| 0 < j < s.dirs.len() && s.parents[j] == c && #[trigger] s.positions[j] == p;
                assert(t.positions[j] == p);
                assert(t.parents[j] == c);
            } else {
                assert(t.positions[n] == p);
                assert(t.parents[n] == c);
            }
        }
    }
}

/// Adding a file and its extension key to the key set keeps the keys those
/// of the files.
proof fn lemma_keys_after_push(
    files: Seq<Seq<char>>,
    extensions: Seq<Seq<char>>,
    path: Seq<char>,
    exts: Seq<Seq<char>>,
)
    requires
        keys_match(files, extensions),
        strictly_sorted(exts),
        forall|x: Seq<char>| exts.contains(x) <==> (extensions.contains(x) || extension_key(path) == Some(x)),
    ensures
        keys_match(files.push(path), exts),
{
    let nf = files.push(path);
    let m = files.len() as int;
    assert forall|x: int| #![trigger exts[x]] 0 <= x < exts.len() implies exists|f: int|
        0 <= f < nf.len() && extension_key(#[trigger] nf[f]) == Some(exts[x]) by {
        let e = exts[x];
        assert(exts.contains(e));
        if extensions.contains(e) {
            let y = choose|y: int| 0 <= y < extensions.len() && extensions[y] == e;
            assert(0 <= y < extensions.len());
            let f = choose|f: int| 0 <= f < files.len() && extension_key(#[trigger] files[f]) == Some(extensions[y]);
            assert(nf[f] == files[f]);
            assert(extension_key(nf[f]) == Some(e));
        } else {
            assert(nf[m] == path);
            assert(extension_key(nf[m]) == Some(e));
        }
    }
    assert forall|f: int|
        #![trigger nf[f]]
        0 <= f < nf.len() && extension_key(nf[f]) is Some implies exts.contains(extension_key(nf[f])->0) by {
        if f < m {
            assert(nf[f] == files[f]);
            assert(extensions.contains(extension_key(files[f])->0));
        } else {
            assert(nf[f] == path);
        }
    }
}

/// A file entry of an easter walk is collected with its extension key.
proof fn lemma_add_file(s: WalkState, c: int, k: int, exts: Seq<Seq<char>>)
    requires
        feeding(s, c, k),
        k < s.listings[c].len(),
        counts_as_file(s.listings[c][k]),
        s.mode == WalkMode::Easter,
        strictly_sorted(exts),
        forall|x: Seq<char>|
            exts.contains(x) <==> (s.extensions.contains(x) || extension_key(s.listings[c][k].path)
                == Some(x)),
    ensures
        feeding(
            WalkState {
                files: s.files.push(s.listings[c][k].path),
                sources: s.sources.push((c, k)),
                extensions: exts,
                ..s
            },
            c,
            k + 1,
        ),
{
    let m = s.files.len() as int;
    let path = s.listings[c][k].path;
    let t = WalkState { files: s.files.push(path), sources: s.sources.push((c, k)), extensions: exts, ..s };
    assert(files_found(t.mode, t.listings, t.files, t.sources)) by {
        assert forall|f: int| #![trigger t.sources[f]] 0 <= f < t.files.len() implies {
            let (i, p) = t.sources[f];
            &&& t.listings.contains_key(i)
            &&& 0 <= p < t.listings[i].len()
            &&& counts_as_file(t.listings[i][p])
            &&& t.listings[i][p].path == t.files[f]
        } by {
            if f < m {
                assert(t.sources[f] == s.sources[f]);
                assert(t.files[f] == s.files[f]);
            }
        }
    }
    lemma_keys_after_push(s.files, s.extensions, path, exts);
    assert forall|i: int| #[trigger] t.listings.contains_key(i) && i != c implies t.taken_upto(
        i,
        t.listings[i].len() as int,
    ) by {
        assert(s.taken_upto(i, s.listings[i].len() as int));
        if s.depths[i] < s.limit {
            assert forall|p: int|
                #![trigger t.listings[i][p]]
                0 <= p < t.listings[i].len() && descends(t.listings[i][p]) implies exists|j: int|
                    0 < j < t.dirs.len() && t.parents[j] == i && #[trigger] t.positions[j] == p by {
                let j = choose|j: int| 0 < j < s.dirs.len() && s.parents[j] == i && #[trigger] s.positions[j] == p;
                assert(t.positions[j] == p);
            }
        }
        assert forall|p: int|
            #![trigger t.listings[i][p]]
            0 <= p < t.listings[i].len() && counts_as_file(t.listings[i][p]) implies exists|f: int|
                0 <= f < t.files.len() && #[trigger] t.sources[f] == (i, p) by {
            let f = choose|f: int| 0 <= f < s.files.len() && #[trigger] s.sources[f] == (i, p);
            assert(t.sources[f] == (i, p));
        }
    }
    assert(t.taken_upto(c, k + 1)) by {
        assert(s.taken_upto(c, k));
        if s.depths[c] < s.limit {
            assert forall|p: int|
                #![trigger t.listings[c][p]]
                0 <= p < k + 1 && descends(t.listings[c][p]) implies exists|j: int|
                    0 < j < t.dirs.len() && t.parents[j] == c && #[trigger] t.positions[j] == p by {
                let j = choose|j: int| 0 < j < s.dirs.len() && s.parents[j] == c && #[trigger] s.positions[j] == p;
                assert(t.positions[j] == p);
            }
        }
        assert forall|p: int|
            #![trigger t.listings[c][p]]
            0 <= p < k + 1 && counts_as_file(t.listings[c][p]) implies exists|f: int|
                0 <= f < t.files.len() && #[trigger] t.sources[f] == (c, p) by {
            if p < k {
                let f = choose|f: int| 0 <= f < s.files.len() && #[trigger] s.sources[f] == (c, p);
                assert(t.sources[f] == (c, p));
            } else {
                assert(t.sources[m] == (c, p));
            }
        }
    }
}

/// Every collected directory lies at most `limit` levels below the root.
pub open spec fn within_limit(s: WalkState) -> bool {
    forall|j: int| 0 <= j < s.dirs.len() ==> #[trigger] s.depths[j] <= s.limit
}

/// The directories that were read are exactly those the walk reads: all of
/// them on an easter walk, those above the limit on a directory walk.
pub open spec fn read_exactly(s: WalkState) -> bool {
    forall|i: int| 0 <= i < s.dirs.len() ==> (#[trigger] s.listings.contains_key(i) <==> s.reads(i))
}

/// Each directory entry in the listing of a read directory above the
/// limit was collected, as a child of that directory.
pub open spec fn closed_under_children(s: WalkState) -> bool {
    forall|i: int, p: int|
        #![trigger s.listings[i][p]]
        s.listings.contains_key(i) && s.depths[i] < s.limit && 0 <= p < s.listings[i].len()
            && descends(s.listings[i][p]) ==> exists|j: int|
            0 < j < s.dirs.len() && s.parents[j] == i && #[trigger] s.dirs[j] == s.listings[i][p].path
}

/// On an easter walk, each file entry of a read directory was collected.
pub open spec fn files_complete(s: WalkState) -> bool {
    s.mode == WalkMode::Easter ==> forall|i: int, p: int|
        #![trigger s.listings[i][p]]
        s.listings.contains_key(i) && 0 <= p < s.listings[i].len() && counts_as_file(s.listings[i][p])
            ==> exists|f: int| 0 <= f < s.files.len() && #[trigger] s.files[f] == s.listings[i][p].path
}

/// Each listing entry is collected at most once: no two collected
/// directories come from the same entry, nor do two collected files.
pub open spec fn collected_once(s: WalkState) -> bool {
    &&& forall|a: int, b: int|
        1 <= a < b < s.dirs.len() ==> (#[trigger] s.parents[a], s.positions[a]) != (#[trigger] s.parents[b], s.positions[b])
    &&& forall|f: int, g: int| 0 <= f < g < s.files.len() ==> #[trigger] s.sources[f] != #[trigger] s.sources[g]
}

/// What a finished walk has collected: a tree of directories hanging from
/// the root, none deeper than the limit, every directory the walk reads read,
/// each entry collected at most once,
/// every subdirectory found above the limit collected, every file found
/// (on an easter walk) collected, and the extension keys exactly those of the
/// files, sorted without repeats.
pub proof fn lemma_finished_walk(s: WalkState)
    requires
        s.inv(),
        s.done(),
    ensures
        tree_found(s.limit, s.dirs, s.depths, s.parents, s.positions, s.listings),
        within_limit(s),
        read_exactly(s),
        closed_under_children(s),
        files_found(s.mode, s.listings, s.files, s.sources),
        files_complete(s),
        keys_match(s.files, s.extensions),
        collected_once(s),
{
    assert forall|j: int| 0 <= j < s.dirs.len() implies #[trigger] s.depths[j] <= s.limit by {
        if j > 0 {
            assert(s.depths[s.parents[j]] < s.limit);
        }
    }
    assert forall|i: int| 0 <= i < s.dirs.len() implies (#[trigger] s.listings.contains_key(i) <==> s.reads(i)) by {
        if s.reads(i) {
            assert(reads_at(s.mode, s.limit, s.depths[i]));
            if on_stack(s.stack, i) {
                let u = choose|u: int| 0 <= u < s.stack.len() && s.stack[u] as int == i;
            }
        }
    }
    assert forall|i: int, p: int|
        #![trigger s.listings[i][p]]
        s.listings.contains_key(i) && s.depths[i] < s.limit && 0 <= p < s.listings[i].len()
            && descends(s.listings[i][p]) implies exists|j: int|
            0 < j < s.dirs.len() && s.parents[j] == i && #[trigger] s.dirs[j] == s.listings[i][p].path by {
        assert(s.taken_upto(i, s.listings[i].len() as int));
        let j = choose|j: int| 0 < j < s.dirs.len() && s.parents[j] == i && #[trigger] s.positions[j] == p;
        assert(s.dirs[j] == s.listings[i][p].path);
    }
    if s.mode == WalkMode::Easter {
        assert forall|i: int, p: int|
            #![trigger s.listings[i][p]]
            s.listings.contains_key(i) && 0 <= p < s.listings[i].len() && counts_as_file(s.listings[i][p])
                implies exists|f: int| 0 <= f < s.files.len() && #[trigger] s.files[f] == s.listings[i][p].path by {
            assert(s.taken_upto(i, s.listings[i].len() as int));
            let f = choose|f: int| 0 <= f < s.files.len() && #[trigger] s.sources[f] == (i, p);
            assert(s.files[f] == s.listings[i][p].path);
        }
    }
}

/// A walk in progress; its values are a `WalkState`.
pub struct DirWalk {
    mode: WalkMode,
    limit: usize,
    dirs: Vec<String>,
    depths: Vec<usize>,
    stack: Vec<usize>,
    current: Option<usize>,
    files: Vec<String>,
    extensions: Vec<String>,
    parents: Ghost<Seq<int>>,
    positions: Ghost<Seq<int>>,
    listings: Ghost<Map<int, Seq<EntryView>>>,
    sources: Ghost<Seq<(int, int)>>,
}

impl View for DirWalk {
    type V = WalkState;

    closed spec fn view(&self) -> WalkState {
        WalkState {
            mode: self.mode,
            limit: self.limit,
            dirs: strings_view(self.dirs@),
            depths: self.depths@,
            parents: self.parents@,
            positions: self.positions@,
            listings: self.listings@,
            stack: self.stack@,
            current: self.current,
            files: strings_view(self.files@),
            sources: self.sources@,
            extensions: strings_view(self.extensions@),
        }
    }
}

impl DirWalk {
    /// A walk that starts at `root` with the given limit.
    pub fn start(root: String, mode: WalkMode, limit: usize) -> (w: DirWalk)
        ensures
            w@.inv(),
            w@.mode == mode,
            w@.limit == limit,
            w@.dirs == seq![root@],
            w@.stack == seq![0usize],
            w@.current is None,
            w@.listings == Map::<int, Seq<EntryView>>::empty(),
            w@.files.len() == 0,
    {
        let mut dirs: Vec<String> = Vec::new();
        dirs.push(root);
        let mut depths: Vec<usize> = Vec::new();
        depths.push(0);
        let mut stack: Vec<usize> = Vec::new();
        stack.push(0);
        let ghost zero: Seq<int> = seq![0int];
        let ghost no_listing: Map<int, Seq<EntryView>> = Map::empty();
        let ghost no_source: Seq<(int, int)> = Seq::empty();
        let w = DirWalk {
            mode,
            limit,
            dirs,
            depths,
            stack,
            current: None,
            files: Vec::new(),
            extensions: Vec::new(),
            parents: Ghost(zero),
            positions: Ghost(zero),
            listings: Ghost(no_listing),
            sources: Ghost(no_source),
        };
        proof {
            let s = w@;
            assert(s.dirs =~= seq![root@]);
            assert(s.stack[0] == 0);
            assert(s.stack =~= seq![0usize]);
            assert(s.stack.contains(0));
            assert(s.files =~= Seq::<Seq<char>>::empty());
            assert(s.extensions =~= Seq::<Seq<char>>::empty());
        }
        w
    }

    /// The walk that `collect_directories` makes: the directories under
    /// `root` down to the limit of the recursion mode.
    pub fn directories(root: String, mode: &str, max_depth: Option<usize>) -> (r: Result<DirWalk, IconError>)
        ensures
            match r {
                Ok(w) => limit_for(mode@, max_depth) == Ok::<usize, IconError>(w@.limit) && w@.inv()
                    && w@.mode == WalkMode::Directories && w@.dirs == seq![root@] && w@.stack == seq![0usize]
                    && w@.current is None,
                Err(e) => limit_for(mode@, max_depth) == Err::<usize, IconError>(e),
            },
    {
        let limit = crate::target::recursion_limit(mode, max_depth)?;
        Ok(DirWalk::start(root, WalkMode::Directories, limit))
    }

    /// The walk that `collect_easter` makes: refused where the root is not a
    /// directory, else everything under `root` down to the limit.
    pub fn easter(root: String, root_is_dir: bool, mode: &str, max_depth: Option<usize>) -> (r: Result<DirWalk, IconError>)
        ensures
            !root_is_dir ==> r is Err && r->Err_0 == IconError::EasterRootMissing,
            root_is_dir ==> match r {
                Ok(w) => limit_for(mode@, max_depth) == Ok::<usize, IconError>(w@.limit) && w@.inv()
                    && w@.mode == WalkMode::Easter && w@.dirs == seq![root@] && w@.stack == seq![0usize]
                    && w@.current is None && w@.files.len() == 0,
                Err(e) => limit_for(mode@, max_depth) == Err::<usize, IconError>(e),
            },
    {
        if !root_is_dir {
            return Err(IconError::EasterRootMissing);
        }
        let limit = crate::target::recursion_limit(mode, max_depth)?;
        Ok(DirWalk::start(root, WalkMode::Easter, limit))
    }

    /// Hands out the next directory to read, or `None` when the walk is done.
    /// Directories are taken last in, first out; on a directory walk those at
    /// the limit are passed over unread.
    pub fn next_dir(&mut self) -> (r: Option<String>)
        requires
            old(self)@.inv(),
            old(self)@.current is None,
        ensures
            final(self)@.inv(),
            final(self)@ == (WalkState { stack: final(self)@.stack, current: final(self)@.current, ..old(self)@ }),
            final(self)@.stack == old(self)@.stack.subrange(0, final(self)@.stack.len() as int),
            match r {
                None => final(self)@.done() && forall|u: int|
                    0 <= u < old(self)@.stack.len() ==> !old(self)@.reads(#[trigger] old(self)@.stack[u] as int),
                Some(p) => final(self)@.current matches Some(c) && p@ == final(self)@.dirs[c as int]
                    && final(self)@.stack.len() < old(self)@.stack.len()
                    && c == old(self)@.stack[final(self)@.stack.len() as int]
                    && forall|u: int|
                    final(self)@.stack.len() < u < old(self)@.stack.len() ==> !old(self)@.reads(
                        #[trigger] old(self)@.stack[u] as int,
                    ),
            },
    {
        loop
            invariant
                self@.inv(),
                self@.current is None,
                self@ == (WalkState { stack: self@.stack, current: self@.current, ..old(self)@ }),
                self@.stack.len() <= old(self)@.stack.len(),
                self@.stack == old(self)@.stack.subrange(0, self@.stack.len() as int),
                forall|u: int|
                    self@.stack.len() <= u < old(self)@.stack.len() ==> !old(self)@.reads(
                        #[trigger] old(self)@.stack[u] as int,
                    ),
            decreases self@.stack.len(),
        {
            let ghost s = self@;
            match self.stack.pop() {
                None => {
                    return None;
                },
                Some(i) => {
                    let reads = match self.mode {
                        WalkMode::Easter => true,
                        WalkMode::Directories => self.depths[i] < self.limit,
                    };
                    proof {
                        let last = s.stack.len() - 1;
                        assert(s.stack[last] == i);
                        assert(self@.stack =~= s.stack.subrange(0, last));
                        assert forall|u: int| 0 <= u < self@.stack.len() implies #[trigger] self@.stack[u] < i by {
                            assert(s.stack[u] < s.stack[last]);
                        }
                        assert forall|k: int|
                            #![trigger on_stack(s.stack, k)]
                            k != i && on_stack(s.stack, k) implies on_stack(self@.stack, k) by {
                            let u = choose|u: int| 0 <= u < s.stack.len() && s.stack[u] as int == k;
                            assert(u != last);
                            assert(self@.stack[u] as int == k);
                        }
                        assert(s.reads(i as int) == reads);
                        assert(!s.listings.contains_key(i as int));
                    }
                    if reads {
                        self.current = Some(i);
                        proof {
                            let t = self@;
                            let n = t.dirs.len() as int;
                            assert forall|i2: int|
                                0 <= i2 < n && #[trigger] reads_at(t.mode, t.limit, t.depths[i2]) implies t.listings.contains_key(
                                    i2,
                                ) || (t.current matches Some(x) && x as int == i2) || on_stack(t.stack, i2) by {
                                if !s.listings.contains_key(i2) && i2 != i {
                                    assert(on_stack(s.stack, i2));
                                }
                            }
                            assert forall|u: int| #![trigger t.stack[u]] 0 <= u < t.stack.len() implies t.current != Some(t.stack[u]) by {
                                assert(t.stack[u] < i);
                            }
                            assert(frontier(t.mode, t.limit, n, t.depths, t.listings, t.stack, t.current));
                        }
                        return Some(self.dirs[i].clone());
                    } else {
                        proof {
                            let t = self@;
                            let n = t.dirs.len() as int;
                            assert forall|i2: int|
                                0 <= i2 < n && #[trigger] reads_at(t.mode, t.limit, t.depths[i2]) implies t.listings.contains_key(
                                    i2,
                                ) || (t.current matches Some(x) && x as int == i2) || on_stack(t.stack, i2) by {
                                if !s.listings.contains_key(i2) {
                                    assert(on_stack(s.stack, i2));
                                }
                            }
                            assert(frontier(t.mode, t.limit, n, t.depths, t.listings, t.stack, t.current));
                        }
                    }
                },
            }
        }
    }

    /// Takes in the listing of the directory handed out last. A directory
    /// that could not be read is fed an empty listing. Where that directory
    /// lies above the limit, its subdirectories are collected and put on the
    /// stack in listing order; on an easter walk its files are collected in
    /// listing order.
    pub fn feed(&mut self, entries: Vec<WalkEntry>)
        requires
            old(self)@.inv(),
            old(self)@.current is Some,
        ensures
            final(self)@.inv(),
            final(self)@.current is None,
            final(self)@.mode == old(self)@.mode,
            final(self)@.limit == old(self)@.limit,
            final(self)@.listings == old(self)@.listings.insert(
                old(self)@.current->0 as int,
                entries_view(entries@),
            ),
            final(self)@.dirs == old(self)@.dirs + if old(self)@.depths[old(self)@.current->0 as int]
                < old(self)@.limit {
                subdir_paths(entries_view(entries@))
            } else {
                Seq::empty()
            },
            final(self)@.stack == old(self)@.stack + index_run(
                old(self)@.dirs.len() as int,
                (final(self)@.dirs.len() - old(self)@.dirs.len()) as nat,
            ),
            final(self)@.files == old(self)@.files + if old(self)@.mode == WalkMode::Easter {
                file_paths(entries_view(entries@))
            } else {
                Seq::empty()
            },
            old(self)@.dirs.is_prefix_of(final(self)@.dirs),
    {
        let c = match self.current {
            Some(c) => c,
            None => 0,
        };
        let d = self.depths[c];
        let ghost ev = entries_view(entries@);
        proof {
            lemma_begin_feed(self@, ev);
        }
        self.current = None;
        proof {
            self.listings@ = self.listings@.insert(c as int, ev);
        }
        let mut k: usize = 0;
        while k < entries.len()
            invariant
                feeding(self@, c as int, k as int),
                self@.listings[c as int] == ev,
                ev == entries_view(entries@),
                self@.depths[c as int] == d,
                self@.mode == old(self)@.mode,
                self@.limit == old(self)@.limit,
                self@.listings == old(self)@.listings.insert(c as int, ev),
                old(self)@.dirs.is_prefix_of(self@.dirs),
                c as int == old(self)@.current->0 as int,
                d == old(self)@.depths[c as int],
                self@.dirs == old(self)@.dirs + if d < old(self)@.limit {
                    subdir_paths(ev.take(k as int))
                } else {
                    Seq::empty()
                },
                self@.stack == old(self)@.stack + index_run(
                    old(self)@.dirs.len() as int,
                    (self@.dirs.len() - old(self)@.dirs.len()) as nat,
                ),
                self@.files == old(self)@.files + if old(self)@.mode == WalkMode::Easter {
                    file_paths(ev.take(k as int))
                } else {
                    Seq::empty()
                },
            decreases entries.len() - k,
        {
            let ghost s = self@;
            let e = &entries[k];
            assert(s.listings[c as int][k as int] == e@);
            proof {
                assert(ev.take(k + 1).drop_last() =~= ev.take(k as int));
                assert(ev.take(k + 1).last() == e@);
            }
            if !e.is_symlink && e.is_dir && d < self.limit {
                let j = self.dirs.len();
                self.dirs.push(e.path.clone());
                self.depths.push(d + 1);
                self.stack.push(j);
                proof {
                    self.parents@ = self.parents@.push(c as int);
                    self.positions@ = self.positions@.push(k as int);
                    lemma_add_dir(s, c as int, k as int);
                    assert(self@.dirs =~= s.dirs.push(e@.path));
                    assert(self@.dirs =~= old(self)@.dirs + subdir_paths(ev.take(k + 1)));
                    assert(self@.stack =~= old(self)@.stack + index_run(
                        old(self)@.dirs.len() as int,
                        (self@.dirs.len() - old(self)@.dirs.len()) as nat,
                    ));
                    assert(self@ == (WalkState {
                        dirs: s.dirs.push(s.listings[c as int][k as int].path),
                        depths: s.depths.push((s.depths[c as int] + 1) as usize),
                        parents: s.parents.push(c as int),
                        positions: s.positions.push(k as int),
                        stack: s.stack.push(s.dirs.len() as usize),
                        ..s
                    }));
                }
            } else if !e.is_symlink && !e.is_dir && e.is_file && self.mode == WalkMode::Easter {
                self.files.push(e.path.clone());
                proof {
                    self.sources@ = self.sources@.push((c as int, k as int));
                }
                let key = extension_key_of(e.path.as_str());
                match key {
                    Some(x) => {
                        insert_sorted(&mut self.extensions, x);
                    },
                    None => {},
                }
                proof {
                    assert(self@.files =~= s.files.push(e@.path));
                    assert(self@.files =~= old(self)@.files + file_paths(ev.take(k + 1)));
                    lemma_add_file(s, c as int, k as int, self@.extensions);
                }
            } else {
                proof {
                    lemma_pass_over(s, c as int, k as int);
                }
            }
            k = k + 1;
        }
        proof {
            assert(ev.take(entries.len() as int) =~= ev);
        }
    }

    /// The result of a finished walk.
    pub fn finish(self) -> (r: WalkResult)
        requires
            self@.inv(),
            self@.done(),
        ensures
            strings_view(r.dirs@) == self@.dirs,
            strings_view(r.files@) == self@.files,
            strings_view(r.extensions@) == self@.extensions,
            tree_found(self@.limit, self@.dirs, self@.depths, self@.parents, self@.positions, self@.listings),
            within_limit(self@),
            read_exactly(self@),
            closed_under_children(self@),
            files_found(self@.mode, self@.listings, self@.files, self@.sources),
            files_complete(self@),
            keys_match(self@.files, self@.extensions),
            collected_once(self@),
    {
        proof {
            lemma_finished_walk(self@);
        }
        WalkResult { dirs: self.dirs, files: self.files, extensions: self.extensions }
    }
}

} // verus!
