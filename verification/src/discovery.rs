//! File discovery: walking a directory tree and collecting the entries that
//! carry the recognized audio extension.
//!
//! The tree is handed in as plain data ([`FsEntry`]): the caller enumerates
//! the real file system and mirrors it here, so the walk itself — which
//! entry is collected, which is recursed into, which is skipped with a
//! warning — is fully specified and verified.

use vstd::prelude::*;

verus! {

/// One node of the file-system tree handed to discovery: a plain file, or a
/// directory together with its direct entries. `path` holds the node's full
/// path, with `/` separating its segments.
pub enum FsEntry {
    File { path: String },
    Dir { path: String, entries: Vec<FsEntry> },
}

impl FsEntry {
    /// The node's full path.
    pub open spec fn path_spec(&self) -> Seq<char> {
        match self {
            FsEntry::File { path } => path@,
            FsEntry::Dir { path, entries: _ } => path@,
        }
    }
}

/// The position right after the last `/` of `p`, or `0` when `p` holds
/// none: where the file name starts.
pub open spec fn after_last_slash(p: Seq<char>) -> int
    decreases p.len(),
{
    if p.len() == 0 {
        0
    } else if p.last() == '/' {
        p.len() as int
    } else {
        after_last_slash(p.drop_last())
    }
}

/// A position `j` preceded by a `/` (or at the start) and followed by no
/// further `/` is exactly where the file name starts.
pub proof fn lemma_after_last_slash_exact(p: Seq<char>, j: int)
    requires
        0 <= j <= p.len(),
        j > 0 ==> p[j - 1] == '/',
        forall|k: int| j <= k < p.len() ==> p[k] != '/',
    ensures
        after_last_slash(p) == j,
    decreases p.len(),
{
    if p.len() > 0 && p.last() != '/' {
        assert(j < p.len());
        lemma_after_last_slash_exact(p.drop_last(), j);
    }
}

/// Whether the file name of `p` carries the extension `mp3`, matched
/// case-sensitively: the name ends in `.mp3` and does not consist of that
/// suffix alone.
pub open spec fn has_mp3_extension(p: Seq<char>) -> bool {
    let name = p.subrange(after_last_slash(p), p.len() as int);
    name.len() >= 5 && name.subrange(name.len() - 4, name.len() as int) == seq!['.', 'm', 'p', '3']
}

/// Executable check of [`has_mp3_extension`].
pub fn is_mp3_path(p: &str) -> (r: bool)
    ensures
        r == has_mp3_extension(p@),
{
    let len = p.unicode_len();
    let mut i: usize = 0;
    let mut name_start: usize = 0;
    while i < len
        invariant
            len == p@.len(),
            0 <= name_start <= i <= len,
            name_start > 0 ==> p@[name_start - 1] == '/',
            forall|k: int| name_start <= k < i ==> p@[k] != '/',
        decreases len - i,
    {
        if p.get_char(i) == '/' {
            name_start = i + 1;
        }
        i = i + 1;
    }
    proof {
        lemma_after_last_slash_exact(p@, name_start as int);
    }
    let ghost name = p@.subrange(name_start as int, len as int);
    if len - name_start < 5 {
        return false;
    }
    let c0 = p.get_char(len - 4);
    let c1 = p.get_char(len - 3);
    let c2 = p.get_char(len - 2);
    let c3 = p.get_char(len - 1);
    let ok = c0 == '.' && c1 == 'm' && c2 == 'p' && c3 == '3';
    proof {
        let tail = name.subrange(name.len() - 4, name.len() as int);
        assert(tail[0] == p@[len - 4]);
        assert(tail[1] == p@[len - 3]);
        assert(tail[2] == p@[len - 2]);
        assert(tail[3] == p@[len - 1]);
        if ok {
            assert(tail =~= seq!['.', 'm', 'p', '3']);
        } else {
            if tail == seq!['.', 'm', 'p', '3'] {
                assert(tail[0] == '.' && tail[1] == 'm' && tail[2] == 'p' && tail[3] == '3');
            }
        }
    }
    ok
}

/// The tracks one direct entry of a directory contributes to discovery: a
/// directory is walked when the run is recursive, and otherwise both kinds
/// of entry are taken exactly when their name carries the `mp3` extension.
pub open spec fn walk_entry(e: FsEntry, recursive: bool) -> Seq<Seq<char>>
    decreases e,
{
    match e {
        FsEntry::File { path } => if has_mp3_extension(path@) {
            seq![path@]
        } else {
            Seq::empty()
        },
        FsEntry::Dir { path, entries } => {
            if recursive {
                walk_entries(entries@, true)
            } else if has_mp3_extension(path@) {
                seq![path@]
            } else {
                Seq::empty()
            }
        },
    }
}

/// The tracks a run of direct entries contributes, in enumeration order.
pub open spec fn walk_entries(es: Seq<FsEntry>, recursive: bool) -> Seq<Seq<char>>
    decreases es,
{
    if es.len() == 0 {
        Seq::empty()
    } else {
        walk_entry(es[0], recursive) + walk_entries(es.drop_first(), recursive)
    }
}

/// The entries one direct entry contributes to the warning list: whatever
/// is neither collected nor recursed into.
pub open spec fn skipped_entry(e: FsEntry, recursive: bool) -> Seq<Seq<char>>
    decreases e,
{
    match e {
        FsEntry::File { path } => if has_mp3_extension(path@) {
            Seq::empty()
        } else {
            seq![path@]
        },
        FsEntry::Dir { path, entries } => {
            if recursive {
                skipped_entries(entries@, true)
            } else if has_mp3_extension(path@) {
                Seq::empty()
            } else {
                seq![path@]
            }
        },
    }
}

/// The warning list a run of direct entries contributes, in order.
pub open spec fn skipped_entries(es: Seq<FsEntry>, recursive: bool) -> Seq<Seq<char>>
    decreases es,
{
    if es.len() == 0 {
        Seq::empty()
    } else {
        skipped_entry(es[0], recursive) + skipped_entries(es.drop_first(), recursive)
    }
}

/// What discovery returns for a root node: a non-directory is returned as
/// is, without any extension check; a directory yields the walk of its
/// entries.
pub open spec fn spec_discover(root: FsEntry, recursive: bool) -> Seq<Seq<char>> {
    match root {
        FsEntry::File { path } => seq![path@],
        FsEntry::Dir { path: _, entries } => walk_entries(entries@, recursive),
    }
}

/// The warnings discovery records for a root node.
pub open spec fn spec_discover_skipped(root: FsEntry, recursive: bool) -> Seq<Seq<char>> {
    match root {
        FsEntry::File { path: _ } => Seq::empty(),
        FsEntry::Dir { path: _, entries } => skipped_entries(entries@, recursive),
    }
}

/// Walking one more entry appends that entry's contribution.
pub proof fn lemma_walk_entries_snoc(es: Seq<FsEntry>, e: FsEntry, recursive: bool)
    ensures
        walk_entries(es.push(e), recursive) == walk_entries(es, recursive) + walk_entry(
            e,
            recursive,
        ),
        skipped_entries(es.push(e), recursive) == skipped_entries(es, recursive) + skipped_entry(
            e,
            recursive,
        ),
    decreases es.len(),
{
    if es.len() == 0 {
        assert(es.push(e).drop_first() =~= es);
        assert(es.push(e)[0] == e);
        assert(walk_entries(es.push(e), recursive) =~= walk_entries(es, recursive) + walk_entry(
            e,
            recursive,
        ));
        assert(skipped_entries(es.push(e), recursive) =~= skipped_entries(es, recursive)
            + skipped_entry(e, recursive));
    } else {
        assert(es.push(e).drop_first() =~= es.drop_first().push(e));
        lemma_walk_entries_snoc(es.drop_first(), e, recursive);
        assert(walk_entries(es.push(e), recursive) =~= walk_entries(es, recursive) + walk_entry(
            e,
            recursive,
        ));
        assert(skipped_entries(es.push(e), recursive) =~= skipped_entries(es, recursive)
            + skipped_entry(e, recursive));
    }
}

/// The result of a discovery run: the collected tracks and the entries
/// skipped with a warning.
pub struct Discovery {
    pub tracks: Vec<String>,
    pub skipped: Vec<String>,
}

#[verifier::loop_isolation(false)]
fn collect_entry(e: &FsEntry, recursive: bool, tracks: &mut Vec<String>, skipped: &mut Vec<String>)
    ensures
        final(tracks).deep_view() == old(tracks).deep_view() + walk_entry(*e, recursive),
        final(skipped).deep_view() == old(skipped).deep_view() + skipped_entry(*e, recursive),
    decreases *e,
{
    match e {
        FsEntry::File { path } => {
            if is_mp3_path(path.as_str()) {
                tracks.push(path.clone());
                proof {
                    assert(tracks.deep_view() =~= old(tracks).deep_view() + walk_entry(
                        *e,
                        recursive,
                    ));
                    assert(skipped.deep_view() =~= old(skipped).deep_view() + skipped_entry(
                        *e,
                        recursive,
                    ));
                }
            } else {
                skipped.push(path.clone());
                proof {
                    assert(tracks.deep_view() =~= old(tracks).deep_view() + walk_entry(
                        *e,
                        recursive,
                    ));
                    assert(skipped.deep_view() =~= old(skipped).deep_view() + skipped_entry(
                        *e,
                        recursive,
                    ));
                }
            }
        },
        FsEntry::Dir { path, entries } => {
            if recursive {
                let n = entries.len();
                let mut i: usize = 0;
                while i < n
                    invariant
                        n == entries@.len(),
                        0 <= i <= n,
                        tracks.deep_view() == old(tracks).deep_view() + walk_entries(
                            entries@.take(i as int),
                            true,
                        ),
                        skipped.deep_view() == old(skipped).deep_view() + skipped_entries(
                            entries@.take(i as int),
                            true,
                        ),
                        recursive,
                    decreases n - i,
                {
                    proof {
                        assert(e->Dir_entries == *entries);
                        assert(decreases_to!(*e => e->Dir_entries));
                        assert(decreases_to!(*entries => entries@));
                        assert(decreases_to!(entries@ => entries@[i as int]));
                        assert(decreases_to!(*e => entries@[i as int]));
                    }
                    collect_entry(&entries[i], true, tracks, skipped);
                    proof {
                        assert(entries@.take((i + 1) as int) =~= entries@.take(i as int).push(
                            entries@[i as int],
                        ));
                        lemma_walk_entries_snoc(entries@.take(i as int), entries@[i as int], true);
                    }
                    i = i + 1;
                }
                proof {
                    assert(entries@.take(n as int) =~= entries@);
                }
            } else if is_mp3_path(path.as_str()) {
                tracks.push(path.clone());
                proof {
                    assert(tracks.deep_view() =~= old(tracks).deep_view() + walk_entry(
                        *e,
                        recursive,
                    ));
                    assert(skipped.deep_view() =~= old(skipped).deep_view() + skipped_entry(
                        *e,
                        recursive,
                    ));
                }
            } else {
                skipped.push(path.clone());
                proof {
                    assert(tracks.deep_view() =~= old(tracks).deep_view() + walk_entry(
                        *e,
                        recursive,
                    ));
                    assert(skipped.deep_view() =~= old(skipped).deep_view() + skipped_entry(
                        *e,
                        recursive,
                    ));
                }
            }
        },
    }
}

/// Discover the playable tracks under `root`, together with the entries
/// skipped with a warning. A non-directory root is returned as the single
/// track, whatever its extension.
#[verifier::loop_isolation(false)]
pub fn discover(root: &FsEntry, recursive: bool) -> (r: Discovery)
    ensures
        r.tracks.deep_view() == spec_discover(*root, recursive),
        r.skipped.deep_view() == spec_discover_skipped(*root, recursive),
{
    match root {
        FsEntry::File { path } => {
            let mut tracks: Vec<String> = Vec::new();
            tracks.push(path.clone());
            let skipped: Vec<String> = Vec::new();
            proof {
                assert(tracks.deep_view() =~= spec_discover(*root, recursive));
                assert(skipped.deep_view() =~= spec_discover_skipped(*root, recursive));
            }
            Discovery { tracks, skipped }
        },
        FsEntry::Dir { path: _, entries } => {
            let mut tracks: Vec<String> = Vec::new();
            let mut skipped: Vec<String> = Vec::new();
            let n = entries.len();
            let mut i: usize = 0;
            while i < n
                invariant
                    n == entries@.len(),
                    0 <= i <= n,
                    tracks.deep_view() == walk_entries(entries@.take(i as int), recursive),
                    skipped.deep_view() == skipped_entries(entries@.take(i as int), recursive),
                decreases n - i,
            {
                collect_entry(&entries[i], recursive, &mut tracks, &mut skipped);
                proof {
                    assert(entries@.take((i + 1) as int) =~= entries@.take(i as int).push(
                        entries@[i as int],
                    ));
                    lemma_walk_entries_snoc(entries@.take(i as int), entries@[i as int], recursive);
                }
                i = i + 1;
            }
            proof {
                assert(entries@.take(n as int) =~= entries@);
            }
            Discovery { tracks, skipped }
        },
    }
}

/// The track paths found under `root`: discovery's main entry point,
/// returning the playable list alone.
pub fn get_file_paths(root: &FsEntry, recursive: bool) -> (r: Vec<String>)
    ensures
        r.deep_view() == spec_discover(*root, recursive),
{
    let d = discover(root, recursive);
    d.tracks
}

/// The paths a map-and-filter view of a directory's entries keeps.
pub open spec fn entry_path_fn() -> spec_fn(FsEntry) -> Seq<char> {
    |e: FsEntry| e.path_spec()
}

/// The predicate that keeps exactly the paths with the `mp3` extension.
pub open spec fn mp3_pred() -> spec_fn(Seq<char>) -> bool {
    |p: Seq<char>| has_mp3_extension(p)
}

/// A non-recursive walk of a directory is a plain filter: it returns the
/// paths of the direct entries that carry the `mp3` extension, in
/// enumeration order, and nothing from inside subdirectories.
pub proof fn lemma_flat_walk_is_filter(es: Seq<FsEntry>)
    ensures
        walk_entries(es, false) == es.map_values(entry_path_fn()).filter(mp3_pred()),
    decreases es.len(),
{
    if es.len() == 0 {
        assert(walk_entries(es, false) =~= es.map_values(entry_path_fn()).filter(mp3_pred()));
    } else {
        let u = es.drop_last();
        let l = es.last();
        lemma_flat_walk_is_filter(u);
        lemma_walk_entries_snoc(u, l, false);
        assert(u.push(l) =~= es);
        let m = es.map_values(entry_path_fn());
        assert(m.drop_last() =~= u.map_values(entry_path_fn()));
        assert(m.last() == l.path_spec());
        assert(walk_entries(es, false) == walk_entries(u, false) + walk_entry(l, false));
        let sub = m.drop_last().filter(mp3_pred());
        assert(sub == u.map_values(entry_path_fn()).filter(mp3_pred()));
        match l {
            FsEntry::File { path } => {
                assert(l.path_spec() == path@);
            },
            FsEntry::Dir { path, entries: _ } => {
                assert(l.path_spec() == path@);
            },
        }
        reveal_with_fuel(Seq::filter, 2);
        assert(m.len() == es.len());
        assert(mp3_pred()(m.last()) == has_mp3_extension(l.path_spec()));
        if has_mp3_extension(l.path_spec()) {
            assert(walk_entry(l, false) =~= seq![l.path_spec()]);
            assert(m.filter(mp3_pred()) == sub.push(m.last()));
            assert(walk_entries(es, false) =~= m.filter(mp3_pred()));
        } else {
            assert(walk_entry(l, false) =~= Seq::<Seq<char>>::empty());
            assert(m.filter(mp3_pred()) == sub);
            assert(walk_entries(es, false) =~= m.filter(mp3_pred()));
        }
    }
}

/// How many `.mp3` files stand below one entry: a file counts by its own
/// name, a directory by the sum over its direct entries — that is, the sum
/// of matches at every directory level.
pub open spec fn count_tree(e: FsEntry) -> int
    decreases e,
{
    match e {
        FsEntry::File { path } => if has_mp3_extension(path@) {
            1
        } else {
            0
        },
        FsEntry::Dir { path: _, entries } => count_forest(entries@),
    }
}

/// The sum of [`count_tree`] over a run of entries.
pub open spec fn count_forest(es: Seq<FsEntry>) -> int
    decreases es,
{
    if es.len() == 0 {
        0
    } else {
        count_tree(es[0]) + count_forest(es.drop_first())
    }
}

/// A recursive walk returns one track for every `.mp3` file reachable
/// through nested subdirectories: its length is the sum of matches at
/// every directory level.
pub proof fn lemma_recursive_walk_count(e: FsEntry)
    ensures
        walk_entry(e, true).len() == count_tree(e),
    decreases e,
{
    match e {
        FsEntry::File { path: _ } => {},
        FsEntry::Dir { path: _, entries } => {
            lemma_recursive_walk_count_forest(entries@);
        },
    }
}

/// The run form of [`lemma_recursive_walk_count`].
pub proof fn lemma_recursive_walk_count_forest(es: Seq<FsEntry>)
    ensures
        walk_entries(es, true).len() == count_forest(es),
    decreases es,
{
    if es.len() > 0 {
        lemma_recursive_walk_count(es[0]);
        lemma_recursive_walk_count_forest(es.drop_first());
    }
}

/// Every track a recursive or flat walk returns carries the `mp3`
/// extension: nothing else is handed to playback.
pub proof fn lemma_walk_entry_tracks_are_mp3(e: FsEntry, recursive: bool)
    ensures
        forall|i: int|
            0 <= i < walk_entry(e, recursive).len() ==> has_mp3_extension(
                #[trigger] walk_entry(e, recursive)[i],
            ),
    decreases e,
{
    match e {
        FsEntry::File { path } => {
            if has_mp3_extension(path@) {
                assert(walk_entry(e, recursive) =~= seq![path@]);
                assert(walk_entry(e, recursive)[0] == path@);
            }
        },
        FsEntry::Dir { path, entries } => {
            if recursive {
                lemma_walk_entries_tracks_are_mp3(entries@, true);
                assert(walk_entry(e, recursive) == walk_entries(entries@, true));
            } else if has_mp3_extension(path@) {
                assert(walk_entry(e, recursive) =~= seq![path@]);
                assert(walk_entry(e, recursive)[0] == path@);
            }
        },
    }
}

/// The run form of [`lemma_walk_entry_tracks_are_mp3`].
pub proof fn lemma_walk_entries_tracks_are_mp3(es: Seq<FsEntry>, recursive: bool)
    ensures
        forall|i: int|
            0 <= i < walk_entries(es, recursive).len() ==> has_mp3_extension(
                #[trigger] walk_entries(es, recursive)[i],
            ),
    decreases es,
{
    if es.len() > 0 {
        lemma_walk_entry_tracks_are_mp3(es[0], recursive);
        lemma_walk_entries_tracks_are_mp3(es.drop_first(), recursive);
        let a = walk_entry(es[0], recursive);
        let b = walk_entries(es.drop_first(), recursive);
        let w = walk_entries(es, recursive);
        assert(w == a + b);
        assert forall|i: int| 0 <= i < w.len() implies has_mp3_extension(#[trigger] w[i]) by {
            if i < a.len() {
                assert(w[i] == a[i]);
            } else {
                assert(w[i] == b[i - a.len()]);
            }
        }
    }
}

/// Discovery of a non-directory path returns exactly that path, whatever
/// its extension.
pub proof fn lemma_discover_non_directory(path: String, recursive: bool)
    ensures
        spec_discover(FsEntry::File { path }, recursive) == seq![path@],
{
}

} // verus!
