//! Editing remote files in an external editor: where the local copy goes, which copies are
//! watched, and when a change to one is reported for upload.
use vstd::prelude::*;
use std::collections::hash_map::DefaultHasher;
use vstd::std_specs::hash::DefaultHasherAdditionalSpecFns;
use std::hash::{Hash, Hasher};
use crate::seqs::{first_match, lemma_filter_take_step, lemma_first_match_at, lemma_first_match_none, none_before};
use crate::text::{
    last_index_of, decimal, decimal_string, from_chars, owned, push_str, starts_with, starts_with_spec, str_eq,
    to_chars,
};

verus! {

// ---------------------------------------------------------------------------
// Local copies
// ---------------------------------------------------------------------------
/// What hashing `text` as a `str` (`<str as Hash>::hash`) adds to a `DefaultHasher`'s state.
pub uninterp spec fn str_hash_writes(text: Seq<char>) -> Seq<Seq<u8>>;

/// The hash `std::collections::hash_map::DefaultHasher::new()` gives `text` (hashed as a
/// `str`).
pub open spec fn default_hash_of(text: Seq<char>) -> u64 {
    DefaultHasher::spec_finish(str_hash_writes(text))
}

/// Feeds `text` to `hasher` (`<str as Hash>::hash`). Stated: what it adds depends on the text
/// alone; which bytes those are is left to std.
#[verifier::external_body]
fn hash_str_into(text: &str, hasher: &mut DefaultHasher)
    ensures
        final(hasher)@ == old(hasher)@ + str_hash_writes(text@),
{
    text.hash(hasher)
}

/// Hashes `text` with a fresh `DefaultHasher`.
fn hash_text(text: &str) -> (res: u64)
    ensures
        res == default_hash_of(text@),
{
    let mut hasher = DefaultHasher::new();
    hash_str_into(text, &mut hasher);
    assert(hasher@ =~= str_hash_writes(text@));
    hasher.finish()
}

/// The text after the last `/` of `p` (all of `p` when it has none).
pub open spec fn last_segment(p: Seq<char>) -> Seq<char> {
    match last_index_of(p, '/') {
        Some(i) => p.subrange(i + 1, p.len() as int),
        None => p,
    }
}

/// `p` reads the same as a path on every platform: no `\`, no `:` and no leading `//`, so
/// `/` is its only separator and it has no prefix.
pub open spec fn portable_path(p: Seq<char>) -> bool {
    &&& !p.contains('\\')
    &&& !p.contains(':')
    &&& !starts_with_spec(p, seq!['/', '/'])
}

/// The file name `Path::file_name` gives a portable path whose last `/`-separated segment is a
/// plain name (not empty, `.` or `..`): that segment.
pub open spec fn plain_file_name(p: Seq<char>) -> Option<Seq<char>> {
    let seg = last_segment(p);
    if portable_path(p) && seg.len() > 0 && seg != seq!['.'] && seg != seq!['.', '.'] {
        Some(seg)
    } else {
        None
    }
}

/// A portable path that ends in `..` (the whole path, or its last segment).
pub open spec fn ends_in_parent(p: Seq<char>) -> bool {
    portable_path(p) && last_segment(p) == seq!['.', '.']
}

/// The final component of `path` (`std::path::Path::file_name`), converted to text
/// (`to_string_lossy`, exact for text that came from a `&str`). Stated, as `Path::file_name`'s
/// documentation gives it on every platform: a portable path whose last segment is a plain
/// name yields that name, and one that ends in `..` yields nothing. What other paths yield
/// depends on the platform's path syntax and is left unstated.
#[verifier::external_body]
fn path_file_name(path: &str) -> (res: Option<String>)
    ensures
        plain_file_name(path@) is Some ==> res is Some && res->0@ == plain_file_name(path@)->0,
        ends_in_parent(path@) ==> res is None,
{
    std::path::Path::new(path).file_name().map(|s| s.to_string_lossy().to_string())
}

/// `name` appended to directory `dir` as a path (`PathBuf::join`): an absolute `name` replaces
/// `dir`; otherwise a `/` separates them unless `dir` is empty or already ends with one.
pub open spec fn path_join(dir: Seq<char>, name: Seq<char>) -> Seq<char> {
    if name.len() > 0 && name[0] == '/' {
        name
    } else if dir.len() == 0 {
        name
    } else if dir.last() == '/' {
        dir + name
    } else {
        dir.push('/') + name
    }
}

/// The name of the local copy: session, hash of the remote path and file name, joined by `_`;
/// `unknown` stands for a missing file name.
pub open spec fn temp_name_spec(session_id: Seq<char>, hash: u64, file_name: Option<Seq<char>>) -> Seq<char> {
    let name = match file_name {
        Some(n) => n,
        None => "unknown"@,
    };
    session_id + "_"@ + decimal(hash as nat) + "_"@ + name
}

/// The name of the local copy of a remote file, from the session, the hash of the remote path
/// and the remote file name.
pub fn temp_file_name(session_id: &str, hash: u64, file_name: Option<String>) -> (res: String)
    ensures
        res@ == temp_name_spec(session_id@, hash, match file_name {
            Some(n) => Some(n@),
            None => None,
        }),
{
    let mut v = to_chars(session_id);
    push_str(&mut v, "_");
    push_str(&mut v, decimal_string(hash).as_str());
    push_str(&mut v, "_");
    match file_name {
        Some(n) => push_str(&mut v, n.as_str()),
        None => push_str(&mut v, "unknown"),
    }
    from_chars(v.as_slice())
}

/// `name` joined to directory `dir` as a path.
pub fn join_path(dir: &str, name: &str) -> (res: String)
    ensures
        res@ == path_join(dir@, name@),
{
    let nc = to_chars(name);
    if nc.len() > 0 && nc[0] == '/' {
        return owned(name);
    }
    let mut v = to_chars(dir);
    let n = v.len();
    if n > 0 && v[n - 1] != '/' {
        v.push('/');
    }
    push_str(&mut v, name);
    from_chars(v.as_slice())
}

/// The local copy of remote file `remote_path` of session `session_id`, inside the editing
/// directory `temp_dir`. The file name is the platform's reading of the remote path: its last
/// segment when that is a plain name, `unknown` when the path ends in `..`.
pub fn temp_file_path(temp_dir: &str, session_id: &str, remote_path: &str) -> (res: String)
    ensures
        exists|n: Option<Seq<char>>|
            res@ == path_join(temp_dir@, temp_name_spec(session_id@, default_hash_of(remote_path@), n)),
        plain_file_name(remote_path@) matches Some(n) ==> res@ == path_join(
            temp_dir@,
            temp_name_spec(session_id@, default_hash_of(remote_path@), Some(n)),
        ),
        ends_in_parent(remote_path@) ==> res@ == path_join(
            temp_dir@,
            temp_name_spec(session_id@, default_hash_of(remote_path@), None),
        ),
{
    let hash = hash_text(remote_path);
    let name = path_file_name(remote_path);
    let ghost n = match &name {
        Some(x) => Some(x@),
        None => None,
    };
    let file = temp_file_name(session_id, hash, name);
    let res = join_path(temp_dir, file.as_str());
    assert(res@ == path_join(temp_dir@, temp_name_spec(session_id@, default_hash_of(remote_path@), n)));
    res
}

/// A file of the editing directory belongs to the session whose id its name starts with.
pub fn is_session_temp_file(file_name: &str, session_id: &str) -> (res: bool)
    ensures
        res == starts_with_spec(file_name@, session_id@),
{
    starts_with(to_chars(file_name).as_slice(), to_chars(session_id).as_slice())
}

/// How to open a local copy in an editor.
#[derive(Debug)]
pub enum EditorLaunch {
    /// Run this editor program with the file.
    Program(String),
    /// Open the file with this macOS application bundle (`open -a`).
    AppBundle(String),
    /// Open the file with the system's default application.
    SystemDefault,
}

/// How to open a file with the configured editor `editor_path` (none, or empty: the system's
/// default); on macOS a path ending in `.app` is an application bundle.
pub fn editor_launch(editor_path: Option<&str>, on_macos: bool) -> (res: EditorLaunch)
    ensures
        match editor_path {
            Some(p) => if p@.len() > 0 {
                if on_macos && p@.len() >= 4 && p@.subrange(p@.len() - 4, p@.len() as int)
                    == ".app"@ {
                    res matches EditorLaunch::AppBundle(x) && x@ == p@
                } else {
                    res matches EditorLaunch::Program(x) && x@ == p@
                }
            } else {
                res is SystemDefault
            },
            None => res is SystemDefault,
        },
{
    match editor_path {
        Some(p) => {
            let cs = to_chars(p);
            let n = cs.len();
            if n == 0 {
                return EditorLaunch::SystemDefault;
            }
            if on_macos && n >= 4 {
                let tail = from_chars(crate::text::slice_chars(cs.as_slice(), n - 4, n).as_slice());
                if str_eq(tail.as_str(), ".app") {
                    return EditorLaunch::AppBundle(owned(p));
                }
            }
            EditorLaunch::Program(owned(p))
        },
        None => EditorLaunch::SystemDefault,
    }
}

// ---------------------------------------------------------------------------
// Watched copies
// ---------------------------------------------------------------------------
/// A local copy being watched.
#[derive(Debug)]
pub struct WatchedFile {
    pub local_path: String,
    pub remote_path: String,
    pub session_id: String,
    /// Last modification seen, in nanoseconds since the Unix epoch.
    pub last_modified: u128,
}

impl Clone for WatchedFile {
    fn clone(&self) -> (res: Self)
        ensures
            res == *self,
    {
        WatchedFile {
            local_path: self.local_path.clone(),
            remote_path: self.remote_path.clone(),
            session_id: self.session_id.clone(),
            last_modified: self.last_modified,
        }
    }
}

/// A watched copy changed.
#[derive(Debug)]
pub enum FileWatchEvent {
    Modified { session_id: String, local_path: String, remote_path: String },
}

/// The copy is at `path`.
pub open spec fn at_path(path: Seq<char>) -> spec_fn(WatchedFile) -> bool {
    |f: WatchedFile| f.local_path@ == path
}

/// No two watched copies share a local path.
pub open spec fn distinct_paths(v: Seq<WatchedFile>) -> bool {
    forall|a: int, b: int| 0 <= a < b < v.len() ==> (#[trigger] v[a]).local_path@ != (#[trigger] v[b]).local_path@
}

/// The copy watched at `path`, if any.
pub open spec fn watched_at(v: Seq<WatchedFile>, path: Seq<char>) -> Option<WatchedFile> {
    match first_match(v, at_path(path)) {
        Some(i) => Some(v[i]),
        None => None,
    }
}

/// The copy belongs to another session than `session_id`.
pub open spec fn other_session(session_id: Seq<char>) -> spec_fn(WatchedFile) -> bool {
    |f: WatchedFile| f.session_id@ != session_id
}

/// The local paths of the copies of session `session_id`, in table order.
pub open spec fn session_paths(v: Seq<WatchedFile>, session_id: Seq<char>) -> Seq<Seq<char>>
    decreases v.len(),
{
    if v.len() == 0 {
        Seq::empty()
    } else if v.last().session_id@ == session_id {
        session_paths(v.drop_last(), session_id).push(v.last().local_path@)
    } else {
        session_paths(v.drop_last(), session_id)
    }
}

/// The watched copies, one per local path.
#[derive(Debug)]
pub struct WatchTable {
    files: Vec<WatchedFile>,
}

impl View for WatchTable {
    type V = Seq<WatchedFile>;

    closed spec fn view(&self) -> Seq<WatchedFile> {
        self.files@
    }
}

fn position_of_path(v: &Vec<WatchedFile>, path: &str) -> (res: Option<usize>)
    ensures
        match res {
            Some(i) => i < v@.len() && v@[i as int].local_path@ == path@ && first_match(v@, at_path(path@))
                == Some(i as int),
            None => first_match(v@, at_path(path@)) is None && forall|k: int|
                0 <= k < v@.len() ==> (#[trigger] v@[k]).local_path@ != path@,
        },
{
    let key = owned(path);
    let mut i: usize = 0;
    while i < v.len()
        invariant
            i <= v@.len(),
            key@ == path@,
            none_before(v@, at_path(path@), i as int),
        decreases v@.len() - i,
    {
        if v[i].local_path == key {
            proof {
                lemma_first_match_at(v@, at_path(path@), i as int);
            }
            return Some(i);
        }
        i = i + 1;
    }
    proof {
        lemma_first_match_none(v@, at_path(path@));
        assert forall|k: int| 0 <= k < v@.len() implies (#[trigger] v@[k]).local_path@ != path@ by {
            assert(!at_path(path@)(v@[k]));
        }
    }
    None
}

impl WatchTable {
    #[verifier::type_invariant]
    spec fn inv(self) -> bool {
        distinct_paths(self.files@)
    }

    /// No copy watched.
    pub fn new() -> (res: Self)
        ensures
            res@.len() == 0,
    {
        WatchTable { files: Vec::new() }
    }

    /// Whether no copy is watched.
    pub fn is_empty(&self) -> (res: bool)
        ensures
            res == (self@.len() == 0),
    {
        self.files.len() == 0
    }

    /// The copies watched, in table order.
    pub fn files(&self) -> (res: &Vec<WatchedFile>)
        ensures
            res@ == self@,
    {
        &self.files
    }

    /// Starts watching `file`, replacing the copy watched at the same local path.
    pub fn watch(&mut self, file: WatchedFile)
        ensures
            match first_match(old(self)@, at_path(file.local_path@)) {
                Some(i) => final(self)@ == old(self)@.update(i, file),
                None => final(self)@ == old(self)@.push(file),
            },
    {
        proof {
            use_type_invariant(&*self);
        }
        let pos = position_of_path(&self.files, file.local_path.as_str());
        let ghost f = file;
        match pos {
            Some(i) => {
                let mut files = Vec::new();
                std::mem::swap(&mut files, &mut self.files);
                files.set(i, file);
                proof {
                    assert forall|a: int, b: int| 0 <= a < b < files@.len() implies (#[trigger] files@[a]).local_path@
                        != (#[trigger] files@[b]).local_path@ by {
                        if a == i {
                            assert(old(self)@[b].local_path@ != old(self)@[a].local_path@);
                        } else if b == i {
                            assert(old(self)@[b].local_path@ != old(self)@[a].local_path@);
                        }
                    }
                }
                self.files = files;
            },
            None => {
                let mut files = Vec::new();
                std::mem::swap(&mut files, &mut self.files);
                files.push(file);
                proof {
                    assert forall|a: int, b: int| 0 <= a < b < files@.len() implies (#[trigger] files@[a]).local_path@
                        != (#[trigger] files@[b]).local_path@ by {
                        if b == files@.len() - 1 {
                            assert(files@[a] == old(self)@[a]);
                        } else {
                            assert(files@[a] == old(self)@[a]);
                            assert(files@[b] == old(self)@[b]);
                        }
                    }
                }
                self.files = files;
            },
        }
    }

    /// Stops watching the copy at `local_path`.
    pub fn unwatch(&mut self, local_path: &str)
        ensures
            match first_match(old(self)@, at_path(local_path@)) {
                Some(i) => final(self)@ == old(self)@.remove(i),
                None => final(self)@ == old(self)@,
            },
    {
        proof {
            use_type_invariant(&*self);
        }
        match position_of_path(&self.files, local_path) {
            Some(i) => {
                let mut files = Vec::new();
                std::mem::swap(&mut files, &mut self.files);
                let _ = files.remove(i);
                proof {
                    assert forall|a: int, b: int| 0 <= a < b < files@.len() implies (#[trigger] files@[a]).local_path@
                        != (#[trigger] files@[b]).local_path@ by {
                        let oa = if a < i { a } else { a + 1 };
                        let ob = if b < i { b } else { b + 1 };
                        assert(files@[a] == old(self)@[oa]);
                        assert(files@[b] == old(self)@[ob]);
                    }
                }
                self.files = files;
            },
            None => {},
        }
    }

    /// A change was seen at `path`, made at time `modified`: when a copy is watched there and
    /// the change is newer than the last one seen, it is recorded and reported.
    pub fn on_modified(&mut self, path: &str, modified: u128) -> (res: Option<FileWatchEvent>)
        ensures
            match first_match(old(self)@, at_path(path@)) {
                Some(i) => if modified > old(self)@[i].last_modified {
                    final(self)@ == old(self)@.update(
                        i,
                        WatchedFile { last_modified: modified, ..old(self)@[i] },
                    ) && (res matches Some(FileWatchEvent::Modified { session_id, local_path, remote_path })
                        && session_id == old(self)@[i].session_id && local_path
                        == old(self)@[i].local_path && remote_path == old(self)@[i].remote_path)
                } else {
                    final(self)@ == old(self)@ && res is None
                },
                None => final(self)@ == old(self)@ && res is None,
            },
    {
        proof {
            use_type_invariant(&*self);
        }
        match position_of_path(&self.files, path) {
            Some(i) => {
                if modified > self.files[i].last_modified {
                    let event = FileWatchEvent::Modified {
                        session_id: self.files[i].session_id.clone(),
                        local_path: self.files[i].local_path.clone(),
                        remote_path: self.files[i].remote_path.clone(),
                    };
                    self.set_modified(i, modified);
                    Some(event)
                } else {
                    None
                }
            },
            None => None,
        }
    }

    /// Records `modified` as the last change seen of the copy at `path` (after its upload).
    pub fn update_last_modified(&mut self, path: &str, modified: u128)
        ensures
            match first_match(old(self)@, at_path(path@)) {
                Some(i) => final(self)@ == old(self)@.update(
                    i,
                    WatchedFile { last_modified: modified, ..old(self)@[i] },
                ),
                None => final(self)@ == old(self)@,
            },
    {
        match position_of_path(&self.files, path) {
            Some(i) => self.set_modified(i, modified),
            None => {},
        }
    }

    fn set_modified(&mut self, i: usize, modified: u128)
        requires
            i < old(self)@.len(),
        ensures
            final(self)@ == old(self)@.update(
                i as int,
                WatchedFile { last_modified: modified, ..old(self)@[i as int] },
            ),
    {
        proof {
            use_type_invariant(&*self);
        }
        let mut files = Vec::new();
        std::mem::swap(&mut files, &mut self.files);
        let mut f = files.remove(i);
        f.last_modified = modified;
        files.insert(i, f);
        proof {
            assert(files@ =~= old(self)@.update(i as int, f));
            assert forall|a: int, b: int| 0 <= a < b < files@.len() implies (#[trigger] files@[a]).local_path@
                != (#[trigger] files@[b]).local_path@ by {
                assert(old(self)@[a].local_path@ != old(self)@[b].local_path@);
            }
        }
        self.files = files;
    }

    /// Stops watching every copy of session `session_id`; returns their local paths, in table
    /// order.
    pub fn unwatch_session(&mut self, session_id: &str) -> (res: Vec<String>)
        ensures
            final(self)@ == old(self)@.filter(other_session(session_id@)),
            res@.map_values(|s: String| s@) == session_paths(old(self)@, session_id@),
    {
        proof {
            use_type_invariant(&*self);
        }
        let key = owned(session_id);
        let mut files = Vec::new();
        std::mem::swap(&mut files, &mut self.files);
        let ghost all = files@;
        let mut kept: Vec<WatchedFile> = Vec::new();
        let mut removed: Vec<String> = Vec::new();
        let mut i: usize = 0;
        proof {
            assert(all.take(0) =~= Seq::<WatchedFile>::empty());
            assert(all.take(0).filter(other_session(session_id@)) =~= Seq::<WatchedFile>::empty());
            assert(removed@.map_values(|s: String| s@) =~= Seq::<Seq<char>>::empty());
        }
        while i < files.len()
            invariant
                files@ == all,
                distinct_paths(all),
                key@ == session_id@,
                i <= all.len(),
                kept@ == all.take(i as int).filter(other_session(session_id@)),
                removed@.map_values(|s: String| s@) == session_paths(all.take(i as int), session_id@),
                forall|a: int| 0 <= a < kept@.len() ==> exists|j: int| 0 <= j < i && (#[trigger] kept@[a]) == all[j],
                distinct_paths(kept@),
            decreases all.len() - i,
        {
            proof {
                lemma_filter_take_step(all, other_session(session_id@), i as int);
                assert(all.take(i + 1).drop_last() =~= all.take(i as int));
            }
            let f = files[i].clone();
            if f.session_id == key {
                let ghost before = removed@;
                removed.push(f.local_path);
                proof {
                    assert(removed@.map_values(|s: String| s@) =~= before.map_values(|s: String| s@).push(
                        all[i as int].local_path@,
                    ));
                }
            } else {
                let ghost before = kept@;
                kept.push(f);
                proof {
                    assert forall|a: int| 0 <= a < kept@.len() implies exists|j: int| 0 <= j < i + 1 && (#[trigger] kept@[a]) == all[j] by {
                        if a < before.len() {
                            assert(kept@[a] == before[a]);
                        } else {
                            assert(kept@[a] == all[i as int]);
                        }
                    }
                    assert forall|a: int, b: int| 0 <= a < b < kept@.len() implies (#[trigger] kept@[a]).local_path@
                        != (#[trigger] kept@[b]).local_path@ by {
                        if b == before.len() {
                            assert(kept@[a] == before[a]);
                            let j = choose|j: int| 0 <= j < i && (#[trigger] before[a]) == all[j];
                            assert(all[j].local_path@ != all[i as int].local_path@);
                        } else {
                            assert(kept@[a] == before[a]);
                            assert(kept@[b] == before[b]);
                        }
                    }
                }
            }
            i = i + 1;
        }
        proof {
            assert(all.take(i as int) =~= all);
        }
        self.files = kept;
        removed
    }
}

/// A copy just watched is found at its path, and a copy no longer watched is not.
pub proof fn lemma_watch_then_lookup(v: Seq<WatchedFile>, f: WatchedFile, w: Seq<WatchedFile>)
    requires
        distinct_paths(v),
        w == match first_match(v, at_path(f.local_path@)) {
            Some(i) => v.update(i, f),
            None => v.push(f),
        },
    ensures
        watched_at(w, f.local_path@) == Some(f),
{
    let p = at_path(f.local_path@);
    match first_match(v, p) {
        Some(i) => {
            let j = choose|j: int| 0 <= j < v.len() && p(#[trigger] v[j]) && none_before(v, p, j);
            assert(0 <= j < v.len() && p(v[j]) && none_before(v, p, j));
            assert forall|k: int| 0 <= k < i implies !p(#[trigger] w[k]) by {
                assert(w[k] == v[k]);
            }
            lemma_first_match_at(w, p, i);
        },
        None => {
            assert(!exists|k: int| 0 <= k < v.len() && p(#[trigger] v[k]));
            assert forall|k: int| 0 <= k < v.len() implies !p(#[trigger] w[k]) by {
                assert(w[k] == v[k]);
            }
            lemma_first_match_at(w, p, v.len() as int);
        },
    }
}

/// After a copy stops being watched, nothing is watched at its path.
pub proof fn lemma_unwatch_then_lookup(v: Seq<WatchedFile>, path: Seq<char>, w: Seq<WatchedFile>)
    requires
        distinct_paths(v),
        w == match first_match(v, at_path(path)) {
            Some(i) => v.remove(i),
            None => v,
        },
    ensures
        watched_at(w, path) is None,
{
    let p = at_path(path);
    match first_match(v, p) {
        Some(i) => {
            let j = choose|j: int| 0 <= j < v.len() && p(#[trigger] v[j]) && none_before(v, p, j);
            assert(0 <= j < v.len() && p(v[j]) && none_before(v, p, j));
            assert forall|k: int| 0 <= k < w.len() implies !p(#[trigger] w[k]) by {
                if k < j {
                    assert(w[k] == v[k]);
                } else {
                    assert(w[k] == v[k + 1]);
                    assert(v[k + 1].local_path@ != v[j].local_path@);
                }
            }
            lemma_first_match_none(w, p);
        },
        None => {
            assert forall|k: int| 0 <= k < w.len() implies !p(#[trigger] w[k]) by {
                if p(w[k]) {
                    assert(0 <= k < v.len() && p(v[k]));
                }
            }
            lemma_first_match_none(w, p);
        },
    }
}

} // verus!
