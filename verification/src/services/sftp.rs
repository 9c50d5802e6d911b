//! Remote file operations over SFTP: paths, directory creation order, and how transfers are cut
//! into chunks and their progress added up.
use vstd::prelude::*;
use crate::text::{
    concat2, concat3, decimal, decimal_string, from_chars, last_index_of, owned, push_str, rfind_char,
    slice_chars, str_eq, to_chars, trim_end_char, trim_end_char_spec,
};

verus! {

// ---------------------------------------------------------------------------
// Paths
// ---------------------------------------------------------------------------
/// The path of entry `name` listed in directory `dir`.
pub open spec fn child_path_spec(dir: Seq<char>, name: Seq<char>) -> Seq<char> {
    if dir == "/"@ {
        "/"@ + name
    } else {
        trim_end_char_spec(dir, '/') + "/"@ + name
    }
}

/// The path of entry `name` listed in directory `dir`.
pub fn child_path(dir: &str, name: &str) -> (res: String)
    ensures
        res@ == child_path_spec(dir@, name@),
{
    if str_eq(dir, "/") {
        concat2("/", name)
    } else {
        let base = from_chars(trim_end_char(to_chars(dir).as_slice(), '/').as_slice());
        concat3(base.as_str(), "/", name)
    }
}

/// Directory listings name the directory itself and its parent; those are skipped.
pub fn is_dot_entry(name: &str) -> (res: bool)
    ensures
        res == (name@ == "."@ || name@ == ".."@),
{
    str_eq(name, ".") || str_eq(name, "..")
}

/// What a directory entry is.
#[derive(Clone, Copy, Debug, PartialEq, Eq, Structural)]
pub enum FileKind {
    Directory,
    Symlink,
    File,
}

/// The kind of an entry from its attributes: a directory, else a symbolic link, else a file.
pub fn file_kind(is_dir: bool, is_symlink: bool) -> (res: FileKind)
    ensures
        res == if is_dir {
            FileKind::Directory
        } else if is_symlink {
            FileKind::Symlink
        } else {
            FileKind::File
        },
{
    if is_dir {
        FileKind::Directory
    } else if is_symlink {
        FileKind::Symlink
    } else {
        FileKind::File
    }
}

/// The last component of `path`: what follows its last `/`, or the whole path.
pub open spec fn last_component(path: Seq<char>) -> Seq<char> {
    match last_index_of(path, '/') {
        Some(i) => path.subrange(i + 1, path.len() as int),
        None => path,
    }
}

/// The name of the entry at `path` (`path.rsplit('/').next()`).
pub fn entry_name(path: &str) -> (res: String)
    ensures
        res@ == last_component(path@),
{
    let cs = to_chars(path);
    match rfind_char(cs.as_slice(), '/') {
        Some(i) => {
            assert(i < cs.len());
            from_chars(slice_chars(cs.as_slice(), i + 1, cs.len()).as_slice())
        },
        None => owned(path),
    }
}

/// The directory above `path` when it has a `/`: what precedes its last `/`, or `/` when that
/// is empty.
pub open spec fn parent_dir_spec(path: Seq<char>) -> Option<Seq<char>> {
    match last_index_of(path, '/') {
        Some(i) => if i == 0 {
            Some("/"@)
        } else {
            Some(path.subrange(0, i))
        },
        None => None,
    }
}

/// The directory above `path`, or `None` when it has no `/`.
pub fn parent_dir(path: &str) -> (res: Option<String>)
    ensures
        match res {
            Some(p) => parent_dir_spec(path@) == Some(p@),
            None => parent_dir_spec(path@) is None,
        },
{
    let cs = to_chars(path);
    match rfind_char(cs.as_slice(), '/') {
        Some(i) => if i == 0 {
            Some(owned("/"))
        } else {
            Some(from_chars(slice_chars(cs.as_slice(), 0, i).as_slice()))
        },
        None => None,
    }
}

/// A listed entry's path reads back: its name is the entry's name, and its parent is the
/// listed directory without trailing slashes (`/` for the root).
pub proof fn lemma_child_path_reads_back(dir: Seq<char>, name: Seq<char>)
    requires
        name.len() > 0,
        !name.contains('/'),
    ensures
        last_component(child_path_spec(dir, name)) == name,
        parent_dir_spec(child_path_spec(dir, name)) == Some(
            if trim_end_char_spec(dir, '/').len() == 0 {
                "/"@
            } else {
                trim_end_char_spec(dir, '/')
            },
        ),
{
    reveal_strlit("/");
    let base = trim_end_char_spec(dir, '/');
    if dir == "/"@ {
        assert(dir.len() == 1 && dir.last() == '/');
        assert(dir.drop_last() =~= Seq::<char>::empty());
        assert(trim_end_char_spec(dir.drop_last(), '/') =~= Seq::<char>::empty());
        assert(base =~= Seq::<char>::empty());
        assert("/"@ + name =~= base + "/"@ + name);
    }
    let p = child_path_spec(dir, name);
    assert(p =~= base + "/"@ + name);
    let i = base.len() as int;
    assert(p[i] == '/');
    assert forall|k: int| i < k < p.len() implies p[k] != '/' by {
        assert(p[k] == name[k - i - 1]);
    }
    crate::text::lemma_last_index_unique(p, '/', i);
    assert(p.subrange(i + 1, p.len() as int) =~= name);
    assert(p.subrange(0, i) =~= base);
}

// ---------------------------------------------------------------------------
// Creating a directory and its missing parents
// ---------------------------------------------------------------------------
/// What a look at a remote path found.
#[derive(Clone, Copy, Debug, PartialEq, Eq, Structural)]
pub enum PathProbe {
    /// A directory is there.
    Directory,
    /// Something that is not a directory is there.
    NotDirectory,
    /// Nothing is there (or it could not be read).
    Missing,
}

/// The walk from a path up towards the root, collecting the directories that must be made.
#[derive(Debug)]
pub struct MkdirPlan {
    /// The path to look at next; `None` once the walk is over.
    pub current: Option<String>,
    /// Missing directories found so far, deepest first.
    pub missing: Vec<String>,
}

/// The walk goes on from `p` unless `p` is empty or the root.
pub open spec fn walk_goes_on(p: Seq<char>) -> bool {
    p.len() > 0 && p != "/"@
}

/// The texts of `v`.
pub open spec fn strings_view(v: Seq<String>) -> Seq<Seq<char>> {
    v.map_values(|s: String| s@)
}

/// Each missing directory after the first is the parent of the one before it.
pub open spec fn chain_of_parents(v: Seq<Seq<char>>) -> bool {
    forall|k: int| 0 < k < v.len() ==> parent_dir_spec(#[trigger] v[k - 1]) == Some(v[k])
}

/// The walk is consistent: the missing directories go from the deepest upwards, each the
/// parent of the one before, and the path to look at next is the parent of the last one.
pub open spec fn plan_wf(p: MkdirPlan) -> bool {
    &&& chain_of_parents(strings_view(p.missing@))
    &&& (p.missing@.len() > 0 && p.current is Some) ==> parent_dir_spec(p.missing@.last()@) == Some(
        p.current->0@,
    )
}

impl MkdirPlan {
    /// The walk for making directory `path`.
    pub fn new(path: &str) -> (res: Self)
        ensures
            res.current matches Some(c) && c@ == path@,
            res.missing@.len() == 0,
            plan_wf(res),
    {
        MkdirPlan { current: Some(owned(path)), missing: Vec::new() }
    }

    /// The path to look at next, or `None` when the walk is over (at the root, at an empty
    /// path, or past a path without `/`).
    pub fn next_probe(&self) -> (res: Option<String>)
        ensures
            match self.current {
                Some(c) => if walk_goes_on(c@) {
                    res matches Some(r) && r@ == c@
                } else {
                    res is None
                },
                None => res is None,
            },
    {
        match &self.current {
            Some(c) => {
                if to_chars(c.as_str()).len() > 0 && !str_eq(c.as_str(), "/") {
                    Some(c.clone())
                } else {
                    None
                }
            },
            None => None,
        }
    }

    /// Takes in what the look at the current path found: a directory ends the walk, something
    /// else there is an error, and a missing directory is noted and the walk moves to its
    /// parent.
    pub fn on_probe(&mut self, probe: PathProbe) -> (res: Result<(), String>)
        requires
            old(self).current matches Some(c) && walk_goes_on(c@),
        ensures
            ({
                let c = old(self).current->0@;
                match probe {
                    PathProbe::Directory => res is Ok && final(self).current is None
                        && final(self).missing@ == old(self).missing@,
                    PathProbe::NotDirectory => res matches Err(e) && e@ == "Path "@ + c
                        + " exists but is not a directory"@,
                    PathProbe::Missing => res is Ok && strings_view(final(self).missing@)
                        == strings_view(old(self).missing@).push(c) && match parent_dir_spec(c) {
                        Some(p) => final(self).current matches Some(n) && n@ == p,
                        None => final(self).current is None,
                    },
                }
            }),
            plan_wf(*old(self)) ==> plan_wf(*final(self)),
    {
        let c = match &self.current {
            Some(c) => c.clone(),
            None => String::new(),
        };
        match probe {
            PathProbe::Directory => {
                self.current = None;
                Ok(())
            },
            PathProbe::NotDirectory => Err(concat3("Path ", c.as_str(), " exists but is not a directory")),
            PathProbe::Missing => {
                let ghost before = self.missing@;
                let parent = parent_dir(c.as_str());
                self.missing.push(c);
                proof {
                    assert(strings_view(self.missing@) =~= strings_view(before).push(
                        old(self).current->0@,
                    ));
                }
                self.current = parent;
                proof {
                    if plan_wf(*old(self)) {
                        let m = strings_view(self.missing@);
                        assert forall|k: int| 0 < k < m.len() implies parent_dir_spec(#[trigger] m[k - 1])
                            == Some(m[k]) by {
                            if k < before.len() {
                                assert(m[k - 1] == strings_view(before)[k - 1]);
                                assert(m[k] == strings_view(before)[k]);
                            } else {
                                assert(m[k - 1] == before.last()@);
                            }
                        }
                    }
                }
                Ok(())
            },
        }
    }

    /// The directories to make, outermost first: when the walk is consistent, each directory
    /// after the first is a child of the one before it.
    pub fn creation_order(&self) -> (res: Vec<String>)
        ensures
            strings_view(res@) == strings_view(self.missing@).reverse(),
            plan_wf(*self) ==> forall|k: int| 0 < k < res@.len() ==> parent_dir_spec(#[trigger] res@[k]@)
                == Some(res@[k - 1]@),
    {
        let mut res: Vec<String> = Vec::new();
        let n = self.missing.len();
        let mut k: usize = 0;
        while k < n
            invariant
                n == self.missing@.len(),
                k <= n,
                strings_view(res@) == strings_view(self.missing@).reverse().take(k as int),
            decreases n - k,
        {
            let ghost before = res@;
            let item = self.missing[n - 1 - k].clone();
            res.push(item);
            proof {
                assert(strings_view(res@) =~= strings_view(before).push(item@));
                assert(strings_view(self.missing@).reverse()[k as int] == self.missing@[n - 1 - k]@);
                assert(strings_view(res@) =~= strings_view(self.missing@).reverse().take(k + 1));
            }
            k = k + 1;
        }
        proof {
            assert(strings_view(self.missing@).reverse().take(n as int) =~= strings_view(
                self.missing@,
            ).reverse());
            if plan_wf(*self) {
                let m = strings_view(self.missing@);
                assert forall|k: int| 0 < k < res@.len() implies parent_dir_spec(#[trigger] res@[k]@)
                    == Some(res@[k - 1]@) by {
                    assert(strings_view(res@)[k] == res@[k]@);
                    assert(strings_view(res@)[k - 1] == res@[k - 1]@);
                    assert(m[n - 1 - k] == res@[k]@);
                    assert(m[n - k] == res@[k - 1]@);
                    assert(parent_dir_spec(m[(n - k) - 1]) == Some(m[n - k]));
                }
            }
        }
        res
    }
}

// ---------------------------------------------------------------------------
// Parallel transfers
// ---------------------------------------------------------------------------
/// Channels used for one parallel transfer: the asked count kept within 1 to 8.
pub fn clamp_channels(count: usize) -> (res: usize)
    ensures
        res == if count < 1 {
            1
        } else if count > 8 {
            8
        } else {
            count
        },
{
    if count < 1 {
        1
    } else if count > 8 {
        8
    } else {
        count
    }
}

/// The smallest chunk of a parallel transfer: 1 MiB.
pub const MIN_CHUNK_SIZE: u64 = 1048576;

/// A piece of a file moved by one channel.
#[derive(Clone, Copy, Debug, PartialEq, Eq, Structural)]
pub struct ChunkTask {
    pub index: usize,
    pub offset: u64,
    pub length: u64,
}

/// The chunk size for a file of `size` bytes over `channels` channels: an even share (rounded
/// up), at least `MIN_CHUNK_SIZE`.
pub open spec fn chunk_size_spec(size: nat, channels: nat) -> nat {
    let share = (size + channels - 1) / (channels as int);
    if share >= MIN_CHUNK_SIZE {
        share as nat
    } else {
        MIN_CHUNK_SIZE as nat
    }
}

/// `tasks` cut a file of `size` bytes into pieces of `chunk` bytes: numbered from zero, each
/// starting where the one before ended, the last one shorter when needed, together covering
/// the file exactly.
pub open spec fn tiles_file(tasks: Seq<ChunkTask>, size: nat, chunk: nat) -> bool {
    &&& forall|k: int| 0 <= k < tasks.len() ==> {
        &&& (#[trigger] tasks[k]).index == k
        &&& tasks[k].offset == k * chunk
        &&& tasks[k].length == if size - k * chunk < chunk { (size - k * chunk) as nat } else { chunk }
        &&& tasks[k].length > 0
    }
    &&& tasks.len() * chunk >= size
    &&& (tasks.len() - 1) * chunk < size || tasks.len() == 0
}

/// The chunks of a parallel transfer of a file of `file_size` bytes over `channels` channels.
pub fn create_chunk_tasks(file_size: u64, channels: usize) -> (res: Vec<ChunkTask>)
    requires
        channels >= 1,
        file_size + channels - 1 <= u64::MAX,
    ensures
        tiles_file(res@, file_size as nat, chunk_size_spec(file_size as nat, channels as nat)),
{
    let ch = channels as u64;
    let share = (file_size + (ch - 1)) / ch;
    let chunk = if share >= MIN_CHUNK_SIZE {
        share
    } else {
        MIN_CHUNK_SIZE
    };
    let ghost csz = chunk_size_spec(file_size as nat, channels as nat);
    assert(chunk == csz);
    assert(share * ch >= file_size) by (nonlinear_arith)
        requires
            ch >= 1,
            share == (file_size + ch - 1) / (ch as int),
    {
        let n: int = file_size + ch - 1;
        let d: int = ch as int;
        assert(n / d * d + n % d == n);
        assert(n % d < d);
    }
    let mut tasks: Vec<ChunkTask> = Vec::new();
    let mut offset: u64 = 0;
    let mut index: usize = 0;
    while offset < file_size
        invariant
            chunk == csz,
            chunk >= MIN_CHUNK_SIZE,
            chunk >= share,
            share * ch >= file_size,
            ch == channels,
            offset <= file_size,
            index == tasks@.len(),
            offset == index * chunk || offset == file_size,
            offset < file_size ==> offset == index * chunk,
            index * chunk >= file_size ==> offset == file_size,
            offset == file_size ==> index * chunk >= file_size,
            index > 0 ==> (index - 1) * chunk < file_size,
            forall|k: int| 0 <= k < tasks@.len() ==> {
                &&& (#[trigger] tasks@[k]).index == k
                &&& tasks@[k].offset == k * chunk
                &&& tasks@[k].length == if file_size - k * chunk < chunk { (file_size - k * chunk) as nat } else { chunk as nat }
                &&& tasks@[k].length > 0
            },
        decreases file_size - offset,
    {
        let rest = file_size - offset;
        let length = if chunk < rest {
            chunk
        } else {
            rest
        };
        assert(index < channels) by (nonlinear_arith)
            requires
                offset == index * chunk,
                offset < file_size,
                chunk >= share,
                share * ch >= file_size,
                ch == channels,
                index >= 0,
        {
            assert(index * share <= index * chunk);
            if index >= ch {
                assert(index * share >= ch * share);
            }
        }
        tasks.push(ChunkTask { index, offset, length });
        proof {
            assert((index + 1) * chunk == index * chunk + chunk) by (nonlinear_arith);
        }
        offset = offset + length;
        index = index + 1;
    }
    tasks
}

/// Per-chunk progress of a parallel transfer: `(bytes moved, speed)` for each chunk, and each
/// chunk's length, which its bytes never pass.
#[derive(Debug)]
pub struct ChunkProgress {
    entries: Vec<(u64, u64)>,
    limits: Vec<u64>,
}

/// What a `ChunkProgress` holds.
pub struct ProgressView {
    pub entries: Seq<(u64, u64)>,
    pub limits: Seq<u64>,
}

impl View for ChunkProgress {
    type V = ProgressView;

    closed spec fn view(&self) -> ProgressView {
        ProgressView { entries: self.entries@, limits: self.limits@ }
    }
}

/// The bytes moved over all chunks.
pub open spec fn total_bytes(v: Seq<(u64, u64)>) -> nat
    decreases v.len(),
{
    if v.len() == 0 {
        0
    } else {
        total_bytes(v.drop_last()) + (v.last().0 as nat)
    }
}

/// The speeds of all chunks added up.
pub open spec fn total_speed(v: Seq<(u64, u64)>) -> nat
    decreases v.len(),
{
    if v.len() == 0 {
        0
    } else {
        total_speed(v.drop_last()) + (v.last().1 as nat)
    }
}

/// The lengths of all chunks added up.
pub open spec fn total_length(v: Seq<u64>) -> nat
    decreases v.len(),
{
    if v.len() == 0 {
        0
    } else {
        total_length(v.drop_last()) + (v.last() as nat)
    }
}

/// The lengths of the chunks.
pub open spec fn lengths_of(tasks: Seq<ChunkTask>) -> Seq<u64> {
    tasks.map_values(|t: ChunkTask| t.length)
}

/// `n` capped at `u64::MAX`.
pub open spec fn capped(n: nat) -> u64 {
    if n > u64::MAX {
        u64::MAX
    } else {
        n as u64
    }
}

/// Every chunk's bytes stay within its length.
pub open spec fn within_limits(entries: Seq<(u64, u64)>, limits: Seq<u64>) -> bool {
    &&& entries.len() == limits.len()
    &&& forall|k: int| 0 <= k < entries.len() ==> (#[trigger] entries[k]).0 <= limits[k]
}

/// The bytes moved never pass the chunks' lengths added up.
proof fn lemma_bytes_within_lengths(entries: Seq<(u64, u64)>, limits: Seq<u64>)
    requires
        within_limits(entries, limits),
    ensures
        total_bytes(entries) <= total_length(limits),
    decreases entries.len(),
{
    if entries.len() > 0 {
        let e = entries.drop_last();
        let l = limits.drop_last();
        assert(within_limits(e, l)) by {
            assert forall|k: int| 0 <= k < e.len() implies (#[trigger] e[k]).0 <= l[k] by {
                assert(e[k] == entries[k]);
            }
        }
        lemma_bytes_within_lengths(e, l);
        assert(entries.last().0 <= limits.last());
    }
}

/// The chunks that tile a file add up to its size.
pub proof fn lemma_chunk_lengths_add_up(tasks: Seq<ChunkTask>, size: nat, chunk: nat)
    requires
        tiles_file(tasks, size, chunk),
    ensures
        total_length(lengths_of(tasks)) == size,
{
    if tasks.len() > 0 {
        let n = tasks.len() as int;
        lemma_full_chunks_sum(tasks, size, chunk, n - 1);
        let ls = lengths_of(tasks);
        assert(ls.drop_last() =~= lengths_of(tasks.take(n - 1)));
        assert(tasks[n - 1].offset == (n - 1) * chunk);
        assert(ls.last() == tasks[n - 1].length);
        assert((n - 1) * chunk < size);
        if size - (n - 1) * chunk >= chunk {
            assert(n * chunk == (n - 1) * chunk + chunk) by (nonlinear_arith);
        }
    }
}

/// The first `k` chunks of a tiling, all but the last, are full: they add up to `k` chunks.
proof fn lemma_full_chunks_sum(tasks: Seq<ChunkTask>, size: nat, chunk: nat, k: int)
    requires
        tiles_file(tasks, size, chunk),
        0 <= k < tasks.len(),
    ensures
        total_length(lengths_of(tasks.take(k))) == k * chunk,
    decreases k,
{
    if k == 0 {
        assert(lengths_of(tasks.take(0)) =~= Seq::<u64>::empty());
    } else {
        lemma_full_chunks_sum(tasks, size, chunk, k - 1);
        let ls = lengths_of(tasks.take(k));
        assert(ls.drop_last() =~= lengths_of(tasks.take(k - 1)));
        assert(ls.last() == tasks[k - 1].length);
        let n = tasks.len() as int;
        assert((n - 1) * chunk < size);
        assert(k * chunk <= (n - 1) * chunk) by (nonlinear_arith)
            requires
                k <= n - 1,
                chunk >= 0,
        ;
        assert(k * chunk == (k - 1) * chunk + chunk) by (nonlinear_arith);
        assert(tasks[k - 1].offset == (k - 1) * chunk);
        assert(tasks[k - 1].length == chunk);
    }
}

/// Reported download progress never passes the file size: when the chunks tile the file and
/// each chunk's bytes stay within its length, the bytes moved add up to at most the size.
pub proof fn lemma_progress_never_passes_size(
    tasks: Seq<ChunkTask>,
    size: nat,
    chunk: nat,
    entries: Seq<(u64, u64)>,
)
    requires
        tiles_file(tasks, size, chunk),
        within_limits(entries, lengths_of(tasks)),
    ensures
        total_bytes(entries) <= size,
{
    lemma_bytes_within_lengths(entries, lengths_of(tasks));
    lemma_chunk_lengths_add_up(tasks, size, chunk);
}

impl ChunkProgress {
    #[verifier::type_invariant]
    spec fn progress_inv(self) -> bool {
        within_limits(self.entries@, self.limits@)
    }

    /// No progress yet on any of the chunks `tasks`.
    pub fn new(tasks: &[ChunkTask]) -> (res: Self)
        ensures
            res@.limits == lengths_of(tasks@),
            res@.entries.len() == tasks@.len(),
            forall|k: int| 0 <= k < tasks@.len() ==> res@.entries[k] == (0u64, 0u64),
    {
        let mut entries: Vec<(u64, u64)> = Vec::new();
        let mut limits: Vec<u64> = Vec::new();
        let mut k: usize = 0;
        while k < tasks.len()
            invariant
                k <= tasks@.len(),
                entries@.len() == k,
                limits@ == lengths_of(tasks@.take(k as int)),
                forall|j: int| 0 <= j < k ==> entries@[j] == (0u64, 0u64),
            decreases tasks@.len() - k,
        {
            proof {
                assert(lengths_of(tasks@.take(k + 1)) =~= lengths_of(tasks@.take(k as int)).push(tasks@[k as int].length));
            }
            entries.push((0, 0));
            limits.push(tasks[k].length);
            k = k + 1;
        }
        proof {
            assert(tasks@.take(k as int) =~= tasks@);
        }
        ChunkProgress { entries, limits }
    }

    /// The number of chunks.
    pub fn len(&self) -> (res: usize)
        ensures
            res == self@.entries.len(),
    {
        self.entries.len()
    }

    /// Records chunk `index`'s progress, its bytes capped at the chunk's length; returns the
    /// totals over all chunks, `(bytes moved, speed)`, each capped at `u64::MAX`. The bytes
    /// never pass the chunks' lengths added up.
    pub fn record(&mut self, index: usize, bytes: u64, speed: u64) -> (res: (u64, u64))
        requires
            index < old(self)@.entries.len(),
        ensures
            final(self)@.limits == old(self)@.limits,
            final(self)@.entries == old(self)@.entries.update(
                index as int,
                (if bytes <= old(self)@.limits[index as int] { bytes } else { old(self)@.limits[index as int] }, speed),
            ),
            res.0 == capped(total_bytes(final(self)@.entries)),
            res.1 == capped(total_speed(final(self)@.entries)),
            total_bytes(final(self)@.entries) <= total_length(final(self)@.limits),
            res.0 <= total_length(final(self)@.limits),
    {
        proof {
            use_type_invariant(&*self);
        }
        let limit = self.limits[index];
        let kept = if bytes <= limit {
            bytes
        } else {
            limit
        };
        let ghost all = old(self)@.entries.update(index as int, (kept, speed));
        let mut updated: Vec<(u64, u64)> = Vec::new();
        let mut b: u64 = 0;
        let mut s: u64 = 0;
        let mut k: usize = 0;
        while k < self.entries.len()
            invariant
                self@ == old(self)@,
                within_limits(self@.entries, self@.limits),
                index < self@.entries.len(),
                all == self@.entries.update(index as int, (kept, speed)),
                k <= all.len(),
                updated@ == all.take(k as int),
                b == capped(total_bytes(all.take(k as int))),
                s == capped(total_speed(all.take(k as int))),
            decreases all.len() - k,
        {
            proof {
                assert(all.take(k + 1).drop_last() =~= all.take(k as int));
            }
            let e = if k == index {
                (kept, speed)
            } else {
                self.entries[k]
            };
            proof {
                assert(all.take(k + 1) =~= all.take(k as int).push(e));
            }
            updated.push(e);
            b = b.saturating_add(e.0);
            s = s.saturating_add(e.1);
            k = k + 1;
        }
        proof {
            assert(all.take(k as int) =~= all);
            assert(within_limits(all, self@.limits));
            lemma_bytes_within_lengths(all, self@.limits);
        }
        self.entries = updated;
        (b, s)
    }
}

/// The error line of chunk `index`.
pub fn chunk_failure(index: usize, error: &str) -> (res: String)
    ensures
        res@ == "Chunk "@ + decimal(index as nat) + ": "@ + error@,
{
    let d = decimal_string(index as u64);
    let head = concat3("Chunk ", d.as_str(), ": ");
    concat2(head.as_str(), error)
}

/// `lines` joined by line breaks.
pub open spec fn lines_joined(lines: Seq<Seq<char>>) -> Seq<char>
    decreases lines.len(),
{
    if lines.len() == 0 {
        Seq::empty()
    } else if lines.len() == 1 {
        lines[0]
    } else {
        lines_joined(lines.drop_last()) + "\n"@ + lines.last()
    }
}

/// The error of a parallel download whose chunks failed with `errors`.
pub fn download_failure(errors: &[String]) -> (res: String)
    ensures
        res@ == "Multi-channel download failed:\n"@ + lines_joined(strings_view(errors@)),
{
    let mut v = to_chars("Multi-channel download failed:\n");
    let ghost head = v@;
    let mut k: usize = 0;
    proof {
        assert(strings_view(errors@).take(0) =~= Seq::<Seq<char>>::empty());
        assert(head + Seq::<char>::empty() =~= head);
    }
    while k < errors.len()
        invariant
            k <= errors@.len(),
            head == "Multi-channel download failed:\n"@,
            v@ == head + lines_joined(strings_view(errors@).take(k as int)),
        decreases errors@.len() - k,
    {
        let ghost prev = lines_joined(strings_view(errors@).take(k as int));
        proof {
            assert(strings_view(errors@).take(k + 1).drop_last() =~= strings_view(errors@).take(
                k as int,
            ));
        }
        if k > 0 {
            push_str(&mut v, "\n");
        }
        push_str(&mut v, errors[k].as_str());
        proof {
            if k == 0 {
                assert(strings_view(errors@).take(1)[0] == errors@[0]@);
                assert(prev =~= Seq::<char>::empty());
                assert(v@ =~= head + errors@[0]@);
            } else {
                assert(v@ =~= head + (prev + "\n"@ + errors@[k as int]@));
            }
        }
        k = k + 1;
    }
    proof {
        assert(strings_view(errors@).take(k as int) =~= strings_view(errors@));
    }
    from_chars(v.as_slice())
}

// ---------------------------------------------------------------------------
// Moving one chunk
// ---------------------------------------------------------------------------
/// The largest read or write of a transfer: 256 KiB.
pub const TRANSFER_BLOCK: u64 = 262144;

/// Where the transfer of one chunk stands.
#[derive(Clone, Copy, Debug, PartialEq, Eq, Structural)]
pub struct ChunkCursor {
    pub offset: u64,
    pub length: u64,
    /// Bytes moved so far.
    pub transferred: u64,
}

/// The cursor is consistent: it never moved more than the chunk, which fits the file.
pub open spec fn cursor_wf(c: ChunkCursor) -> bool {
    &&& c.transferred <= c.length
    &&& c.offset + c.length <= u64::MAX
}

impl ChunkCursor {
    /// A cursor at the start of a chunk.
    pub fn new(offset: u64, length: u64) -> (res: Self)
        requires
            offset + length <= u64::MAX,
        ensures
            res == (ChunkCursor { offset, length, transferred: 0 }),
            cursor_wf(res),
    {
        ChunkCursor { offset, length, transferred: 0 }
    }

    /// Bytes left to move.
    pub fn remaining(&self) -> (res: u64)
        requires
            cursor_wf(*self),
        ensures
            res == self.length - self.transferred,
    {
        self.length - self.transferred
    }

    /// The size of the next read: the rest of the chunk, at most one block; zero when done.
    pub fn next_read_len(&self) -> (res: u64)
        requires
            cursor_wf(*self),
        ensures
            res == if self.length - self.transferred < TRANSFER_BLOCK {
                self.length - self.transferred
            } else {
                TRANSFER_BLOCK as int
            },
    {
        let rest = self.length - self.transferred;
        if rest < TRANSFER_BLOCK {
            rest
        } else {
            TRANSFER_BLOCK
        }
    }

    /// The file position of the next byte.
    pub fn position(&self) -> (res: u64)
        requires
            cursor_wf(*self),
        ensures
            res == self.offset + self.transferred,
    {
        self.offset + self.transferred
    }

    /// Records that `n` more bytes were moved (at most what was asked for).
    pub fn advance(&mut self, n: u64)
        requires
            cursor_wf(*old(self)),
            n <= old(self).length - old(self).transferred,
        ensures
            *final(self) == (ChunkCursor { transferred: (old(self).transferred + n) as u64, ..*old(self) }),
            cursor_wf(*final(self)),
    {
        self.transferred = self.transferred + n;
    }
}


// ---------------------------------------------------------------------------
// Directory listings and the home directory
// ---------------------------------------------------------------------------
/// A remote directory entry.
#[derive(Debug)]
pub struct RemoteEntry {
    pub name: String,
    pub path: String,
    pub kind: FileKind,
    pub size: u64,
    pub permissions: u32,
    pub uid: Option<u32>,
    pub gid: Option<u32>,
    /// Modification time, in seconds since the Unix epoch.
    pub modified_secs: Option<u64>,
}

/// The entry listed as `name` in directory `dir`, from its attributes (missing size and
/// permissions count as zero); `None` for `.` and `..`.
pub fn remote_entry(
    dir: &str,
    name: &str,
    is_dir: bool,
    is_symlink: bool,
    size: Option<u64>,
    permissions: Option<u32>,
    uid: Option<u32>,
    gid: Option<u32>,
    mtime: Option<u32>,
) -> (res: Option<RemoteEntry>)
    ensures
        name@ == "."@ || name@ == ".."@ ==> res is None,
        !(name@ == "."@ || name@ == ".."@) ==> (res matches Some(e) && e.name@ == name@ && e.path@
            == child_path_spec(dir@, name@) && e.kind == (if is_dir {
            FileKind::Directory
        } else if is_symlink {
            FileKind::Symlink
        } else {
            FileKind::File
        }) && e.size == (match size {
            Some(x) => x,
            None => 0,
        }) && e.permissions == (match permissions {
            Some(x) => x,
            None => 0,
        }) && e.uid == uid && e.gid == gid && e.modified_secs == (match mtime {
            Some(t) => Some(t as u64),
            None => None,
        })),
{
    if is_dot_entry(name) {
        return None;
    }
    Some(RemoteEntry {
        name: owned(name),
        path: child_path(dir, name),
        kind: file_kind(is_dir, is_symlink),
        size: match size {
            Some(x) => x,
            None => 0,
        },
        permissions: match permissions {
            Some(x) => x,
            None => 0,
        },
        uid,
        gid,
        modified_secs: match mtime {
            Some(t) => Some(t as u64),
            None => None,
        },
    })
}

/// The home directory: what the server resolved `.` to, or the root when it could not.
pub fn home_or_root(resolved: Option<String>) -> (res: String)
    ensures
        res@ == match resolved {
            Some(h) => h@,
            None => "/"@,
        },
{
    match resolved {
        Some(h) => h,
        None => owned("/"),
    }
}

/// The error shown when the file browser cannot start.
pub fn sftp_init_error(error: &str) -> (res: String)
    ensures
        res@ == "SFTP 初始化失败: "@ + error@,
{
    concat2("SFTP 初始化失败: ", error)
}

/// The non-empty `/`-separated components of a path found so far, and the one being read.
pub type ComponentScan = (Seq<Seq<char>>, Seq<char>);

/// The component scan after one more character.
pub open spec fn component_step(st: ComponentScan, c: char) -> ComponentScan {
    if c == '/' {
        if st.1.len() > 0 {
            (st.0.push(st.1), Seq::empty())
        } else {
            st
        }
    } else {
        (st.0, st.1.push(c))
    }
}

/// The component scan after the characters of `s`.
pub open spec fn component_scan(s: Seq<char>) -> ComponentScan
    decreases s.len(),
{
    if s.len() == 0 {
        (Seq::empty(), Seq::empty())
    } else {
        component_step(component_scan(s.drop_last()), s.last())
    }
}

/// The non-empty `/`-separated components of `path`, in order.
pub open spec fn components(path: Seq<char>) -> Seq<Seq<char>> {
    let st = component_scan(path);
    if st.1.len() > 0 {
        st.0.push(st.1)
    } else {
        st.0
    }
}

/// The absolute path made of `parts`.
pub open spec fn absolute_path(parts: Seq<Seq<char>>) -> Seq<char>
    decreases parts.len(),
{
    if parts.len() == 0 {
        Seq::empty()
    } else {
        absolute_path(parts.drop_last()) + "/"@ + parts.last()
    }
}

/// The root followed by the absolute path of each leading run of `parts`.
pub open spec fn hierarchy_of(parts: Seq<Seq<char>>) -> Seq<Seq<char>>
    decreases parts.len(),
{
    if parts.len() == 0 {
        seq!["/"@]
    } else {
        hierarchy_of(parts.drop_last()).push(absolute_path(parts))
    }
}

/// The directories from the root down to `path` (`/home/u` gives `/`, `/home`, `/home/u`).
pub fn path_hierarchy(path: &str) -> (res: Vec<String>)
    ensures
        strings_view(res@) == hierarchy_of(components(path@)),
{
    let cs = to_chars(path);
    let mut res: Vec<String> = Vec::new();
    res.push(owned("/"));
    let mut current: Vec<char> = Vec::new();
    let mut part: Vec<char> = Vec::new();
    let ghost mut done: Seq<Seq<char>> = Seq::empty();
    proof {
        reveal_strlit("/");
        assert(strings_view(res@) =~= seq!["/"@]);
        assert(cs@.take(0) =~= Seq::<char>::empty());
    }
    let mut i: usize = 0;
    while i < cs.len()
        invariant
            i <= cs@.len(),
            cs@ == path@,
            component_scan(cs@.take(i as int)) == (done, part@),
            current@ == absolute_path(done),
            strings_view(res@) == hierarchy_of(done),
        decreases cs@.len() - i,
    {
        proof {
            assert(cs@.take(i + 1).drop_last() =~= cs@.take(i as int));
        }
        let c = cs[i];
        if c == '/' {
            if part.len() > 0 {
                let ghost next = done.push(part@);
                current.push('/');
                crate::text::push_chars(&mut current, part.as_slice());
                let ghost before = res@;
                res.push(from_chars(current.as_slice()));
                proof {
                    reveal_strlit("/");
                    assert(next.drop_last() =~= done);
                    assert(current@ =~= absolute_path(done) + "/"@ + part@);
                    assert(strings_view(res@) =~= strings_view(before).push(current@));
                    done = next;
                }
                part = Vec::new();
            }
        } else {
            part.push(c);
        }
        i = i + 1;
    }
    proof {
        assert(cs@.take(i as int) =~= path@);
    }
    if part.len() > 0 {
        let ghost next = done.push(part@);
        current.push('/');
        crate::text::push_chars(&mut current, part.as_slice());
        let ghost before = res@;
        res.push(from_chars(current.as_slice()));
        proof {
            reveal_strlit("/");
            assert(next.drop_last() =~= done);
            assert(current@ =~= absolute_path(done) + "/"@ + part@);
            assert(strings_view(res@) =~= strings_view(before).push(current@));
        }
    }
    res
}

/// The directories above the home directory `home` to read ahead: its hierarchy without
/// itself.
pub fn parents_to_preload(home: &str) -> (res: Vec<String>)
    ensures
        strings_view(res@) == hierarchy_of(components(home@)).filter(|p: Seq<char>| p != home@),
{
    let all = path_hierarchy(home);
    let ghost sv = strings_view(all@);
    let mut res: Vec<String> = Vec::new();
    let mut k: usize = 0;
    proof {
        assert(sv.take(0) =~= Seq::<Seq<char>>::empty());
        assert(sv.take(0).filter(|p: Seq<char>| p != home@) =~= Seq::<Seq<char>>::empty());
        assert(strings_view(res@) =~= Seq::<Seq<char>>::empty());
    }
    while k < all.len()
        invariant
            sv == strings_view(all@),
            k <= all@.len(),
            strings_view(res@) == sv.take(k as int).filter(|p: Seq<char>| p != home@),
        decreases all@.len() - k,
    {
        proof {
            crate::seqs::lemma_filter_take_step(sv, |p: Seq<char>| p != home@, k as int);
            assert(sv[k as int] == all@[k as int]@);
        }
        if !str_eq(all[k].as_str(), home) {
            let ghost before = res@;
            res.push(all[k].clone());
            proof {
                assert(strings_view(res@) =~= strings_view(before).push(all@[k as int]@));
            }
        }
        k = k + 1;
    }
    proof {
        assert(sv.take(k as int) =~= sv);
    }
    res
}

// ---------------------------------------------------------------------------
// Downloads and directory walks
// ---------------------------------------------------------------------------
/// A download of `is_dir` is refused when the remote path is a directory.
pub fn check_download_source(is_dir: bool) -> (res: Result<(), String>)
    ensures
        is_dir <==> res is Err,
        res matches Err(m) ==> m@ == "Cannot download a directory"@,
{
    if is_dir {
        Err(owned("Cannot download a directory"))
    } else {
        Ok(())
    }
}

/// The paths of the directories among `entries`, in order.
pub open spec fn subdirs_of(entries: Seq<RemoteEntry>) -> Seq<Seq<char>>
    decreases entries.len(),
{
    if entries.len() == 0 {
        Seq::empty()
    } else if entries.last().kind == FileKind::Directory {
        subdirs_of(entries.drop_last()).push(entries.last().path@)
    } else {
        subdirs_of(entries.drop_last())
    }
}

/// Only real directories are walked into: the subdirectories noted from a listing are the
/// paths of exactly its entries of kind `Directory` (not symbolic links, not files), in order.
pub proof fn lemma_subdirs_are_directories(entries: Seq<RemoteEntry>)
    ensures
        subdirs_of(entries) == entries.filter(|e: RemoteEntry| e.kind == FileKind::Directory).map_values(
            |e: RemoteEntry| e.path@,
        ),
    decreases entries.len(),
{
    let is_dir = |e: RemoteEntry| e.kind == FileKind::Directory;
    let path = |e: RemoteEntry| e.path@;
    reveal_with_fuel(Seq::filter, 1);
    if entries.len() > 0 {
        lemma_subdirs_are_directories(entries.drop_last());
        let init = entries.drop_last();
        let e = entries.last();
        assert(entries =~= init.push(e));
        init.lemma_filter_push(e, is_dir);
        let f0 = init.filter(is_dir);
        assert(f0.push(e).map_values(path) =~= f0.map_values(path).push(path(e)));
    } else {
        assert(entries.filter(is_dir).map_values(path) =~= Seq::<Seq<char>>::empty());
    }
}

/// A depth-first walk of a directory tree: the directories still to list, the next one last.
#[derive(Debug)]
pub struct DirWalk {
    pub pending: Vec<String>,
}

impl DirWalk {
    /// A walk that starts at `root`.
    pub fn new(root: &str) -> (res: Self)
        ensures
            strings_view(res.pending@) == seq![root@],
    {
        let mut pending = Vec::new();
        pending.push(owned(root));
        assert(strings_view(pending@) =~= seq![root@]);
        DirWalk { pending }
    }

    /// The next directory to list (the one added last), if any is left.
    pub fn next_dir(&mut self) -> (res: Option<String>)
        ensures
            old(self).pending@.len() == 0 ==> res is None && final(self).pending@ == old(self).pending@,
            old(self).pending@.len() > 0 ==> (res matches Some(d) && d == old(self).pending@.last()
                && final(self).pending@ == old(self).pending@.drop_last()),
    {
        self.pending.pop()
    }

    /// Notes the subdirectories of a listed directory, to be listed next.
    pub fn add_subdirs(&mut self, entries: &Vec<RemoteEntry>)
        ensures
            strings_view(final(self).pending@) == strings_view(old(self).pending@) + subdirs_of(entries@),
            strings_view(final(self).pending@) == strings_view(old(self).pending@) + entries@.filter(
                |e: RemoteEntry| e.kind == FileKind::Directory,
            ).map_values(|e: RemoteEntry| e.path@),
    {
        proof {
            lemma_subdirs_are_directories(entries@);
        }
        let mut i: usize = 0;
        proof {
            assert(entries@.take(0) =~= Seq::<RemoteEntry>::empty());
            assert(strings_view(self.pending@) =~= strings_view(old(self).pending@) + subdirs_of(entries@.take(0)));
        }
        while i < entries.len()
            invariant
                i <= entries@.len(),
                strings_view(self.pending@) == strings_view(old(self).pending@) + subdirs_of(entries@.take(i as int)),
            decreases entries@.len() - i,
        {
            proof {
                assert(entries@.take(i + 1).drop_last() =~= entries@.take(i as int));
            }
            if entries[i].kind == FileKind::Directory {
                let ghost before = self.pending@;
                self.pending.push(entries[i].path.clone());
                proof {
                    assert(strings_view(self.pending@) =~= strings_view(before).push(entries@[i as int].path@));
                }
            }
            i = i + 1;
        }
        proof {
            assert(entries@.take(i as int) =~= entries@);
        }
    }
}

} // verus!
