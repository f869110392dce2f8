//! The file-operation engine: conflict policy, unique names, move strategy,
//! progress accounting and the per-file transfer steps. The host performs
//! each filesystem action that a step names and reports the outcome back.
use vstd::prelude::*;
use vstd::string::*;
use crate::error::Error;
use crate::path::{extension_of, file_name, file_name_of, join, join_of, split_extension, stem_of};
use crate::text::{decimal, decimal_of, str_eq};

verus! {

/// Size of the buffer through which each file is streamed.
pub const BUFFER_SIZE: usize = 1048576;

/// The highest counter tried when searching for a free name.
pub const MAX_RENAME_COUNTER: u64 = 9999;

/// One progress message of a running operation.
#[derive(Clone, Debug)]
pub struct OperationProgress {
    pub current_bytes: u64,
    pub total_bytes: u64,
    pub current_file: String,
    pub files_processed: usize,
    pub total_files: usize,
}

/// What happens when a destination name is already taken.
#[derive(Clone, Copy, Debug, PartialEq, Eq, Structural)]
pub enum ConflictResolution {
    Skip,
    Overwrite,
    Rename,
}

/// Entry point of copy, move and delete operations.
pub struct FileOperations {
    max_concurrent: usize,
}

impl FileOperations {
    pub closed spec fn spec_max_concurrent(&self) -> usize {
        self.max_concurrent
    }

    pub fn new(max_concurrent: usize) -> (r: FileOperations)
        ensures
            r.spec_max_concurrent() == max_concurrent,
    {
        FileOperations { max_concurrent }
    }

    /// How many independent operations the host may run at once.
    pub fn max_concurrent(&self) -> (r: usize)
        ensures
            r == self.spec_max_concurrent(),
    {
        self.max_concurrent
    }
}

impl Default for FileOperations {
    fn default() -> (r: FileOperations)
        ensures
            r.spec_max_concurrent() == 4,
    {
        FileOperations::new(4)
    }
}

/// The texts of a list of names.
pub open spec fn names_of(v: Seq<String>) -> Seq<Seq<char>> {
    v.map_values(|s: String| s@)
}

/// `<stem> (<n>)`, followed by `.<ext>` when the extension is not empty.
pub open spec fn numbered_name(stem: Seq<char>, ext: Option<Seq<char>>, n: nat) -> Seq<char> {
    let base = stem + seq![' ', '('] + decimal_of(n) + seq![')'];
    match ext {
        Some(e) => if e.len() > 0 {
            base + seq!['.'] + e
        } else {
            base
        },
        None => base,
    }
}

/// The `n`-th alternative to the name `name`.
pub open spec fn candidate_name(name: Seq<char>, n: nat) -> Seq<char> {
    numbered_name(stem_of(name), extension_of(name), n)
}

/// The first counter from `n` on, up to the bound, whose candidate is free.
pub open spec fn first_free(name: Seq<char>, taken: Seq<Seq<char>>, n: nat) -> Option<nat>
    decreases 10000 - n,
{
    if n > 9999 {
        None
    } else if !taken.contains(candidate_name(name, n)) {
        Some(n)
    } else {
        first_free(name, taken, n + 1)
    }
}

/// The name that a rename on conflict picks for `name`, if any is free.
pub open spec fn unique_name_of(name: Seq<char>, taken: Seq<Seq<char>>) -> Option<Seq<char>> {
    match first_free(name, taken, 1) {
        Some(n) => Some(candidate_name(name, n)),
        None => None,
    }
}

/// Where a copy of a source named `name` writes in `dest_dir` under
/// `policy`, when the directory holds `taken`: `Some(None)` to skip it,
/// `Some(Some(t))` to write `t`, `None` when no free name is left.
pub open spec fn copy_target_of(
    dest_dir: Seq<char>,
    name: Seq<char>,
    policy: ConflictResolution,
    taken: Seq<Seq<char>>,
) -> Option<Option<Seq<char>>> {
    if !taken.contains(name) || policy == ConflictResolution::Overwrite {
        Some(Some(join_of(dest_dir, name)))
    } else if policy == ConflictResolution::Skip {
        Some(None)
    } else {
        match unique_name_of(name, taken) {
            Some(u) => Some(Some(join_of(dest_dir, u))),
            None => None,
        }
    }
}

/// Whether `name` is among `existing`.
pub fn contains_name(existing: &Vec<String>, name: &str) -> (r: bool)
    ensures
        r == names_of(existing@).contains(name@),
{
    let mut i: usize = 0;
    while i < existing.len()
        invariant
            i <= existing@.len(),
            forall|j: int| 0 <= j < i ==> existing@[j]@ != name@,
        decreases existing@.len() - i,
    {
        if str_eq(existing[i].as_str(), name) {
            assert(names_of(existing@)[i as int] == name@);
            return true;
        }
        i = i + 1;
    }
    assert forall|j: int| 0 <= j < names_of(existing@).len() implies names_of(existing@)[j]
        != name@ by {
        assert(existing@[j]@ != name@);
    }
    false
}

/// Builds `<stem> (<n>)[.<ext>]`.
pub fn numbered(stem: &str, ext: &Option<String>, n: u64) -> (r: String)
    ensures
        r@ == numbered_name(stem@, match ext {
            Some(e) => Some(e@),
            None => None,
        }, n as nat),
{
    proof {
        reveal_strlit(" (");
        reveal_strlit(")");
        reveal_strlit(".");
    }
    let mut s = stem.to_owned();
    s.append(" (");
    let d = decimal(n);
    s.append(d.as_str());
    s.append(")");
    assert(s@ =~= stem@ + seq![' ', '('] + decimal_of(n as nat) + seq![')']);
    match ext {
        Some(e) => {
            if e.as_str().unicode_len() > 0 {
                s.append(".");
                s.append(e.as_str());
            }
        },
        None => {},
    }
    s
}

/// Searches `<stem> (1).<ext>`, `<stem> (2).<ext>`, ... for a name that is
/// not among `existing`, giving up after the bound.
pub fn find_unique_name(name: &str, existing: &Vec<String>) -> (r: Result<String, Error>)
    ensures
        r matches Ok(s) ==> unique_name_of(name@, names_of(existing@)) == Some(s@),
        r matches Err(e) ==> e is InvalidOperation && unique_name_of(
            name@,
            names_of(existing@),
        ) is None,
{
    let ghost taken = names_of(existing@);
    let (stem, ext) = split_extension(name);
    let mut counter: u64 = 1;
    loop
        invariant
            1 <= counter <= 9999,
            taken == names_of(existing@),
            stem@ == stem_of(name@),
            ext matches Some(e) ==> extension_of(name@) == Some(e@),
            ext is None ==> extension_of(name@) is None,
            first_free(name@, taken, 1) == first_free(name@, taken, counter as nat),
        decreases 10000 - counter,
    {
        let cand = numbered(stem.as_str(), &ext, counter);
        assert(cand@ == candidate_name(name@, counter as nat));
        if !contains_name(existing, cand.as_str()) {
            return Ok(cand);
        }
        counter = counter + 1;
        if counter > MAX_RENAME_COUNTER {
            assert(first_free(name@, taken, counter as nat) is None);
            return Err(Error::InvalidOperation(String::from_str("Too many conflicts")));
        }
    }
}

/// Where a copy of `source` into `dest_dir` writes, under `policy`, when the
/// destination directory holds the names `existing`: `None` to skip it.
pub fn plan_copy(
    dest_dir: &str,
    source: &str,
    policy: ConflictResolution,
    existing: &Vec<String>,
) -> (r: Result<Option<String>, Error>)
    ensures
        file_name_of(source@) is None ==> (r matches Err(Error::InvalidPath { path }) && path@
            == source@),
        file_name_of(source@) matches Some(nm) ==> match copy_target_of(
            dest_dir@,
            nm,
            policy,
            names_of(existing@),
        ) {
            Some(Some(t)) => r matches Ok(Some(d)) && d@ == t,
            Some(None) => r matches Ok(None),
            None => r matches Err(Error::InvalidOperation(_)),
        },
{
    let name = match file_name(source) {
        Some(n) => n,
        None => {
            return Err(Error::InvalidPath { path: source.to_owned() });
        },
    };
    if !contains_name(existing, name.as_str()) {
        return Ok(Some(join(dest_dir, name.as_str())));
    }
    match policy {
        ConflictResolution::Skip => Ok(None),
        ConflictResolution::Overwrite => Ok(Some(join(dest_dir, name.as_str()))),
        ConflictResolution::Rename => {
            let renamed = find_unique_name(name.as_str(), existing)?;
            Ok(Some(join(dest_dir, renamed.as_str())))
        },
    }
}

/// The worklist of a recursive copy: each item is a source and the
/// directory it is copied into.
pub struct CopyWalk {
    stack: Vec<(String, String)>,
}

impl View for CopyWalk {
    type V = Seq<(Seq<char>, Seq<char>)>;

    closed spec fn view(&self) -> Seq<(Seq<char>, Seq<char>)> {
        self.stack@.map_values(|p: (String, String)| (p.0@, p.1@))
    }
}

impl CopyWalk {
    /// A walk that copies `source` into `dest_dir`.
    pub fn new(source: &str, dest_dir: &str) -> (r: CopyWalk)
        ensures
            r@ == seq![(source@, dest_dir@)],
    {
        let mut stack: Vec<(String, String)> = Vec::new();
        stack.push((source.to_owned(), dest_dir.to_owned()));
        let r = CopyWalk { stack };
        assert(r@ =~= seq![(source@, dest_dir@)]);
        r
    }

    /// The next item, depth first.
    pub fn next_item(&mut self) -> (r: Option<(String, String)>)
        ensures
            old(self)@.len() == 0 ==> (r is None && final(self)@ == old(self)@),
            old(self)@.len() > 0 ==> (r matches Some(item) && (item.0@, item.1@) == old(
                self,
            )@.last() && final(self)@ == old(self)@.drop_last()),
    {
        let r = self.stack.pop();
        proof {
            if old(self).stack@.len() > 0 {
                assert(self@ =~= old(self)@.drop_last());
            }
        }
        r
    }

    /// Queues the children of a source directory, each to be copied into
    /// `target`, the directory made for it.
    pub fn descend(&mut self, children: Vec<String>, target: &str)
        ensures
            final(self)@.len() == old(self)@.len() + children@.len(),
            forall|j: int| 0 <= j < old(self)@.len() ==> final(self)@[j] == old(self)@[j],
            forall|j: int|
                0 <= j < children@.len() ==> final(self)@[old(self)@.len() + j] == (
                    children@[j]@,
                    target@,
                ),
    {
        let ghost start = self@;
        let mut i: usize = 0;
        while i < children.len()
            invariant
                i <= children@.len(),
                start == old(self)@,
                self@.len() == start.len() + i,
                forall|j: int| 0 <= j < start.len() ==> self@[j] == start[j],
                forall|j: int| 0 <= j < i ==> self@[start.len() + j] == (children@[j]@, target@),
            decreases children@.len() - i,
        {
            let child = children[i].clone();
            self.stack.push((child, target.to_owned()));
            i = i + 1;
        }
    }
}

/// Whether two device identities name one filesystem.
pub fn same_filesystem(source_dev: u64, dest_dev: u64) -> (r: bool)
    ensures
        r == (source_dev == dest_dev),
{
    source_dev == dest_dev
}

/// How one source of a move is carried out.
#[derive(Clone, Debug)]
pub enum MoveStep {
    /// Leave the source where it is.
    Skip,
    /// Rename atomically to `target`, removing what stands there first when
    /// `replace` is set.
    Rename { target: String, replace: bool },
    /// Copy into the destination directory, then remove the source.
    CopyThenRemove,
}

/// Plans the move of `source` into `dest_dir`. Within one filesystem the
/// move is an atomic rename after the conflict policy; across filesystems it
/// is a copy followed by removal of the source, never a rename.
pub fn plan_move(
    dest_dir: &str,
    source: &str,
    policy: ConflictResolution,
    existing: &Vec<String>,
    source_dev: u64,
    dest_dev: u64,
) -> (r: Result<MoveStep, Error>)
    ensures
        file_name_of(source@) is None ==> (r matches Err(Error::InvalidPath { path }) && path@
            == source@),
        file_name_of(source@) is Some && source_dev != dest_dev ==> r matches Ok(
            MoveStep::CopyThenRemove,
        ),
        file_name_of(source@) matches Some(nm) ==> source_dev == dest_dev ==> {
            let taken = names_of(existing@);
            if !taken.contains(nm) || policy == ConflictResolution::Overwrite {
                r matches Ok(MoveStep::Rename { target, replace }) && target@ == join_of(
                    dest_dir@,
                    nm,
                ) && replace == taken.contains(nm)
            } else if policy == ConflictResolution::Skip {
                r matches Ok(MoveStep::Skip)
            } else {
                match unique_name_of(nm, taken) {
                    Some(u) => r matches Ok(MoveStep::Rename { target, replace }) && target@
                        == join_of(dest_dir@, u) && !replace,
                    None => r matches Err(Error::InvalidOperation(_)),
                }
            }
        },
{
    let name = match file_name(source) {
        Some(n) => n,
        None => {
            return Err(Error::InvalidPath { path: source.to_owned() });
        },
    };
    if !same_filesystem(source_dev, dest_dev) {
        return Ok(MoveStep::CopyThenRemove);
    }
    if !contains_name(existing, name.as_str()) {
        return Ok(MoveStep::Rename { target: join(dest_dir, name.as_str()), replace: false });
    }
    match policy {
        ConflictResolution::Skip => Ok(MoveStep::Skip),
        ConflictResolution::Overwrite => Ok(
            MoveStep::Rename { target: join(dest_dir, name.as_str()), replace: true },
        ),
        ConflictResolution::Rename => {
            let renamed = find_unique_name(name.as_str(), existing)?;
            Ok(MoveStep::Rename { target: join(dest_dir, renamed.as_str()), replace: false })
        },
    }
}


/// Sum of a sequence of byte counts.
pub open spec fn sum_of(s: Seq<u64>) -> nat
    decreases s.len(),
{
    if s.len() == 0 {
        0
    } else {
        (sum_of(s.drop_last()) + s.last()) as nat
    }
}

/// The aggregate byte total of an operation, from the sizes of the files it
/// covers; `None` when it does not fit in 64 bits.
pub fn calculate_total_size(sizes: &Vec<u64>) -> (r: Option<u64>)
    ensures
        r matches Some(t) ==> t == sum_of(sizes@),
        r is None <==> sum_of(sizes@) > u64::MAX,
{
    let mut total: u64 = 0;
    let mut i: usize = 0;
    while i < sizes.len()
        invariant
            i <= sizes@.len(),
            total == sum_of(sizes@.subrange(0, i as int)),
        decreases sizes@.len() - i,
    {
        assert(sizes@.subrange(0, i + 1).drop_last() =~= sizes@.subrange(0, i as int));
        if sizes[i] > u64::MAX - total {
            proof {
                lemma_sum_prefix_grows(sizes@, i + 1);
            }
            return None;
        }
        total = total + sizes[i];
        i = i + 1;
    }
    assert(sizes@.subrange(0, i as int) =~= sizes@);
    Some(total)
}

proof fn lemma_sum_prefix_grows(s: Seq<u64>, k: int)
    requires
        0 <= k <= s.len(),
    ensures
        sum_of(s.subrange(0, k)) <= sum_of(s),
    decreases s.len() - k,
{
    if k < s.len() {
        lemma_sum_prefix_grows(s, k + 1);
        assert(s.subrange(0, k + 1).drop_last() =~= s.subrange(0, k));
    } else {
        assert(s.subrange(0, k) =~= s);
    }
}

/// `a + n`, held at the largest value.
pub open spec fn add_sat(a: u64, n: u64) -> u64 {
    if a + n > u64::MAX {
        u64::MAX
    } else {
        (a + n) as u64
    }
}

/// Running counters of one operation: bytes moved and files done, against
/// totals fixed when the operation starts.
#[derive(Clone, Copy, Debug, PartialEq, Eq, Structural)]
pub struct ProgressTracker {
    pub bytes_copied: u64,
    pub total_bytes: u64,
    pub files_processed: usize,
    pub total_files: usize,
}

impl ProgressTracker {
    pub open spec fn fresh(total_bytes: u64, total_files: usize) -> ProgressTracker {
        ProgressTracker { bytes_copied: 0, total_bytes, files_processed: 0, total_files }
    }

    /// The counters after a chunk of `n` bytes was written.
    pub open spec fn after_chunk(self, n: u64) -> ProgressTracker {
        ProgressTracker { bytes_copied: add_sat(self.bytes_copied, n), ..self }
    }

    /// The counters after one more item was completed.
    pub open spec fn after_item(self) -> ProgressTracker {
        ProgressTracker {
            files_processed: if self.files_processed < usize::MAX {
                (self.files_processed + 1) as usize
            } else {
                self.files_processed
            },
            ..self
        }
    }

    /// The counters after a run of chunks.
    pub open spec fn after_chunks(self, chunks: Seq<u64>) -> ProgressTracker
        decreases chunks.len(),
    {
        if chunks.len() == 0 {
            self
        } else {
            self.after_chunks(chunks.drop_last()).after_chunk(chunks.last())
        }
    }

    /// Counters at the start of an operation.
    pub fn new(total_bytes: u64, total_files: usize) -> (r: ProgressTracker)
        ensures
            r == ProgressTracker::fresh(total_bytes, total_files),
    {
        ProgressTracker { bytes_copied: 0, total_bytes, files_processed: 0, total_files }
    }

    /// The message that reports the counters while working on `file`.
    pub fn snapshot(&self, file: &str) -> (p: OperationProgress)
        ensures
            p.current_bytes == self.bytes_copied,
            p.total_bytes == self.total_bytes,
            p.current_file@ == file@,
            p.files_processed == self.files_processed,
            p.total_files == self.total_files,
    {
        OperationProgress {
            current_bytes: self.bytes_copied,
            total_bytes: self.total_bytes,
            current_file: file.to_owned(),
            files_processed: self.files_processed,
            total_files: self.total_files,
        }
    }

    /// Counts a chunk of `n` bytes of `file` and returns the message to send.
    pub fn record_chunk(&mut self, n: u64, file: &str) -> (p: OperationProgress)
        ensures
            *final(self) == old(self).after_chunk(n),
            p.current_bytes == final(self).bytes_copied,
            p.total_bytes == old(self).total_bytes,
            p.current_file@ == file@,
            p.files_processed == old(self).files_processed,
            p.total_files == old(self).total_files,
    {
        if n > u64::MAX - self.bytes_copied {
            self.bytes_copied = u64::MAX;
        } else {
            self.bytes_copied = self.bytes_copied + n;
        }
        self.snapshot(file)
    }

    /// Counts one completed file.
    pub fn finish_file(&mut self)
        ensures
            *final(self) == old(self).after_item(),
    {
        if self.files_processed < usize::MAX {
            self.files_processed = self.files_processed + 1;
        }
    }

    /// Counts one removed item and returns the message to send for it.
    pub fn record_deleted(&mut self, path: &str) -> (p: OperationProgress)
        ensures
            *final(self) == old(self).after_item(),
            p.current_bytes == old(self).bytes_copied,
            p.total_bytes == old(self).total_bytes,
            p.current_file@ == path@,
            p.files_processed == final(self).files_processed,
            p.total_files == old(self).total_files,
    {
        self.finish_file();
        self.snapshot(path)
    }
}

/// Within one operation the counters never go down and the totals stay
/// fixed, whatever chunks are reported.
pub proof fn lemma_progress_monotonic(t: ProgressTracker, chunks: Seq<u64>)
    ensures
        t.after_chunks(chunks).bytes_copied >= t.bytes_copied,
        t.after_chunks(chunks).total_bytes == t.total_bytes,
        t.after_chunks(chunks).files_processed == t.files_processed,
        t.after_chunks(chunks).total_files == t.total_files,
        t.after_item().files_processed >= t.files_processed,
        t.after_item().bytes_copied == t.bytes_copied,
    decreases chunks.len(),
{
    if chunks.len() > 0 {
        lemma_progress_monotonic(t, chunks.drop_last());
    }
}

/// Copying a source into a directory with Overwrite writes to the directory
/// joined with the source's name, whatever the directory holds; and when
/// the file is streamed to its end, the byte count reported last equals the
/// sum of the chunks read, that is the file's size and the total computed
/// up front for a copy of that one file.
pub proof fn lemma_copy_round_trip(
    dest_dir: Seq<char>,
    source: Seq<char>,
    taken: Seq<Seq<char>>,
    total_files: usize,
    chunks: Seq<u64>,
)
    requires
        file_name_of(source) is Some,
        sum_of(chunks) <= u64::MAX,
    ensures
        copy_target_of(dest_dir, file_name_of(source).unwrap(), ConflictResolution::Overwrite, taken)
            == Some(Some(join_of(dest_dir, file_name_of(source).unwrap()))),
        ProgressTracker::fresh(sum_of(chunks) as u64, total_files).after_chunks(
            chunks,
        ).bytes_copied == sum_of(chunks),
        ProgressTracker::fresh(sum_of(chunks) as u64, total_files).after_chunks(
            chunks,
        ).total_bytes == sum_of(chunks),
{
    lemma_chunks_sum(ProgressTracker::fresh(sum_of(chunks) as u64, total_files), chunks);
}

proof fn lemma_chunks_sum(t: ProgressTracker, chunks: Seq<u64>)
    requires
        t.bytes_copied + sum_of(chunks) <= u64::MAX,
    ensures
        t.after_chunks(chunks).bytes_copied == t.bytes_copied + sum_of(chunks),
        t.after_chunks(chunks).total_bytes == t.total_bytes,
    decreases chunks.len(),
{
    if chunks.len() > 0 {
        lemma_chunks_sum(t, chunks.drop_last());
    }
}

/// Where one file transfer stands.
#[derive(Clone, Copy, Debug, PartialEq, Eq, Structural)]
pub enum TransferState {
    Copying,
    Finished,
    Cancelled,
}

/// The filesystem action that the host performs next for a transfer.
#[derive(Clone, Copy, Debug, PartialEq, Eq, Structural)]
pub enum TransferAction {
    /// Read the next chunk of at most one buffer from the source.
    ReadChunk,
    /// Remove the partly written destination; the transfer is cancelled.
    RemovePartial,
    /// Copy the permission bits from source to destination; the data is done.
    CopyPermissions,
}

/// One file streamed from source to destination through a fixed buffer.
/// Each round: poll the cancellation signal, read a chunk, write it and
/// send the progress message.
#[derive(Clone, Copy, Debug, PartialEq, Eq, Structural)]
pub struct FileTransfer {
    pub written: u64,
    pub state: TransferState,
}

impl FileTransfer {
    pub open spec fn initial() -> FileTransfer {
        FileTransfer { written: 0, state: TransferState::Copying }
    }

    /// A round starts: the cancellation signal is checked before the read.
    pub open spec fn poll_spec(self, cancelled: bool) -> (FileTransfer, TransferAction) {
        if cancelled {
            (FileTransfer { state: TransferState::Cancelled, ..self }, TransferAction::RemovePartial)
        } else {
            (self, TransferAction::ReadChunk)
        }
    }

    /// A read returned `n` bytes; zero means the source is exhausted.
    pub open spec fn chunk_spec(self, n: u64) -> (FileTransfer, Option<TransferAction>) {
        if n == 0 {
            (
                FileTransfer { state: TransferState::Finished, ..self },
                Some(TransferAction::CopyPermissions),
            )
        } else {
            (FileTransfer { written: add_sat(self.written, n), ..self }, None)
        }
    }

    /// The progress message of the round was sent, or the receiver is gone,
    /// which counts as cancellation.
    pub open spec fn delivered_spec(self, ok: bool) -> (FileTransfer, TransferAction) {
        if ok {
            (self, TransferAction::ReadChunk)
        } else {
            (FileTransfer { state: TransferState::Cancelled, ..self }, TransferAction::RemovePartial)
        }
    }

    pub fn start() -> (r: FileTransfer)
        ensures
            r == FileTransfer::initial(),
    {
        FileTransfer { written: 0, state: TransferState::Copying }
    }

    pub fn poll(&mut self, cancelled: bool) -> (a: TransferAction)
        requires
            old(self).state == TransferState::Copying,
        ensures
            (*final(self), a) == old(self).poll_spec(cancelled),
    {
        if cancelled {
            self.state = TransferState::Cancelled;
            TransferAction::RemovePartial
        } else {
            TransferAction::ReadChunk
        }
    }

    /// Takes the size of the chunk just read. For a non-empty chunk the
    /// tracker counts it and the message to send after writing it is
    /// returned; for the end of the source the next action is returned.
    pub fn chunk_read(&mut self, n: u64, tracker: &mut ProgressTracker, file: &str) -> (r: Result<
        OperationProgress,
        TransferAction,
    >)
        requires
            old(self).state == TransferState::Copying,
        ensures
            (*final(self), match r {
                Ok(_) => None,
                Err(a) => Some(a),
            }) == old(self).chunk_spec(n),
            n == 0 ==> *final(tracker) == *old(tracker),
            n > 0 ==> *final(tracker) == old(tracker).after_chunk(n),
            r matches Ok(p) ==> p.current_bytes == final(tracker).bytes_copied
                && p.total_bytes == old(tracker).total_bytes && p.current_file@ == file@
                && p.files_processed == old(tracker).files_processed && p.total_files == old(
                tracker,
            ).total_files,
    {
        if n == 0 {
            self.state = TransferState::Finished;
            Err(TransferAction::CopyPermissions)
        } else {
            if n > u64::MAX - self.written {
                self.written = u64::MAX;
            } else {
                self.written = self.written + n;
            }
            Ok(tracker.record_chunk(n, file))
        }
    }

    pub fn delivered(&mut self, ok: bool) -> (a: TransferAction)
        requires
            old(self).state == TransferState::Copying,
        ensures
            (*final(self), a) == old(self).delivered_spec(ok),
    {
        if ok {
            TransferAction::ReadChunk
        } else {
            self.state = TransferState::Cancelled;
            TransferAction::RemovePartial
        }
    }

    /// The outcome of a transfer that has stopped.
    pub fn outcome(&self) -> (r: Result<(), Error>)
        ensures
            r is Ok <==> self.state != TransferState::Cancelled,
            r matches Err(e) ==> e is Cancelled,
    {
        match self.state {
            TransferState::Cancelled => Err(Error::Cancelled),
            _ => Ok(()),
        }
    }
}

/// A transfer that finds its cancellation signal set before it starts
/// writes nothing, has its destination removed and ends cancelled; one that
/// is cancelled in the middle, by the signal or because the progress
/// receiver is gone, has its partial destination removed.
pub proof fn lemma_cancellation(t: FileTransfer)
    ensures
        FileTransfer::initial().poll_spec(true) == (
            FileTransfer { written: 0, state: TransferState::Cancelled },
            TransferAction::RemovePartial,
        ),
        t.poll_spec(true).0.state == TransferState::Cancelled,
        t.poll_spec(true).1 == TransferAction::RemovePartial,
        t.delivered_spec(false).0.state == TransferState::Cancelled,
        t.delivered_spec(false).1 == TransferAction::RemovePartial,
{
}

/// Repeating a copy of the same file three times into a directory where its
/// name is taken, renaming on conflict, gives three distinct names, numbered
/// one, two and three.
pub proof fn lemma_rename_three_times(dest_dir: Seq<char>, name: Seq<char>, taken: Seq<Seq<char>>)
    requires
        taken.contains(name),
        !taken.contains(candidate_name(name, 1)),
        !taken.contains(candidate_name(name, 2)),
        !taken.contains(candidate_name(name, 3)),
    ensures
        unique_name_of(name, taken) == Some(candidate_name(name, 1)),
        unique_name_of(name, taken.push(candidate_name(name, 1))) == Some(candidate_name(name, 2)),
        unique_name_of(name, taken.push(candidate_name(name, 1)).push(candidate_name(name, 2)))
            == Some(candidate_name(name, 3)),
        copy_target_of(dest_dir, name, ConflictResolution::Rename, taken) == Some(
            Some(join_of(dest_dir, candidate_name(name, 1))),
        ),
        copy_target_of(
            dest_dir,
            name,
            ConflictResolution::Rename,
            taken.push(candidate_name(name, 1)),
        ) == Some(Some(join_of(dest_dir, candidate_name(name, 2)))),
        copy_target_of(
            dest_dir,
            name,
            ConflictResolution::Rename,
            taken.push(candidate_name(name, 1)).push(candidate_name(name, 2)),
        ) == Some(Some(join_of(dest_dir, candidate_name(name, 3)))),
        candidate_name(name, 1) != candidate_name(name, 2),
        candidate_name(name, 1) != candidate_name(name, 3),
        candidate_name(name, 2) != candidate_name(name, 3),
{
    let c1 = candidate_name(name, 1);
    let c2 = candidate_name(name, 2);
    let c3 = candidate_name(name, 3);
    let k = stem_of(name).len() + 2int;
    assert(decimal_of(1) == seq!['1']);
    assert(decimal_of(2) == seq!['2']);
    assert(decimal_of(3) == seq!['3']);
    assert(c1[k] == '1');
    assert(c2[k] == '2');
    assert(c3[k] == '3');
    let t1 = taken.push(c1);
    let t2 = t1.push(c2);
    assert(t1[taken.len() as int] == c1);
    assert(t1.contains(c1));
    assert(!t1.contains(c2)) by {
        if t1.contains(c2) {
            let j = choose|j: int| 0 <= j < t1.len() && t1[j] == c2;
            if j < taken.len() {
                assert(taken[j] == c2);
            }
        }
    }
    assert(t2[taken.len() + 1int] == c2);
    assert(t2.contains(c2));
    assert(!t2.contains(c3)) by {
        if t2.contains(c3) {
            let j = choose|j: int| 0 <= j < t2.len() && t2[j] == c3;
            if j < taken.len() {
                assert(taken[j] == c3);
            } else if j == taken.len() {
                assert(t2[j] == c1);
            }
        }
    }
    assert(t2[taken.len() as int] == c1);
    assert(t2.contains(c1));
    assert(first_free(name, taken, 1) == Some(1nat));
    assert(first_free(name, t1, 2) == Some(2nat));
    assert(first_free(name, t1, 1) == Some(2nat));
    assert(first_free(name, t2, 3) == Some(3nat));
    assert(first_free(name, t2, 2) == Some(3nat));
    assert(first_free(name, t2, 1) == Some(3nat));
    let j = choose|j: int| 0 <= j < taken.len() && taken[j] == name;
    assert(t1[j] == name && t2[j] == name);
    assert(t1.contains(name) && t2.contains(name));
}

} // verus!
