//! A session kept as a file: how one is written, read and destroyed.
//!
//! What is done to the disk is given as a list of steps, in order. Whoever
//! performs them stops at the first that fails.

use vstd::prelude::*;
use vstd::string::*;
use vstd::utf8::*;

use crate::text::{self, join_path, text_of_bytes};

verus! {

broadcast use vstd::string::group_string_axioms;

/// The mode of a file that only its owner reads and writes.
pub const PRIVATE_MODE: u32 = 0o600;

/// How many bytes are overwritten at a time.
pub const CHUNK: u64 = 4096;

/// One thing done to the disk.
pub enum FileStep {
    /// Open for writing, creating or emptying it, and give it [`PRIVATE_MODE`]
    /// before anything is written to it.
    Create { path: String },
    /// Write after what has been written since it was opened.
    Append { path: String, bytes: Vec<u8> },
    /// Flush what has been written to the device.
    Sync { path: String },
    /// Give the file another name, replacing what had it.
    Rename { from: String, to: String },
    /// Overwrite that many bytes with zeros, beginning at a position.
    Zero { path: String, at: u64, count: u64 },
    /// Unlink the file.
    Remove { path: String },
}

/// A file as its contents and whether only its owner can read it.
pub struct Contents {
    pub bytes: Seq<u8>,
    pub private: bool,
}

/// What a disk holds, by path.
pub type Disk = Map<Seq<char>, Contents>;

/// Bytes with some of them overwritten by zeros.
pub open spec fn zeroed(bytes: Seq<u8>, at: int, count: int) -> Seq<u8> {
    Seq::new(
        bytes.len(),
        |i: int|
            if at <= i < at + count {
                0u8
            } else {
                bytes[i]
            },
    )
}

impl FileStep {
    /// What a step makes of a disk.
    pub open spec fn applied(self, disk: Disk) -> Disk {
        match self {
            FileStep::Create { path } => disk.insert(
                path@,
                Contents { bytes: Seq::empty(), private: true },
            ),
            FileStep::Append { path, bytes } => disk.insert(
                path@,
                Contents { bytes: disk[path@].bytes + bytes@, private: disk[path@].private },
            ),
            FileStep::Sync { path } => disk,
            FileStep::Rename { from, to } => disk.remove(from@).insert(to@, disk[from@]),
            FileStep::Zero { path, at, count } => disk.insert(
                path@,
                Contents {
                    bytes: zeroed(disk[path@].bytes, at as int, count as int),
                    private: disk[path@].private,
                },
            ),
            FileStep::Remove { path } => disk.remove(path@),
        }
    }
}

/// What the first `n` steps make of a disk.
pub open spec fn after(disk: Disk, steps: Seq<FileStep>, n: int) -> Disk
    decreases n,
{
    if n <= 0 {
        disk
    } else {
        steps[n - 1].applied(after(disk, steps, n - 1))
    }
}

/// The name a file has until it is whole.
pub open spec fn temp_of(path: Seq<char>) -> Seq<char> {
    path + ".new"@
}

/// The steps that write a file: whole and private under a temporary name, and
/// only then under its own.
pub open spec fn writes(steps: Seq<FileStep>, path: Seq<char>, body: Seq<char>) -> bool {
    &&& steps.len() == 4
    &&& steps[0] matches FileStep::Create { path: tmp }
    &&& tmp@ == temp_of(path)
    &&& steps[1] matches FileStep::Append { path: tmp, bytes }
    &&& tmp@ == temp_of(path)
    &&& bytes@ == encode_utf8(body)
    &&& steps[2] matches FileStep::Sync { path: tmp }
    &&& tmp@ == temp_of(path)
    &&& steps[3] matches FileStep::Rename { from, to }
    &&& from@ == temp_of(path)
    &&& to@ == path
}

/// Write a file in a profile so that only its owner reads it and nobody ever
/// finds half of it.
pub fn write_private(dir: &str, name: &str, body: &str) -> (steps: Vec<FileStep>)
    ensures
        writes(steps@, text::joined(dir@, name@), body@),
{
    let path = join_path(dir, name);
    let mut tmp = path.clone();
    tmp.append(".new");
    let mut steps: Vec<FileStep> = Vec::new();
    steps.push(FileStep::Create { path: tmp.clone() });
    steps.push(FileStep::Append { path: tmp.clone(), bytes: vstd::slice::slice_to_vec(body.as_bytes()) });
    steps.push(FileStep::Sync { path: tmp.clone() });
    steps.push(FileStep::Rename { from: tmp, to: path });
    steps
}

/// What a bounded read found.
pub enum BoundedRead {
    Present(Vec<u8>),
    Unavailable,
    TooLarge,
}

/// How many bytes a bounded read asks for: one more than it will take, so that
/// a longer file is told from one that just fits.
pub open spec fn limit_of(max_bytes: int) -> int {
    if max_bytes < u64::MAX {
        max_bytes + 1
    } else {
        u64::MAX as int
    }
}

/// How many bytes a bounded read asks for.
pub fn read_limit(max_bytes: usize) -> (limit: u64)
    ensures
        limit == limit_of(max_bytes as int),
{
    (max_bytes as u64).saturating_add(1)
}

/// What the bytes of a bounded read amount to. They are nothing where the file
/// could not be opened or read.
pub open spec fn bounded(read: Option<Seq<u8>>, max_bytes: int) -> Option<Result<Seq<u8>, ()>> {
    match read {
        None => None,
        Some(bytes) => if bytes.len() > max_bytes {
            Some(Err(()))
        } else if valid_utf8(bytes) {
            Some(Ok(bytes))
        } else {
            None
        },
    }
}

impl BoundedRead {
    /// A bounded read as a value: absent, too large, or its bytes.
    pub open spec fn found(self) -> Option<Result<Seq<u8>, ()>> {
        match self {
            BoundedRead::Present(bytes) => Some(Ok(bytes@)),
            BoundedRead::Unavailable => None,
            BoundedRead::TooLarge => Some(Err(())),
        }
    }
}

/// What the bytes of a bounded read amount to: too large past the bound,
/// unavailable where they are not text or could not be read.
pub fn read_bounded(read: Option<Vec<u8>>, max_bytes: usize) -> (found: BoundedRead)
    ensures
        found.found() == bounded(
            match read {
                Some(bytes) => Some(bytes@),
                None => None,
            },
            max_bytes as int,
        ),
{
    match read {
        None => BoundedRead::Unavailable,
        Some(bytes) => if bytes.len() > max_bytes {
            BoundedRead::TooLarge
        } else if text_of_bytes(bytes.as_slice()).is_none() {
            BoundedRead::Unavailable
        } else {
            BoundedRead::Present(bytes)
        },
    }
}

/// How many steps overwrite a file of that length.
pub open spec fn chunks(len: int) -> int {
    (len + CHUNK - 1) / (CHUNK as int)
}

/// The steps that destroy a file: every byte of it overwritten, in order, then
/// flushed, and only then unlinked.
pub open spec fn destroys(steps: Seq<FileStep>, path: Seq<char>, len: int) -> bool {
    &&& steps.len() == chunks(len) + 2
    &&& forall|i: int|
        0 <= i < chunks(len) ==> (#[trigger] steps[i] matches FileStep::Zero { path: p, at, count }
            && p@ == path && at == i * CHUNK && count == if len - i * CHUNK < CHUNK {
            len - i * CHUNK
        } else {
            CHUNK as int
        })
    &&& steps[chunks(len)] matches FileStep::Sync { path: p }
    &&& p@ == path
    &&& steps[chunks(len) + 1] matches FileStep::Remove { path: p }
    &&& p@ == path
}

/// Overwrite a file's bytes, then unlink it. Unlinking alone leaves a live
/// session on the device.
pub fn shred(path: &str, len: u64) -> (steps: Vec<FileStep>)
    ensures
        destroys(steps@, path@, len as int),
{
    let mut steps: Vec<FileStep> = Vec::new();
    let mut at: u64 = 0;
    while at < len
        invariant
            at <= len,
            at < len ==> at == steps@.len() * CHUNK,
            at == len ==> steps@.len() == chunks(len as int),
            forall|i: int|
                0 <= i < steps@.len() ==> (#[trigger] steps@[i] matches FileStep::Zero {
                    path: p,
                    at: from,
                    count,
                } && p@ == path@ && from == i * CHUNK && count == if len - i * CHUNK < CHUNK {
                    len - i * CHUNK
                } else {
                    CHUNK as int
                }),
        decreases len - at,
    {
        let left: u64 = len - at;
        let count: u64 = if left < CHUNK {
            left
        } else {
            CHUNK
        };
        steps.push(FileStep::Zero { path: path.to_owned(), at, count });
        at = at + count;
    }
    steps.push(FileStep::Sync { path: path.to_owned() });
    steps.push(FileStep::Remove { path: path.to_owned() });
    steps
}

/// Writing gives a file its whole body, private, and leaves no temporary copy
/// and nothing else changed.
pub proof fn law_a_write_is_whole(
    disk: Disk,
    steps: Seq<FileStep>,
    path: Seq<char>,
    body: Seq<char>,
)
    requires
        writes(steps, path, body),
    ensures
        after(disk, steps, 4) == disk.remove(temp_of(path)).insert(
            path,
            Contents { bytes: encode_utf8(body), private: true },
        ),
        !after(disk, steps, 4).contains_key(temp_of(path)),
{
    reveal_strlit(".new");
    reveal_with_fuel(after, 5);
    assert(temp_of(path).len() != path.len());
    assert(Seq::<u8>::empty() + encode_utf8(body) =~= encode_utf8(body));
    assert(after(disk, steps, 4) =~= disk.remove(temp_of(path)).insert(
        path,
        Contents { bytes: encode_utf8(body), private: true },
    ));
}

/// However many steps of a write were performed before it was cut off, the file
/// is as it was or holds the whole new body, and no other file but the
/// temporary one has changed.
pub proof fn law_an_interrupted_write_leaves_no_half(
    disk: Disk,
    steps: Seq<FileStep>,
    path: Seq<char>,
    body: Seq<char>,
    n: int,
)
    requires
        writes(steps, path, body),
        0 <= n <= 4,
    ensures
        n < 4 ==> after(disk, steps, n).remove(temp_of(path)) == disk.remove(temp_of(path)),
        n == 4 ==> after(disk, steps, n)[path].bytes == encode_utf8(body),
        n < 4 && disk.contains_key(path) ==> after(disk, steps, n)[path] == disk[path],
        n < 4 ==> after(disk, steps, n).contains_key(path) == disk.contains_key(path),
{
    reveal_strlit(".new");
    reveal_with_fuel(after, 5);
    assert(temp_of(path).len() != path.len());
    if n < 4 {
        assert(after(disk, steps, n).remove(temp_of(path)) =~= disk.remove(temp_of(path)));
    } else {
        law_a_write_is_whole(disk, steps, path, body);
    }
}

/// No step of a write puts a byte of the body where anyone but the owner can
/// read it.
pub proof fn law_a_write_is_private_throughout(
    disk: Disk,
    steps: Seq<FileStep>,
    path: Seq<char>,
    body: Seq<char>,
    n: int,
    at: Seq<char>,
)
    requires
        writes(steps, path, body),
        0 <= n <= 4,
        after(disk, steps, n).contains_key(at),
    ensures
        after(disk, steps, n)[at].private || (disk.contains_key(at) && after(disk, steps, n)[at]
            == disk[at]),
{
    reveal_strlit(".new");
    reveal_with_fuel(after, 5);
    assert(temp_of(path).len() != path.len());
}

/// A file of zeros.
pub open spec fn is_zero(bytes: Seq<u8>) -> bool {
    forall|i: int| 0 <= i < bytes.len() ==> #[trigger] bytes[i] == 0
}

proof fn lemma_zeroed_so_far(
    disk: Disk,
    steps: Seq<FileStep>,
    path: Seq<char>,
    len: int,
    n: int,
)
    requires
        destroys(steps, path, len),
        disk.contains_key(path),
        disk[path].bytes.len() == len,
        0 <= n <= chunks(len),
    ensures
        ({
            let now = after(disk, steps, n);
            &&& now.remove(path) == disk.remove(path)
            &&& now.contains_key(path)
            &&& now[path].bytes.len() == len
            &&& forall|i: int|
                0 <= i < n * CHUNK && i < len ==> #[trigger] now[path].bytes[i] == 0
        }),
    decreases n,
{
    if n > 0 {
        lemma_zeroed_so_far(disk, steps, path, len, n - 1);
        let before = after(disk, steps, n - 1);
        let now = after(disk, steps, n);
        assert(steps[n - 1] is Zero);
        assert(now.remove(path) =~= before.remove(path));
    } else {
        assert(after(disk, steps, 0) == disk);
    }
}

/// A file is all zeros before it is unlinked, then it is gone, and no other
/// file has changed.
pub proof fn law_erasing_overwrites_before_unlinking(
    disk: Disk,
    steps: Seq<FileStep>,
    path: Seq<char>,
    len: int,
)
    requires
        destroys(steps, path, len),
        disk.contains_key(path),
        disk[path].bytes.len() == len,
    ensures
        is_zero(after(disk, steps, chunks(len) + 1)[path].bytes),
        after(disk, steps, chunks(len) + 1)[path].bytes.len() == len,
        after(disk, steps, chunks(len) + 2) == disk.remove(path),
{
    let n = chunks(len);
    lemma_zeroed_so_far(disk, steps, path, len, n);
    assert(n * CHUNK >= len) by (nonlinear_arith)
        requires
            n == (len + 4095) / 4096int,
            CHUNK == 4096,
    ;
    assert(after(disk, steps, n + 1) == after(disk, steps, n));
    assert(after(disk, steps, n + 2) =~= disk.remove(path));
}

/// A file is written beside itself, under its own name and `.new`.
pub proof fn law_a_file_is_written_beside_itself(path: Seq<char>)
    ensures
        temp_of(path) == path + ".new"@,
        PRIVATE_MODE == 6 * 64,
        CHUNK == 4096,
{
}

/// One byte more than the most that is taken is read, so that too much is told
/// from just enough.
pub proof fn law_one_byte_more_is_read(max_bytes: int)
    ensures
        0 <= max_bytes < 0xffff_ffff_ffff_ffff ==> limit_of(max_bytes) == max_bytes + 1,
        max_bytes >= 0xffff_ffff_ffff_ffff ==> limit_of(max_bytes) == 0xffff_ffff_ffff_ffff,
{
}

/// What was read is there where it is text that fits, too large where it does
/// not fit, and not there where it is no text or could not be read.
pub proof fn law_a_read_is_there_too_large_or_not(bytes: Seq<u8>, max_bytes: int)
    ensures
        bounded(None, max_bytes) is None,
        bytes.len() <= max_bytes && valid_utf8(bytes) ==> bounded(Some(bytes), max_bytes) == Some(
            Ok::<Seq<u8>, ()>(bytes),
        ),
        bytes.len() <= max_bytes && !valid_utf8(bytes) ==> bounded(Some(bytes), max_bytes) is None,
        bytes.len() > max_bytes ==> (bounded(Some(bytes), max_bytes) matches Some(outcome)
            && outcome is Err),
{
}

/// A file is overwritten in pieces that reach its end and not a whole piece
/// further.
pub proof fn law_pieces_reach_the_end(len: int)
    requires
        len >= 0,
    ensures
        4096 * (chunks(len) - 1) < len <= 4096 * chunks(len),
{
}

} // verus!
