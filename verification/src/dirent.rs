//! The directory-enumeration engine: walks a kernel-filled buffer of
//! variable-length directory-entry records and produces one logical entry
//! per record.
//!
//! Each record is a fixed header — an 8-byte inode number, an 8-byte
//! offset hint, a 2-byte record length and a 1-byte type tag — followed
//! by a NUL-terminated name.  The cursor advances by exactly the record's
//! declared length; a buffer whose records do not line up is reported as
//! corrupt rather than read out of bounds.

use vstd::prelude::*;
use crate::bytes::{has_nul, le16, le64};
use crate::gateway::EIO;
use crate::meta::{file_type_of_dtype, FileType};
use crate::ops::{metadata, Action};

verus! {

/// Offset of the name field within a record: the size of the fixed
/// header, 8 + 8 + 2 + 1 bytes.
pub const DIRENT_NAME_OFFSET: usize = 19;

/// Size in bytes of the scratch buffer a directory stream fills.
pub const DIR_BUF_SIZE: usize = 1024;

/// One entry of a directory: its inode number, its type tag, its raw
/// name, and its full path under the directory that was opened.
#[derive(Clone, Debug, PartialEq, Eq)]
pub struct DirEntry {
    /// The inode number.
    pub ino: u64,
    /// The file type the record's tag names.
    pub file_type: FileType,
    /// The raw name, an opaque byte string without NUL bytes.
    pub name: Vec<u8>,
    /// The directory's path joined with the name.
    pub path: Vec<u8>,
}

/// The mathematical value of a directory entry.
pub struct EntryModel {
    /// The inode number.
    pub ino: u64,
    /// The file type.
    pub file_type: FileType,
    /// The raw name.
    pub name: Seq<u8>,
    /// The full path.
    pub path: Seq<u8>,
}

impl View for DirEntry {
    type V = EntryModel;

    open spec fn view(&self) -> EntryModel {
        EntryModel {
            ino: self.ino,
            file_type: self.file_type,
            name: self.name@,
            path: self.path@,
        }
    }
}

impl DirEntry {
    /// The full path of the entry: the directory's path joined with the
    /// entry's name.
    pub fn path(&self) -> (r: Vec<u8>)
        ensures
            r@ == self@.path,
    {
        let r = copy_range(self.path.as_slice(), 0, self.path.len());
        proof {
            assert(self.path@.subrange(0, self.path@.len() as int) =~= self.path@);
        }
        r
    }

    /// The bare name of the entry, without any leading path.
    pub fn file_name(&self) -> (r: Vec<u8>)
        ensures
            r@ == self@.name,
    {
        let r = copy_range(self.name.as_slice(), 0, self.name.len());
        proof {
            assert(self.name@.subrange(0, self.name@.len() as int) =~= self.name@);
        }
        r
    }

    /// The file type the entry's record tag names.
    pub fn file_type(&self) -> (t: FileType)
        ensures
            t == self.file_type,
    {
        self.file_type
    }

    /// The inode number of the entry.
    pub fn ino(&self) -> (r: u64)
        ensures
            r == self.ino,
    {
        self.ino
    }

    /// The extended status query for the file this entry names.
    pub fn metadata(&self) -> (a: Action)
        requires
            !has_nul(self@.path),
        ensures
            a matches Action::Statx { path: p, flags, mask } && p@ == crate::bytes::with_nul(
                self@.path,
            ) && flags == 0 && mask == crate::ops::STATX_ALL,
    {
        metadata(self.path.as_slice())
    }
}

/// The models of a sequence of entries.
pub open spec fn entries_view(s: Seq<DirEntry>) -> Seq<EntryModel> {
    s.map_values(|e: DirEntry| e@)
}

/// A directory path joined with an entry name.
pub open spec fn spec_join(root: Seq<u8>, name: Seq<u8>) -> Seq<u8> {
    if root.len() == 0 {
        name
    } else if root[root.len() - 1] == 47u8 {
        root + name
    } else {
        root + seq![47u8] + name
    }
}

/// Whether a name is the literal `.` entry.
pub open spec fn is_dot_name(s: Seq<u8>) -> bool {
    s.len() == 1 && s[0] == 46u8
}

/// Whether a name is the literal `..` entry.
pub open spec fn is_dot_dot_name(s: Seq<u8>) -> bool {
    s.len() == 2 && s[0] == 46u8 && s[1] == 46u8
}

/// The index of the first NUL byte in `b[i..end)`, or `end` when there is
/// none.
pub open spec fn find_nul(b: Seq<u8>, i: int, end: int) -> int
    decreases end - i,
{
    if i >= end {
        end
    } else if b[i] == 0u8 {
        i
    } else {
        find_nul(b, i + 1, end)
    }
}

/// The declared length of the record that starts at `cursor`.
pub open spec fn record_len(b: Seq<u8>, cursor: int) -> int {
    le16(b, cursor + 16) as int
}

/// Whether a well-formed record starts at `cursor`: its header fits the
/// buffer, its declared length covers the header and at least one name
/// byte, stays within the buffer, and the name area holds a NUL.
pub open spec fn wf_record(b: Seq<u8>, cursor: int) -> bool {
    &&& cursor + DIRENT_NAME_OFFSET <= b.len()
    &&& record_len(b, cursor) > DIRENT_NAME_OFFSET
    &&& cursor + record_len(b, cursor) <= b.len()
    &&& find_nul(b, cursor + DIRENT_NAME_OFFSET, cursor + record_len(b, cursor)) < cursor
        + record_len(b, cursor)
}

/// The name of the record that starts at `cursor`: the bytes from the
/// name offset up to the first NUL.
pub open spec fn record_name(b: Seq<u8>, cursor: int) -> Seq<u8> {
    b.subrange(
        cursor + DIRENT_NAME_OFFSET,
        find_nul(b, cursor + DIRENT_NAME_OFFSET, cursor + record_len(b, cursor)),
    )
}

/// The entry the record that starts at `cursor` describes, under a root.
pub open spec fn record_entry(b: Seq<u8>, root: Seq<u8>, cursor: int) -> EntryModel {
    EntryModel {
        ino: le64(b, cursor),
        file_type: file_type_of_dtype(b[cursor + 18]),
        name: record_name(b, cursor),
        path: spec_join(root, record_name(b, cursor)),
    }
}

/// The entries of the records from `cursor` to the end of the buffer,
/// with the literal `.` and `..` entries left out, or the I/O error when
/// some record is malformed.
pub open spec fn parse_records(b: Seq<u8>, root: Seq<u8>, cursor: int) -> Result<
    Seq<EntryModel>,
    i32,
>
    decreases b.len() - cursor,
{
    if cursor >= b.len() {
        Ok(Seq::empty())
    } else if wf_record(b, cursor) {
        match parse_records(b, root, cursor + record_len(b, cursor)) {
            Ok(rest) => {
                let name = record_name(b, cursor);
                if is_dot_name(name) || is_dot_dot_name(name) {
                    Ok(rest)
                } else {
                    Ok(seq![record_entry(b, root, cursor)] + rest)
                }
            },
            Err(e) => Err(e),
        }
    } else {
        Err(EIO)
    }
}

/// A parse still to finish, with the entries gathered so far in front.
pub open spec fn with_prefix(acc: Seq<EntryModel>, rest: Result<Seq<EntryModel>, i32>) -> Result<
    Seq<EntryModel>,
    i32,
> {
    match rest {
        Ok(s) => Ok(acc + s),
        Err(e) => Err(e),
    }
}

/// Copies `buf[start..end)` into a fresh vector.
fn copy_range(buf: &[u8], start: usize, end: usize) -> (v: Vec<u8>)
    requires
        start <= end <= buf@.len(),
    ensures
        v@ == buf@.subrange(start as int, end as int),
{
    let mut v: Vec<u8> = Vec::new();
    let mut i: usize = start;
    while i < end
        invariant
            start <= i <= end <= buf@.len(),
            v@ == buf@.subrange(start as int, i as int),
        decreases end - i,
    {
        v.push(buf[i]);
        i += 1;
        proof {
            assert(v@ =~= buf@.subrange(start as int, i as int));
        }
    }
    v
}

/// Joins a directory path and an entry name with a separator, unless the
/// path already ends in one.
fn join_path(root: &[u8], name: &[u8]) -> (v: Vec<u8>)
    ensures
        v@ == spec_join(root@, name@),
{
    let mut v: Vec<u8> = copy_range(root, 0, root.len());
    assert(v@ =~= root@);
    if root.len() == 0 {
        let n = copy_range(name, 0, name.len());
        assert(n@ =~= name@);
        return n;
    }
    if root[root.len() - 1] != 47u8 {
        v.push(47u8);
    }
    let mut i: usize = 0;
    while i < name.len()
        invariant
            0 <= i <= name@.len(),
            root@.len() > 0,
            root@[root@.len() - 1] == 47u8 ==> v@ == root@ + name@.take(i as int),
            root@[root@.len() - 1] != 47u8 ==> v@ == root@ + seq![47u8] + name@.take(i as int),
        decreases name@.len() - i,
    {
        v.push(name[i]);
        i += 1;
        proof {
            if root@[root@.len() - 1] == 47u8 {
                assert(v@ =~= root@ + name@.take(i as int));
            } else {
                assert(v@ =~= root@ + seq![47u8] + name@.take(i as int));
            }
        }
    }
    proof {
        assert(name@.take(name@.len() as int) =~= name@);
    }
    v
}

/// Parses a kernel-filled buffer of directory-entry records into entries,
/// skipping the literal `.` and `..` names.  The buffer must be exactly
/// the bytes the kernel filled.
pub fn parse_dirents(buf: &[u8], root: &[u8]) -> (r: Result<Vec<DirEntry>, i32>)
    ensures
        (r matches Ok(v) ==> parse_records(buf@, root@, 0) == Result::<Seq<EntryModel>, i32>::Ok(
            entries_view(v@),
        )),
        (r matches Err(e) ==> parse_records(buf@, root@, 0) == Result::<Seq<EntryModel>, i32>::Err(
            e,
        )),
{
    let len: usize = buf.len();
    let mut entries: Vec<DirEntry> = Vec::new();
    let mut cursor: usize = 0;
    proof {
        match parse_records(buf@, root@, 0) {
            Ok(s) => {
                assert(entries_view(entries@) + s =~= s);
            },
            Err(_) => {},
        }
    }
    while cursor < len
        invariant
            len == buf@.len(),
            0 <= cursor <= len,
            parse_records(buf@, root@, 0) == with_prefix(
                entries_view(entries@),
                parse_records(buf@, root@, cursor as int),
            ),
        decreases len - cursor,
    {
        if len - cursor < DIRENT_NAME_OFFSET {
            assert(!wf_record(buf@, cursor as int));
            return Err(EIO);
        }
        let rl16: u16 = crate::bytes::read_le16(buf, cursor + 16);
        let rl: usize = rl16 as usize;
        assert(rl == record_len(buf@, cursor as int));
        if rl <= DIRENT_NAME_OFFSET || rl > len - cursor {
            assert(!wf_record(buf@, cursor as int));
            return Err(EIO);
        }
        let rec_end: usize = cursor + rl;
        let name_start: usize = cursor + DIRENT_NAME_OFFSET;
        let mut j: usize = name_start;
        while j < rec_end && buf[j] != 0
            invariant
                name_start <= j <= rec_end <= buf@.len(),
                forall|k: int| name_start <= k < j ==> buf@[k] != 0u8,
            decreases rec_end - j,
        {
            j += 1;
        }
        proof {
            lemma_find_nul_at(buf@, name_start as int, j as int, rec_end as int);
        }
        if j == rec_end {
            assert(!wf_record(buf@, cursor as int));
            return Err(EIO);
        }
        assert(wf_record(buf@, cursor as int));
        let name: Vec<u8> = copy_range(buf, name_start, j);
        assert(name@ == record_name(buf@, cursor as int));
        let ino: u64 = crate::bytes::read_le64(buf, cursor);
        let dtype: u8 = buf[cursor + 18];
        let skip: bool = (name.len() == 1 && name[0] == 46u8) || (name.len() == 2 && name[0]
            == 46u8 && name[1] == 46u8);
        proof {
            assert(skip == (is_dot_name(record_name(buf@, cursor as int)) || is_dot_dot_name(
                record_name(buf@, cursor as int),
            )));
        }
        let ghost pre = entries@;
        if !skip {
            let path: Vec<u8> = join_path(root, name.as_slice());
            let entry = DirEntry { ino, file_type: FileType::from_dtype(dtype), name, path };
            assert(entry@ == record_entry(buf@, root@, cursor as int));
            entries.push(entry);
            proof {
                assert(entries_view(entries@) =~= entries_view(pre) + seq![
                    record_entry(buf@, root@, cursor as int),
                ]);
            }
        }
        proof {
            let b = buf@;
            let r0 = root@;
            let c = cursor as int;
            match parse_records(b, r0, rec_end as int) {
                Ok(rest) => {
                    if skip {
                        assert(parse_records(b, r0, c) == Result::<Seq<EntryModel>, i32>::Ok(
                            rest,
                        ));
                    } else {
                        assert(parse_records(b, r0, c) == Result::<Seq<EntryModel>, i32>::Ok(
                            seq![record_entry(b, r0, c)] + rest,
                        ));
                        assert(entries_view(pre) + (seq![record_entry(b, r0, c)] + rest) =~= (
                        entries_view(pre) + seq![record_entry(b, r0, c)]) + rest);
                    }
                },
                Err(_) => {},
            }
        }
        cursor = rec_end;
    }
    proof {
        assert(parse_records(buf@, root@, cursor as int) == Result::<Seq<EntryModel>, i32>::Ok(
            Seq::<EntryModel>::empty(),
        ));
        assert(entries_view(entries@) + Seq::<EntryModel>::empty() =~= entries_view(entries@));
    }
    Ok(entries)
}

/// A directory stream: the directory's path, the entries parsed but not
/// yet handed out, and whether the kernel has reported the end.
#[derive(Debug)]
pub struct ReadDir {
    root: Vec<u8>,
    entries: Vec<DirEntry>,
    exhausted: bool,
}

impl ReadDir {
    /// The entries parsed and not yet handed out, oldest first.
    pub closed spec fn pending(&self) -> Seq<EntryModel> {
        entries_view(self.entries@)
    }

    /// The directory path the stream was opened under.
    pub closed spec fn spec_root(&self) -> Seq<u8> {
        self.root@
    }

    /// Whether a fill has reported the end of the directory.
    pub closed spec fn spec_exhausted(&self) -> bool {
        self.exhausted
    }

    /// A fresh stream over a directory path, with nothing parsed yet.
    pub fn new(root: &[u8]) -> (d: ReadDir)
        ensures
            d.pending() == Seq::<EntryModel>::empty(),
            !d.spec_exhausted(),
            d.spec_root() == root@,
    {
        let d = ReadDir { root: copy_range(root, 0, root.len()), entries: Vec::new(), exhausted: false };
        proof {
            assert(root@.subrange(0, root@.len() as int) =~= root@);
            assert(entries_view(Seq::<DirEntry>::empty()) =~= Seq::<EntryModel>::empty());
        }
        d
    }

    /// The directory path the stream was opened under.
    pub fn root(&self) -> (r: Vec<u8>)
        ensures
            r@ == self.spec_root(),
    {
        let r = copy_range(self.root.as_slice(), 0, self.root.len());
        proof {
            assert(self.root@.subrange(0, self.root@.len() as int) =~= self.root@);
        }
        r
    }

    /// Whether the kernel has reported the end of the directory.
    pub fn is_exhausted(&self) -> (b: bool)
        ensures
            b == self.spec_exhausted(),
    {
        self.exhausted
    }

    /// Whether the stream needs another kernel fill before it can hand
    /// out an entry.
    pub fn needs_fill(&self) -> (b: bool)
        ensures
            b == (self.pending().len() == 0 && !self.spec_exhausted()),
    {
        self.entries.len() == 0 && !self.exhausted
    }

    /// Takes in the bytes one get-directory-entries call filled.  An
    /// empty fill marks the end of the stream; otherwise the buffer is
    /// parsed and its entries are queued behind the pending ones.  A
    /// malformed buffer is reported and leaves the stream unchanged.
    pub fn fill(&mut self, data: &[u8]) -> (r: Result<(), i32>)
        ensures
            final(self).spec_root() == old(self).spec_root(),
            data@.len() == 0 ==> (r matches Ok(_) && final(self).pending() == old(self).pending()
                && final(self).spec_exhausted()),
            data@.len() > 0 ==> match parse_records(data@, old(self).spec_root(), 0) {
                Ok(s) => (r matches Ok(_) && final(self).pending() == old(self).pending() + s
                    && final(self).spec_exhausted() == old(self).spec_exhausted()),
                Err(e) => r == Result::<(), i32>::Err(e) && final(self).pending() == old(
                    self,
                ).pending() && final(self).spec_exhausted() == old(self).spec_exhausted(),
            },
    {
        if data.len() == 0 {
            self.exhausted = true;
            return Ok(());
        }
        match parse_dirents(data, self.root.as_slice()) {
            Ok(mut parsed) => {
                let ghost pre = self.entries@;
                let ghost fresh = parsed@;
                self.entries.append(&mut parsed);
                proof {
                    assert(entries_view(pre + fresh) =~= entries_view(pre) + entries_view(
                        fresh,
                    ));
                }
                Ok(())
            },
            Err(e) => Err(e),
        }
    }

    /// Hands out the next pending entry, oldest first, or nothing when
    /// the queue is empty.
    pub fn next_entry(&mut self) -> (r: Option<DirEntry>)
        ensures
            final(self).spec_root() == old(self).spec_root(),
            final(self).spec_exhausted() == old(self).spec_exhausted(),
            old(self).pending().len() > 0 ==> (r matches Some(e) && e@ == old(self).pending()[0]
                && final(self).pending() == old(self).pending().subrange(
                1,
                old(self).pending().len() as int,
            )),
            old(self).pending().len() == 0 ==> (r is None && final(self).pending() == old(
                self,
            ).pending()),
    {
        if self.entries.len() == 0 {
            None
        } else {
            let ghost pre = self.entries@;
            let e = self.entries.remove(0);
            proof {
                assert(entries_view(pre.remove(0)) =~= entries_view(pre).subrange(
                    1,
                    entries_view(pre).len() as int,
                ));
            }
            Some(e)
        }
    }
}

/// A NUL scan lands between its starting spot and its end.
proof fn lemma_find_nul_bounds(b: Seq<u8>, i: int, end: int)
    requires
        i <= end,
    ensures
        i <= find_nul(b, i, end) <= end,
    decreases end - i,
{
    if i < end && b[i] != 0u8 {
        lemma_find_nul_bounds(b, i + 1, end);
    }
}

/// The bytes of a 16-bit field inside the first part of a concatenation
/// are the first part's own.
proof fn lemma_le16_prefix(b1: Seq<u8>, b2: Seq<u8>, i: int)
    requires
        0 <= i,
        i + 2 <= b1.len(),
    ensures
        le16(b1 + b2, i) == le16(b1, i),
{
    assert((b1 + b2)[i] == b1[i]);
    assert((b1 + b2)[i + 1] == b1[i + 1]);
}

/// The bytes of a 64-bit field inside the first part of a concatenation
/// are the first part's own.
proof fn lemma_le64_prefix(b1: Seq<u8>, b2: Seq<u8>, i: int)
    requires
        0 <= i,
        i + 8 <= b1.len(),
    ensures
        le64(b1 + b2, i) == le64(b1, i),
{
    assert(forall|k: int| i <= k < i + 8 ==> (b1 + b2)[k] == b1[k]);
    assert((b1 + b2)[i] == b1[i]);
    assert((b1 + b2)[i + 1] == b1[i + 1]);
    assert((b1 + b2)[i + 2] == b1[i + 2]);
    assert((b1 + b2)[i + 3] == b1[i + 3]);
    assert((b1 + b2)[i + 4] == b1[i + 4]);
    assert((b1 + b2)[i + 5] == b1[i + 5]);
    assert((b1 + b2)[i + 6] == b1[i + 6]);
    assert((b1 + b2)[i + 7] == b1[i + 7]);
}

/// A 16-bit field read past the first part of a concatenation is the
/// second part's own, at the shifted spot.
proof fn lemma_le16_shift(b1: Seq<u8>, b2: Seq<u8>, i: int)
    requires
        0 <= i,
        i + 2 <= b2.len(),
    ensures
        le16(b1 + b2, b1.len() + i) == le16(b2, i),
{
    assert((b1 + b2)[b1.len() + i] == b2[i]);
    assert((b1 + b2)[b1.len() + i + 1] == b2[i + 1]);
}

/// A 64-bit field read past the first part of a concatenation is the
/// second part's own, at the shifted spot.
proof fn lemma_le64_shift(b1: Seq<u8>, b2: Seq<u8>, i: int)
    requires
        0 <= i,
        i + 8 <= b2.len(),
    ensures
        le64(b1 + b2, b1.len() + i) == le64(b2, i),
{
    assert((b1 + b2)[b1.len() + i] == b2[i]);
    assert((b1 + b2)[b1.len() + i + 1] == b2[i + 1]);
    assert((b1 + b2)[b1.len() + i + 2] == b2[i + 2]);
    assert((b1 + b2)[b1.len() + i + 3] == b2[i + 3]);
    assert((b1 + b2)[b1.len() + i + 4] == b2[i + 4]);
    assert((b1 + b2)[b1.len() + i + 5] == b2[i + 5]);
    assert((b1 + b2)[b1.len() + i + 6] == b2[i + 6]);
    assert((b1 + b2)[b1.len() + i + 7] == b2[i + 7]);
}

/// The first NUL of a shifted scan sits at the shifted spot: scanning the
/// concatenation from an offset past the first part mirrors scanning the
/// second part alone.
proof fn lemma_find_nul_shift(b1: Seq<u8>, b2: Seq<u8>, i: int, end: int)
    requires
        0 <= i,
        end <= b2.len(),
    ensures
        find_nul(b1 + b2, b1.len() + i, b1.len() + end) == b1.len() + find_nul(b2, i, end),
    decreases end - i,
{
    if i < end {
        assert((b1 + b2)[b1.len() + i] == b2[i]);
        lemma_find_nul_shift(b1, b2, i + 1, end);
    }
}

/// Parsing the concatenation of two buffers from a spot past the first
/// mirrors parsing the second buffer alone from the corresponding spot.
proof fn lemma_parse_shift(b1: Seq<u8>, b2: Seq<u8>, root: Seq<u8>, c: int)
    requires
        0 <= c,
    ensures
        parse_records(b1 + b2, root, b1.len() + c) == parse_records(b2, root, c),
    decreases b2.len() - c,
{
    let b = b1 + b2;
    let l = b1.len() as int;
    if c >= b2.len() {
        assert(l + c >= b.len());
    } else {
        if c + 18 <= b2.len() {
            lemma_le16_shift(b1, b2, c + 16);
            assert(record_len(b, l + c) == record_len(b2, c));
        }
        let rl = record_len(b2, c);
        if c + DIRENT_NAME_OFFSET <= b2.len() && rl > DIRENT_NAME_OFFSET && c + rl <= b2.len() {
            lemma_find_nul_shift(b1, b2, c + DIRENT_NAME_OFFSET, c + rl);
            assert(wf_record(b, l + c) == wf_record(b2, c));
            if wf_record(b2, c) {
                assert(record_len(b, l + c) == rl);
                let fn2 = find_nul(b2, c + DIRENT_NAME_OFFSET, c + rl);
                assert(find_nul(b, l + c + DIRENT_NAME_OFFSET, l + c + rl) == l + fn2);
                assert(record_name(b, l + c) == b.subrange(
                    l + c + DIRENT_NAME_OFFSET,
                    l + fn2,
                ));
                lemma_find_nul_bounds(b2, c + DIRENT_NAME_OFFSET, c + rl);
                assert(record_name(b2, c) == b2.subrange(c + DIRENT_NAME_OFFSET, fn2));
                assert(b.subrange(l + c + DIRENT_NAME_OFFSET, l + fn2) =~= b2.subrange(
                    c + DIRENT_NAME_OFFSET,
                    fn2,
                ));
                assert(record_name(b, l + c) == record_name(b2, c));
                lemma_le64_shift(b1, b2, c);
                assert(le64(b, l + c) == le64(b2, c));
                assert(b[l + c + 18] == b2[c + 18]);
                assert(record_entry(b, root, l + c) == record_entry(b2, root, c));
                lemma_parse_shift(b1, b2, root, c + rl);
            }
        } else {
            assert(!wf_record(b, l + c));
            assert(!wf_record(b2, c));
        }
    }
}

/// Directory enumeration is independent of the scratch-buffer size: when
/// the kernel hands the records over in two well-formed fills, parsing
/// the fills one after the other yields exactly the entries of the whole,
/// each once and in order.
pub proof fn lemma_parse_chunks(b1: Seq<u8>, b2: Seq<u8>, root: Seq<u8>, c: int)
    requires
        0 <= c <= b1.len(),
        parse_records(b1, root, c) matches Ok(_),
        parse_records(b2, root, 0) matches Ok(_),
    ensures
        parse_records(b1 + b2, root, c) == with_prefix(
            parse_records(b1, root, c)->Ok_0,
            parse_records(b2, root, 0),
        ),
    decreases b1.len() - c,
{
    let b = b1 + b2;
    if c == b1.len() {
        lemma_parse_shift(b1, b2, root, 0);
        assert(parse_records(b1, root, c) == Result::<Seq<EntryModel>, i32>::Ok(
            Seq::<EntryModel>::empty(),
        ));
        let s2 = parse_records(b2, root, 0)->Ok_0;
        assert(Seq::<EntryModel>::empty() + s2 =~= s2);
    } else {
        assert(wf_record(b1, c));
        lemma_le16_prefix(b1, b2, c + 16);
        assert(le16(b, c + 16) == le16(b1, c + 16));
        let rl = record_len(b1, c);
        assert(record_len(b, c) == rl);
        lemma_find_nul_subrange(b1, b2, c + DIRENT_NAME_OFFSET, c + rl);
        let fn1 = find_nul(b1, c + DIRENT_NAME_OFFSET, c + rl);
        assert(find_nul(b, c + DIRENT_NAME_OFFSET, c + rl) == fn1);
        assert(c + DIRENT_NAME_OFFSET <= b.len());
        assert(record_len(b, c) > DIRENT_NAME_OFFSET);
        assert(c + record_len(b, c) <= b.len());
        assert(find_nul(b, c + DIRENT_NAME_OFFSET, c + record_len(b, c)) < c + record_len(b, c));
        assert(wf_record(b, c));
        lemma_find_nul_bounds(b1, c + DIRENT_NAME_OFFSET, c + rl);
        assert(record_name(b, c) == b.subrange(c + DIRENT_NAME_OFFSET, fn1));
        assert(record_name(b1, c) == b1.subrange(c + DIRENT_NAME_OFFSET, fn1));
        assert(b.subrange(c + DIRENT_NAME_OFFSET, fn1) =~= b1.subrange(
            c + DIRENT_NAME_OFFSET,
            fn1,
        ));
        assert(record_name(b, c) == record_name(b1, c));
        lemma_le64_prefix(b1, b2, c);
        assert(le64(b, c) == le64(b1, c));
        assert(b[c + 18] == b1[c + 18]);
        assert(record_entry(b, root, c) == record_entry(b1, root, c));
        assert(c + rl <= b1.len());
        assert(parse_records(b1, root, c + rl) matches Ok(_));
        lemma_parse_chunks(b1, b2, root, c + rl);
        let rest1 = parse_records(b1, root, c + rl)->Ok_0;
        let s2 = parse_records(b2, root, 0)->Ok_0;
        let name = record_name(b1, c);
        if is_dot_name(name) || is_dot_dot_name(name) {
        } else {
            assert(seq![record_entry(b1, root, c)] + (rest1 + s2) =~= (seq![
                record_entry(b1, root, c),
            ] + rest1) + s2);
        }
    }
}

/// A NUL scan confined to the first part of a concatenation sees the
/// same bytes there as a scan of the first part alone.
proof fn lemma_find_nul_subrange(b1: Seq<u8>, b2: Seq<u8>, i: int, end: int)
    requires
        0 <= i,
        end <= b1.len(),
    ensures
        find_nul(b1 + b2, i, end) == find_nul(b1, i, end),
    decreases end - i,
{
    if i < end {
        assert((b1 + b2)[i] == b1[i]);
        lemma_find_nul_subrange(b1, b2, i + 1, end);
    }
}

/// When a scan from `i` found no NUL before `j` and stopped there, `j` is
/// where the first NUL of `b[i..end)` sits, or `end` when `j` reached it.
proof fn lemma_find_nul_at(b: Seq<u8>, i: int, j: int, end: int)
    requires
        i <= j <= end <= b.len(),
        forall|k: int| i <= k < j ==> b[k] != 0u8,
        j < end ==> b[j] == 0u8,
    ensures
        find_nul(b, i, end) == j,
    decreases j - i,
{
    if i < j {
        lemma_find_nul_at(b, i + 1, j, end);
    }
}

} // verus!
