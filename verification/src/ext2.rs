//! A read-only ext2-style filesystem reader over a raw disk-image byte
//! region: superblock magic check, the first block group's inode table,
//! root-directory listing and direct-block file reads. The reader walks
//! bytes it was handed; it never writes.

use vstd::prelude::*;

use crate::console::{Console, println_spec, putc_spec, puts_spec};
use crate::ram::word_at;

verus! {

/// Filesystem block size in bytes.
pub const BLOCK_SIZE: usize = 1024;

/// The superblock magic of a mountable image.
pub const EXT2_MAGIC: u16 = 0xEF53;

/// On-disk size of one inode record.
pub const INODE_SIZE: usize = 128;

/// Byte offset of the superblock inside the image.
pub const SUPERBLOCK_OFFSET: usize = 1024;

/// Byte offset of the magic inside the superblock.
pub const MAGIC_OFFSET: usize = 56;

/// Byte offset of the first block group's descriptor.
pub const GROUP_DESC_OFFSET: usize = 2048;

/// Smallest image that holds a superblock and a group descriptor.
pub const MIN_DISK_SIZE: usize = 4096;

/// Number of direct block pointers the reader follows.
pub const DIRECT_BLOCKS: usize = 12;

/// The little-endian 16-bit word at byte offset `a`.
pub open spec fn half_at(s: Seq<u8>, a: int) -> u16 {
    (s[a] as u16) | ((s[a + 1] as u16) << 8)
}

/// The superblock magic of an image.
pub open spec fn sb_magic(disk: Seq<u8>) -> u16 {
    half_at(disk, SUPERBLOCK_OFFSET + MAGIC_OFFSET)
}

/// An image mounts when it holds the metadata blocks and the magic matches.
pub open spec fn mountable(disk: Seq<u8>) -> bool {
    disk.len() >= MIN_DISK_SIZE && sb_magic(disk) == EXT2_MAGIC
}

/// The first block group's inode table block, from its group descriptor.
pub open spec fn table_block(disk: Seq<u8>) -> u32 {
    word_at(disk, GROUP_DESC_OFFSET + 8)
}

/// Byte offset of inode `index` (1-based) in the inode table.
pub open spec fn inode_offset(disk: Seq<u8>, index: u32) -> int {
    table_block(disk) * (BLOCK_SIZE as int) + (index - 1) * (INODE_SIZE as int)
}

/// Whether inode `index` lies inside the image.
pub open spec fn inode_readable(disk: Seq<u8>, index: u32) -> bool {
    index >= 1 && inode_offset(disk, index) + INODE_SIZE <= disk.len()
}

/// The byte size recorded in inode `index`.
pub open spec fn inode_size(disk: Seq<u8>, index: u32) -> u32 {
    word_at(disk, inode_offset(disk, index) + 4)
}

/// The `k`-th direct block pointer of inode `index`.
pub open spec fn inode_block(disk: Seq<u8>, index: u32, k: int) -> u32 {
    word_at(disk, inode_offset(disk, index) + 40 + 4 * k)
}

/// One parsed directory entry.
pub struct DirEntryModel {
    pub inode: u32,
    pub name: Seq<u8>,
    pub file_type: u8,
}

/// The entries of one directory block, walked from byte offset `off`: the
/// walk ends at a zero inode, at a truncated record, or at the end of the
/// block; a record length of zero ends it after its own entry.
pub open spec fn dir_entries(disk: Seq<u8>, base: int, off: int) -> Seq<DirEntryModel>
    decreases BLOCK_SIZE - off,
{
    if off < 0 || off + 8 > BLOCK_SIZE {
        Seq::empty()
    } else {
        let ino = word_at(disk, base + off);
        if ino == 0 {
            Seq::empty()
        } else {
            let rec_len = half_at(disk, base + off + 4);
            let name_len = disk[base + off + 6];
            if off + 8 + name_len > BLOCK_SIZE {
                Seq::empty()
            } else {
                let entry = DirEntryModel {
                    inode: ino,
                    name: disk.subrange(base + off + 8, base + off + 8 + name_len),
                    file_type: disk[base + off + 7],
                };
                if rec_len == 0 || off + rec_len + 8 > BLOCK_SIZE {
                    seq![entry]
                } else {
                    seq![entry] + dir_entries(disk, base, off + rec_len)
                }
            }
        }
    }
}

/// Byte offset of the root directory's data block (inode 2, first block).
pub open spec fn root_dir_base(disk: Seq<u8>) -> int {
    inode_block(disk, 2, 0) * (BLOCK_SIZE as int)
}

/// The root directory's entries; empty when the root inode or its data
/// block lies outside the image.
pub open spec fn root_entries(disk: Seq<u8>) -> Seq<DirEntryModel> {
    if inode_readable(disk, 2) && root_dir_base(disk) + BLOCK_SIZE <= disk.len() {
        dir_entries(disk, root_dir_base(disk), 0)
    } else {
        Seq::empty()
    }
}

/// The inode of the first entry whose name matches, if any.
pub open spec fn find_entry(ents: Seq<DirEntryModel>, name: Seq<u8>) -> Option<u32>
    decreases ents.len(),
{
    if ents.len() == 0 {
        None
    } else if ents[0].name == name {
        Some(ents[0].inode)
    } else {
        find_entry(ents.drop_first(), name)
    }
}

/// How many bytes of file data block `k` holds: a full block, except the
/// last, which holds the remainder of the file size.
pub open spec fn block_take(size: u32, num_blocks: int, k: int) -> int {
    if k == num_blocks - 1 {
        if size % (BLOCK_SIZE as u32) == 0 {
            BLOCK_SIZE as int
        } else {
            (size % (BLOCK_SIZE as u32)) as int
        }
    } else {
        BLOCK_SIZE as int
    }
}

/// The file bytes reachable from inode `index` starting at direct block
/// `k`: the walk ends past the last data block, past the direct pointers,
/// at a zero block pointer, or at a block lying outside the image.
pub open spec fn file_bytes_from(disk: Seq<u8>, index: u32, k: int) -> Seq<u8>
    decreases DIRECT_BLOCKS - k,
{
    let size = inode_size(disk, index);
    let num_blocks = (size + (BLOCK_SIZE as int) - 1) / (BLOCK_SIZE as int);
    if k < 0 || k >= num_blocks || k >= DIRECT_BLOCKS {
        Seq::empty()
    } else {
        let b = inode_block(disk, index, k);
        let take = block_take(size, num_blocks, k);
        if b == 0 || b * (BLOCK_SIZE as int) + take > disk.len() {
            Seq::empty()
        } else {
            disk.subrange(b * (BLOCK_SIZE as int), b * (BLOCK_SIZE as int) + take)
                + file_bytes_from(disk, index, k + 1)
        }
    }
}

/// The whole readable content of the file at inode `index`.
pub open spec fn file_bytes(disk: Seq<u8>, index: u32) -> Seq<u8> {
    file_bytes_from(disk, index, 0)
}

/// A parsed directory entry, as `list_root` returns it.
pub struct DirEntryInfo {
    pub inode: u32,
    pub name: Vec<u8>,
    pub file_type: u8,
}

impl DirEntryInfo {
    /// The abstract entry.
    pub open spec fn view(&self) -> DirEntryModel {
        DirEntryModel { inode: self.inode, name: self.name@, file_type: self.file_type }
    }
}

/// The filesystem reader: it owns its copy of the disk-image region and the
/// inode table location parsed at mount.
pub struct Ext2Driver {
    disk: Vec<u8>,
    inode_table_block: u32,
}

impl Ext2Driver {
    /// The image bytes.
    pub closed spec fn disk_bytes(&self) -> Seq<u8> {
        self.disk@
    }

    /// A mounted reader holds a mountable image and the table block parsed
    /// from its group descriptor.
    pub open spec fn wf(&self) -> bool {
        mountable(self.disk_bytes()) && self.table_block_field() == table_block(self.disk_bytes())
    }

    /// The parsed inode table block.
    pub closed spec fn table_block_field(&self) -> u32 {
        self.inode_table_block
    }

    /// Mounts the image: succeeds exactly when the image holds its metadata
    /// blocks and the superblock magic matches.
    pub fn new(disk: Vec<u8>) -> (r: Option<Ext2Driver>)
        ensures
            mountable(disk@) <==> r is Some,
            r matches Some(d) ==> d.wf() && d.disk_bytes() == disk@,
    {
        if disk.len() < MIN_DISK_SIZE {
            return None;
        }
        let m0 = disk[SUPERBLOCK_OFFSET + MAGIC_OFFSET] as u16;
        let m1 = disk[SUPERBLOCK_OFFSET + MAGIC_OFFSET + 1] as u16;
        let magic = m0 | (m1 << 8);
        if magic != EXT2_MAGIC {
            return None;
        }
        let t0 = disk[GROUP_DESC_OFFSET + 8] as u32;
        let t1 = disk[GROUP_DESC_OFFSET + 9] as u32;
        let t2 = disk[GROUP_DESC_OFFSET + 10] as u32;
        let t3 = disk[GROUP_DESC_OFFSET + 11] as u32;
        let inode_table_block = t0 | (t1 << 8) | (t2 << 16) | (t3 << 24);
        Some(Ext2Driver { disk, inode_table_block })
    }

    /// Reads one inode record: its recorded size and direct block pointers.
    fn get_inode(&self, index: u32) -> (r: Option<InodeInfo>)
        requires
            self.wf(),
        ensures
            match r {
                Some(info) => {
                    &&& inode_readable(self.disk_bytes(), index)
                    &&& info.size == inode_size(self.disk_bytes(), index)
                    &&& info.blocks@.len() == DIRECT_BLOCKS
                    &&& forall|k: int|
                        0 <= k < DIRECT_BLOCKS ==> info.blocks@[k] == inode_block(
                            self.disk_bytes(),
                            index,
                            k,
                        )
                },
                None => !inode_readable(self.disk_bytes(), index),
            },
    {
        if index < 1 {
            return None;
        }
        let t = self.inode_table_block as u64;
        let ix = (index - 1) as u64;
        proof {
            assert(t * 1024 <= 0xffffffffu64 * 1024) by (nonlinear_arith)
                requires
                    t <= 0xffffffffu64,
            ;
            assert(ix * 128 <= 0xffffffffu64 * 128) by (nonlinear_arith)
                requires
                    ix <= 0xffffffffu64,
            ;
        }
        let off64 = t * 1024 + ix * 128;
        if off64 + (INODE_SIZE as u64) > self.disk.len() as u64 {
            return None;
        }
        let off = off64 as usize;
        let size = word(&self.disk, off + 4);
        let mut blocks: Vec<u32> = Vec::new();
        let mut k: usize = 0;
        while k < DIRECT_BLOCKS
            invariant
                k <= DIRECT_BLOCKS,
                blocks@.len() == k,
                self.wf(),
                off == inode_offset(self.disk_bytes(), index),
                off + INODE_SIZE <= self.disk_bytes().len(),
                forall|j: int|
                    0 <= j < k ==> blocks@[j] == inode_block(self.disk_bytes(), index, j),
            decreases DIRECT_BLOCKS - k,
        {
            blocks.push(word(&self.disk, off + 40 + 4 * k));
            k = k + 1;
        }
        Some(InodeInfo { size, blocks })
    }

    /// Lists the root directory: every entry of its first data block, in
    /// order, with name and type. An image whose root inode or directory
    /// block lies outside the region lists as empty.
    pub fn list_root(&self) -> (r: Vec<DirEntryInfo>)
        requires
            self.wf(),
        ensures
            models_of(r@) == root_entries(self.disk_bytes()),
    {
        let ghost dk = self.disk_bytes();
        let root = match self.get_inode(2) {
            Some(info) => info,
            None => {
                proof {
                    assert(models_of(Seq::<DirEntryInfo>::empty()) =~= Seq::<
                        DirEntryModel,
                    >::empty());
                }
                return Vec::new();
            },
        };
        let b = root.blocks[0];
        let base64 = (b as u64) * (BLOCK_SIZE as u64);
        if base64 + (BLOCK_SIZE as u64) > self.disk.len() as u64 {
            proof {
                assert(models_of(Seq::<DirEntryInfo>::empty()) =~= Seq::<DirEntryModel>::empty());
            }
            return Vec::new();
        }
        let base = base64 as usize;
        let disk_len = self.disk.len();
        let mut out: Vec<DirEntryInfo> = Vec::new();
        let mut off: usize = 0;
        loop
            invariant_except_break
                self.wf(),
                base == root_dir_base(dk),
                base + BLOCK_SIZE <= dk.len(),
                dk == self.disk_bytes(),
                dk.len() == disk_len,
                off <= BLOCK_SIZE,
                root_entries(dk) == models_of(out@) + dir_entries(dk, base as int, off as int),
            ensures
                models_of(out@) == root_entries(dk),
            decreases BLOCK_SIZE - off,
        {
            if off + 8 > BLOCK_SIZE {
                proof {
                    assert(root_entries(dk) =~= models_of(out@));
                }
                break ;
            }
            let ino = word(&self.disk, base + off);
            if ino == 0 {
                proof {
                    assert(root_entries(dk) =~= models_of(out@));
                }
                break ;
            }
            let rec_len = half(&self.disk, base + off + 4);
            let name_len = self.disk[base + off + 6] as usize;
            let file_type = self.disk[base + off + 7];
            if off + 8 + name_len > BLOCK_SIZE {
                proof {
                    assert(root_entries(dk) =~= models_of(out@));
                }
                break ;
            }
            let name = copy_range(&self.disk, base + off + 8, name_len);
            let ghost prev_models = models_of(out@);
            out.push(DirEntryInfo { inode: ino, name, file_type });
            proof {
                assert(models_of(out@) =~= prev_models.push(out@.last()@));
                assert(dir_entries(dk, base as int, off as int)[0] == out@.last()@);
            }
            if rec_len == 0 || off + (rec_len as usize) + 8 > BLOCK_SIZE {
                proof {
                    assert(dir_entries(dk, base as int, off as int) =~= seq![out@.last()@]);
                    assert(root_entries(dk) =~= models_of(out@));
                }
                break ;
            }
            proof {
                assert(dir_entries(dk, base as int, off as int) =~= seq![out@.last()@]
                    + dir_entries(dk, base as int, off + rec_len as int));
                assert(root_entries(dk) =~= models_of(out@) + dir_entries(
                    dk,
                    base as int,
                    off + rec_len as int,
                ));
            }
            off = off + (rec_len as usize);
        }
        out
    }

    /// Reads a file of the root directory by name: exactly the bytes its
    /// direct blocks hold, or nothing when no entry carries the name or its
    /// inode lies outside the image.
    pub fn read_file(&self, filename: &[u8]) -> (r: Option<Vec<u8>>)
        requires
            self.wf(),
        ensures
            match find_entry(root_entries(self.disk_bytes()), filename@) {
                None => r is None,
                Some(idx) => {
                    if inode_readable(self.disk_bytes(), idx) {
                        r matches Some(v) && v@ == file_bytes(self.disk_bytes(), idx)
                    } else {
                        r is None
                    }
                },
            },
    {
        let ghost dk = self.disk_bytes();
        let entries = self.list_root();
        let ghost ents = root_entries(dk);
        let mut target: u32 = 0;
        let mut found = false;
        let mut i: usize = 0;
        proof {
            assert(models_of(entries@).subrange(0, entries@.len() as int) =~= models_of(
                entries@,
            ));
        }
        while i < entries.len() && !found
            invariant
                i <= entries@.len(),
                models_of(entries@) == ents,
                found ==> find_entry(ents, filename@) == Some(target),
                !found ==> find_entry(ents, filename@) == find_entry(
                    models_of(entries@).subrange(i as int, entries@.len() as int),
                    filename@,
                ),
            decreases entries@.len() - i,
        {
            let ghost rest = models_of(entries@).subrange(i as int, entries@.len() as int);
            if bytes_eq(entries[i].name.as_slice(), filename) {
                target = entries[i].inode;
                found = true;
                proof {
                    assert(rest[0] == entries@[i as int]@);
                    assert(find_entry(ents, filename@) == Some(target));
                }
            } else {
                proof {
                    assert(rest[0] == entries@[i as int]@);
                    assert(rest.drop_first() =~= models_of(entries@).subrange(
                        i + 1 as int,
                        entries@.len() as int,
                    ));
                }
            }
            i = i + 1;
        }
        if !found {
            proof {
                assert(models_of(entries@).subrange(
                    entries@.len() as int,
                    entries@.len() as int,
                ) =~= Seq::<DirEntryModel>::empty());
            }
            return None;
        }
        let info = match self.get_inode(target) {
            Some(info) => info,
            None => {
                return None;
            },
        };
        let mut out: Vec<u8> = Vec::new();
        let num_blocks64 = ((info.size as u64) + (BLOCK_SIZE as u64) - 1) / (BLOCK_SIZE as u64);
        let mut k: usize = 0;
        loop
            invariant_except_break
                self.wf(),
                dk == self.disk_bytes(),
                0 <= k <= DIRECT_BLOCKS,
                inode_readable(dk, target),
                info.size == inode_size(dk, target),
                info.blocks@.len() == DIRECT_BLOCKS,
                forall|j: int| 0 <= j < DIRECT_BLOCKS ==> info.blocks@[j] == inode_block(
                    dk,
                    target,
                    j,
                ),
                num_blocks64 == ((info.size + (BLOCK_SIZE as int) - 1) / (BLOCK_SIZE as int)),
                file_bytes(dk, target) == out@ + file_bytes_from(dk, target, k as int),
            ensures
                out@ == file_bytes(dk, target),
            decreases DIRECT_BLOCKS - k,
        {
            if k >= DIRECT_BLOCKS || (k as u64) >= num_blocks64 {
                proof {
                    assert(file_bytes(dk, target) =~= out@);
                }
                break ;
            }
            let b = info.blocks[k];
            if b == 0 {
                proof {
                    assert(file_bytes(dk, target) =~= out@);
                }
                break ;
            }
            let take64: u64 = if (k as u64) == num_blocks64 - 1 {
                let rem = (info.size as u64) % (BLOCK_SIZE as u64);
                if rem == 0 {
                    BLOCK_SIZE as u64
                } else {
                    rem
                }
            } else {
                BLOCK_SIZE as u64
            };
            let start64 = (b as u64) * (BLOCK_SIZE as u64);
            if start64 + take64 > self.disk.len() as u64 {
                proof {
                    assert(file_bytes(dk, target) =~= out@);
                }
                break ;
            }
            let ghost prev = out@;
            let chunk = copy_range(&self.disk, start64 as usize, take64 as usize);
            let mut chunk = chunk;
            out.append(&mut chunk);
            proof {
                assert(out@ =~= prev + dk.subrange(start64 as int, start64 + take64));
                assert(file_bytes_from(dk, target, k as int) =~= dk.subrange(
                    start64 as int,
                    start64 + take64,
                ) + file_bytes_from(dk, target, k + 1 as int));
                assert(file_bytes(dk, target) =~= out@ + file_bytes_from(dk, target, k + 1 as int));
            }
            k = k + 1;
        }
        Some(out)
    }

    /// Prints a root-directory file to the console between a header and a
    /// footer line — the content is exactly the file's bytes, followed by a
    /// newline — and reports whether the file was found; for a missing file
    /// the console receives the miss message instead.
    pub fn cat(&self, filename: &[u8], con: &mut Console) -> (found: bool)
        requires
            self.wf(),
            old(con).wf(),
        ensures
            final(con).wf(),
            match find_entry(root_entries(self.disk_bytes()), filename@) {
                Some(idx) => {
                    &&& found == inode_readable(self.disk_bytes(), idx)
                    &&& (found ==> final(con)@ == println_spec(
                        putc_spec(
                            puts_spec(
                                println_spec(old(con)@, cat_header()),
                                file_bytes(self.disk_bytes(), idx),
                            ),
                            10,
                        ),
                        cat_footer(),
                    ))
                    &&& (!found ==> final(con)@ == println_spec(old(con)@, cat_not_found()))
                },
                None => !found && final(con)@ == println_spec(old(con)@, cat_not_found()),
            },
    {
        match self.read_file(filename) {
            Some(data) => {
                let header = header_bytes();
                con.println(header.as_slice());
                con.puts(data.as_slice());
                con.putc(10);
                let footer = footer_bytes();
                con.println(footer.as_slice());
                true
            },
            None => {
                let msg = not_found_bytes();
                con.println(msg.as_slice());
                false
            },
        }
    }
}

/// The header line printed before a file's content: "--- File Content ---".
pub open spec fn cat_header() -> Seq<u8> {
    seq![
        45u8, 45u8, 45u8, 32u8, 70u8, 105u8, 108u8, 101u8, 32u8, 67u8, 111u8, 110u8, 116u8,
        101u8, 110u8, 116u8, 32u8, 45u8, 45u8, 45u8,
    ]
}

/// The footer line printed after a file's content: twenty dashes.
pub open spec fn cat_footer() -> Seq<u8> {
    Seq::new(20, |i: int| 45u8)
}

/// The miss message: "File not found.".
pub open spec fn cat_not_found() -> Seq<u8> {
    seq![70u8, 105u8, 108u8, 101u8, 32u8, 110u8, 111u8, 116u8, 32u8, 102u8, 111u8, 117u8, 110u8, 100u8, 46u8]
}

/// The header line as bytes.
fn header_bytes() -> (r: Vec<u8>)
    ensures
        r@ == cat_header(),
{
    let mut v: Vec<u8> = Vec::new();
    v.push(45);
    v.push(45);
    v.push(45);
    v.push(32);
    v.push(70);
    v.push(105);
    v.push(108);
    v.push(101);
    v.push(32);
    v.push(67);
    v.push(111);
    v.push(110);
    v.push(116);
    v.push(101);
    v.push(110);
    v.push(116);
    v.push(32);
    v.push(45);
    v.push(45);
    v.push(45);
    proof {
        assert(v@ =~= cat_header());
    }
    v
}

/// The footer line as bytes.
fn footer_bytes() -> (r: Vec<u8>)
    ensures
        r@ == cat_footer(),
{
    let mut v: Vec<u8> = Vec::new();
    let mut i: usize = 0;
    while i < 20
        invariant
            i <= 20,
            v@.len() == i,
            forall|j: int| 0 <= j < i ==> v@[j] == 45u8,
        decreases 20 - i,
    {
        v.push(45);
        i = i + 1;
    }
    proof {
        assert(v@ =~= cat_footer());
    }
    v
}

/// The miss message as bytes.
fn not_found_bytes() -> (r: Vec<u8>)
    ensures
        r@ == cat_not_found(),
{
    let mut v: Vec<u8> = Vec::new();
    v.push(70);
    v.push(105);
    v.push(108);
    v.push(101);
    v.push(32);
    v.push(110);
    v.push(111);
    v.push(116);
    v.push(32);
    v.push(102);
    v.push(111);
    v.push(117);
    v.push(110);
    v.push(100);
    v.push(46);
    proof {
        assert(v@ =~= cat_not_found());
    }
    v
}

/// One inode's fields that the reader uses.
struct InodeInfo {
    size: u32,
    blocks: Vec<u32>,
}

/// The abstract entries of a returned listing.
pub open spec fn models_of(v: Seq<DirEntryInfo>) -> Seq<DirEntryModel> {
    v.map_values(|e: DirEntryInfo| e@)
}

/// The little-endian 32-bit word at byte offset `a` of the image.
fn word(disk: &Vec<u8>, a: usize) -> (r: u32)
    requires
        a + 4 <= disk@.len(),
    ensures
        r == word_at(disk@, a as int),
{
    let _n = disk.len();
    let b0 = disk[a] as u32;
    let b1 = disk[a + 1] as u32;
    let b2 = disk[a + 2] as u32;
    let b3 = disk[a + 3] as u32;
    b0 | (b1 << 8) | (b2 << 16) | (b3 << 24)
}

/// The little-endian 16-bit word at byte offset `a` of the image.
fn half(disk: &Vec<u8>, a: usize) -> (r: u16)
    requires
        a + 2 <= disk@.len(),
    ensures
        r == half_at(disk@, a as int),
{
    let _n = disk.len();
    let b0 = disk[a] as u16;
    let b1 = disk[a + 1] as u16;
    b0 | (b1 << 8)
}

/// A copy of `len` bytes starting at `start`.
fn copy_range(disk: &Vec<u8>, start: usize, len: usize) -> (r: Vec<u8>)
    requires
        start + len <= disk@.len(),
    ensures
        r@ == disk@.subrange(start as int, start + len),
{
    let n = disk.len();
    let mut r: Vec<u8> = Vec::new();
    let mut i: usize = 0;
    while i < len
        invariant
            i <= len,
            start + len <= disk@.len(),
            disk@.len() == n,
            r@ == disk@.subrange(start as int, start + i),
        decreases len - i,
    {
        r.push(disk[start + i]);
        proof {
            assert(r@ =~= disk@.subrange(start as int, start + i + 1));
        }
        i = i + 1;
    }
    r
}

/// Whether two byte strings are equal.
pub fn bytes_eq(a: &[u8], b: &[u8]) -> (r: bool)
    ensures
        r == (a@ == b@),
{
    if a.len() != b.len() {
        return false;
    }
    let mut i: usize = 0;
    while i < a.len()
        invariant
            i <= a@.len(),
            a@.len() == b@.len(),
            forall|j: int| 0 <= j < i ==> a@[j] == b@[j],
        decreases a@.len() - i,
    {
        if a[i] != b[i] {
            return false;
        }
        i = i + 1;
    }
    proof {
        assert(a@ =~= b@);
    }
    true
}

} // verus!
