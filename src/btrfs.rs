//! A read-only Btrfs navigator: chunk map, logical-to-physical
//! translation, B-tree point lookups, directory lookups and file reads.
use vstd::prelude::*;
use vstd::string::StringSliceAdditionalSpecFns;
use crate::block::{BlockReader, media_window, read_bytes, is_io_error};
use crate::bytes::{le32, le64, read_u32, read_u64};
use crate::text::{format_uuid, lossy_string, lossy_text, uuid_text};
use crate::error::FwError;
use crate::ondisk::{
    BtrfsKey, BtrfsItem, BtrfsKeyPtr, BtrfsChunk, BtrfsDirItem, BtrfsRootItem,
    BtrfsFileExtentItem, BtrfsSuperBlock, BtrfsStripe, key_at, key_eq, key_gt,
    item_at, key_ptr_at, chunk_at, dir_item_at, file_extent_at, has_btrfs_magic,
    BTRFS_CHUNK_ITEM_KEY, BTRFS_ROOT_ITEM_KEY, BTRFS_EXTENT_DATA_KEY, BTRFS_DIR_ITEM_KEY,
    BTRFS_DIR_INDEX_KEY, BTRFS_FILE_EXTENT_INLINE, BTRFS_FILE_EXTENT_REG, BTRFS_FS_TREE_OBJECTID,
    BTRFS_SUPER_INFO_OFFSET, BTRFS_SUPER_INFO_SIZE, BTRFS_FT_DIR, superblock_matches,
};

verus! {

/// The failures that reading the volume's trees may report.
pub open spec fn is_read_error(e: FwError) -> bool {
    is_io_error(e) || e == FwError::MappingNotFound || e == FwError::VolumeCorrupted || e == FwError::BadBufferSize
}

/// One entry of the chunk map: `length` bytes at `logical` live at
/// `physical` on the device.
#[derive(Clone, Copy, Debug)]
pub struct ChunkMap {
    pub logical: u64,
    pub length: u64,
    pub physical: u64,
}

pub open spec fn chunk_contains(c: ChunkMap, a: int) -> bool {
    c.logical <= a < c.logical + c.length
}

/// A chunk that is not empty and whose ranges do not wrap.
pub open spec fn chunk_admissible(c: ChunkMap) -> bool {
    &&& c.length > 0
    &&& c.logical + c.length <= u64::MAX
    &&& c.physical + c.length <= u64::MAX
}

pub open spec fn chunks_overlap(a: ChunkMap, b: ChunkMap) -> bool {
    a.logical < b.logical + b.length && b.logical < a.logical + a.length
}

/// The chunk map's invariant: admissible entries with disjoint logical
/// ranges.
pub open spec fn chunks_wf(cs: Seq<ChunkMap>) -> bool {
    &&& forall|i: int| 0 <= i < cs.len() ==> chunk_admissible(#[trigger] cs[i])
    &&& forall|i: int, j: int|
        0 <= i < cs.len() && 0 <= j < cs.len() && i != j ==> !chunks_overlap(
            #[trigger] cs[i],
            #[trigger] cs[j],
        )
}

/// Whether `c` can join the map without breaking its invariant.
pub open spec fn chunk_fits(cs: Seq<ChunkMap>, c: ChunkMap) -> bool {
    chunk_admissible(c) && forall|i: int| 0 <= i < cs.len() ==> !chunks_overlap(#[trigger] cs[i], c)
}

pub open spec fn add_chunk_spec(cs: Seq<ChunkMap>, c: ChunkMap) -> Seq<ChunkMap> {
    if chunk_fits(cs, c) {
        cs.push(c)
    } else {
        cs
    }
}

/// Adds each of `news` in turn; those that would overlap are left out.
pub open spec fn add_chunks_spec(cs: Seq<ChunkMap>, news: Seq<ChunkMap>) -> Seq<ChunkMap>
    decreases news.len(),
{
    if news.len() == 0 {
        cs
    } else {
        add_chunks_spec(add_chunk_spec(cs, news[0]), news.drop_first())
    }
}

/// The physical address of logical address `a`, by the first chunk that
/// holds it.
pub open spec fn translate(cs: Seq<ChunkMap>, a: int) -> Option<u64>
    decreases cs.len(),
{
    if cs.len() == 0 {
        None
    } else if chunk_contains(cs[0], a) {
        Some((cs[0].physical + (a - cs[0].logical)) as u64)
    } else {
        translate(cs.drop_first(), a)
    }
}

/// The `len` bytes that logical address `a` stands for.
pub open spec fn logical_window(m: Seq<u8>, cs: Seq<ChunkMap>, a: u64, len: nat) -> Option<Seq<u8>> {
    match translate(cs, a as int) {
        None => None,
        Some(p) => media_window(m, p as int, len as int),
    }
}

proof fn lemma_translate_witness(cs: Seq<ChunkMap>, a: int) -> (i: int)
    requires
        chunks_wf(cs),
        translate(cs, a).is_some(),
    ensures
        0 <= i < cs.len(),
        chunk_contains(cs[i], a),
        translate(cs, a) == Some((cs[i].physical + (a - cs[i].logical)) as u64),
        cs[i].physical + (a - cs[i].logical) <= u64::MAX,
    decreases cs.len(),
{
    if chunk_contains(cs[0], a) {
        assert(chunk_admissible(cs[0]));
        0
    } else {
        let rest = cs.drop_first();
        assert forall|i: int| 0 <= i < rest.len() implies chunk_admissible(#[trigger] rest[i]) by {
            assert(rest[i] == cs[i + 1]);
        }
        assert forall|i: int, j: int|
            0 <= i < rest.len() && 0 <= j < rest.len() && i != j implies !chunks_overlap(
                #[trigger] rest[i],
                #[trigger] rest[j],
            ) by {
            assert(rest[i] == cs[i + 1]);
            assert(rest[j] == cs[j + 1]);
        }
        let k = lemma_translate_witness(rest, a);
        k + 1
    }
}

/// Whenever translation yields `p`, exactly one chunk holds `a`, and `p`
/// lies as far into that chunk's physical range as `a` lies into its
/// logical range.
pub proof fn lemma_translation_unique(cs: Seq<ChunkMap>, a: u64, p: u64)
    requires
        chunks_wf(cs),
        translate(cs, a as int) == Some(p),
    ensures
        exists|i: int|
            {
                &&& 0 <= i < cs.len()
                &&& chunk_contains(#[trigger] cs[i], a as int)
                &&& p - cs[i].physical == a - cs[i].logical
                &&& forall|j: int| 0 <= j < cs.len() && chunk_contains(#[trigger] cs[j], a as int) ==> j == i
            },
{
    let i = lemma_translate_witness(cs, a as int);
    assert forall|j: int| 0 <= j < cs.len() && chunk_contains(#[trigger] cs[j], a as int) implies j == i by {
        if j != i {
            assert(!chunks_overlap(cs[i], cs[j]));
        }
    }
}

/// Adds `c` to the map unless it is empty, wraps, or overlaps an entry.
pub fn add_chunk(chunks: &mut Vec<ChunkMap>, c: ChunkMap)
    requires
        chunks_wf(old(chunks)@),
    ensures
        final(chunks)@ == add_chunk_spec(old(chunks)@, c),
        chunks_wf(final(chunks)@),
{
    if c.length == 0 || c.logical > u64::MAX - c.length || c.physical > u64::MAX - c.length {
        return;
    }
    let n = chunks.len();
    let mut i: usize = 0;
    while i < n
        invariant
            n == chunks@.len(),
            chunks@ == old(chunks)@,
            0 <= i <= n,
            chunks_wf(chunks@),
            chunk_admissible(c),
            forall|k: int| 0 <= k < i ==> !chunks_overlap(#[trigger] chunks@[k], c),
        decreases n - i,
    {
        let d = chunks[i];
        if c.logical < d.logical + d.length && d.logical < c.logical + c.length {
            assert(chunks_overlap(chunks@[i as int], c));
            return;
        }
        i = i + 1;
    }
    chunks.push(c);
    proof {
        let cs = chunks@;
        assert forall|i: int, j: int|
            0 <= i < cs.len() && 0 <= j < cs.len() && i != j implies !chunks_overlap(
                #[trigger] cs[i],
                #[trigger] cs[j],
            ) by {
            if i == n as int {
                assert(!chunks_overlap(cs[j], c));
            } else if j == n as int {
                assert(!chunks_overlap(cs[i], c));
            }
        }
    }
}

pub open spec fn node_level(n: Seq<u8>) -> u8 {
    n[100]
}

pub open spec fn node_nritems(n: Seq<u8>) -> int {
    le32(n, 96)
}

pub open spec fn item_pos(i: int) -> int {
    101 + 25 * i
}

pub open spec fn key_ptr_pos(i: int) -> int {
    101 + 33 * i
}

/// Scans a leaf from item `i` on for `key`, stopping at the first larger key.
pub open spec fn leaf_scan(n: Seq<u8>, key: BtrfsKey, i: int) -> Option<BtrfsItem>
    decreases node_nritems(n) - i,
{
    if i < 0 || i >= node_nritems(n) {
        None
    } else if key_eq(item_at(n, item_pos(i)).key, key) {
        Some(item_at(n, item_pos(i)))
    } else if key_gt(item_at(n, item_pos(i)).key, key) {
        None
    } else {
        leaf_scan(n, key, i + 1)
    }
}

/// The child to descend into from pointer `i` on: the last pointer whose
/// key is not above `key`, or the first one if all are.
pub open spec fn child_pick(n: Seq<u8>, key: BtrfsKey, i: int) -> u64
    decreases node_nritems(n) - i,
{
    if i < 0 || i >= node_nritems(n) {
        key_ptr_at(n, key_ptr_pos(node_nritems(n) - 1)).blockptr
    } else if key_gt(key_ptr_at(n, key_ptr_pos(i)).key, key) {
        if i > 0 {
            key_ptr_at(n, key_ptr_pos(i - 1)).blockptr
        } else {
            key_ptr_at(n, key_ptr_pos(0)).blockptr
        }
    } else {
        child_pick(n, key, i + 1)
    }
}

/// A point lookup from the node at `cur`, whose level must stay under
/// `bound`. `Err` stands for a missing mapping or a malformed node.
pub open spec fn search_model(
    m: Seq<u8>,
    cs: Seq<ChunkMap>,
    ns: nat,
    cur: u64,
    key: BtrfsKey,
    bound: nat,
) -> Result<Option<(Seq<u8>, BtrfsItem)>, ()>
    decreases bound,
{
    match logical_window(m, cs, cur, ns) {
        None => Err(()),
        Some(n) => {
            if n.len() < 101 || node_level(n) >= bound {
                Err(())
            } else if node_level(n) == 0 {
                if item_pos(node_nritems(n)) > n.len() {
                    Err(())
                } else {
                    match leaf_scan(n, key, 0) {
                        Some(it) => Ok(Some((n, it))),
                        None => Ok(None),
                    }
                }
            } else if node_nritems(n) == 0 || key_ptr_pos(node_nritems(n)) > n.len() {
                Err(())
            } else {
                search_model(m, cs, ns, child_pick(n, key, 0), key, node_level(n) as nat)
            }
        },
    }
}

/// The left-most leaf under the node at `cur`.
pub open spec fn leftmost_leaf(m: Seq<u8>, cs: Seq<ChunkMap>, ns: nat, cur: u64, bound: nat) -> Option<Seq<u8>>
    decreases bound,
{
    match logical_window(m, cs, cur, ns) {
        None => None,
        Some(n) => {
            if n.len() < 101 || node_level(n) >= bound {
                None
            } else if node_level(n) == 0 {
                Some(n)
            } else if n.len() < key_ptr_pos(1) {
                None
            } else {
                leftmost_leaf(m, cs, ns, key_ptr_at(n, key_ptr_pos(0)).blockptr, node_level(n) as nat)
            }
        },
    }
}

/// The target of a directory entry of `dir` named `name`, if item `it`
/// of leaf `n` is one.
pub open spec fn dir_entry_match(n: Seq<u8>, it: BtrfsItem, dir: u64, name: Seq<u8>) -> Option<(u64, u8)> {
    if it.key.objectid == dir && (it.key.type_ == BTRFS_DIR_INDEX_KEY || it.key.type_ == BTRFS_DIR_ITEM_KEY) {
        let data = 101 + it.offset;
        let start = data + 30;
        if start <= n.len() && start + dir_item_at(n, data).name_len <= n.len() && n.subrange(
            start,
            start + dir_item_at(n, data).name_len,
        ) == name {
            Some((dir_item_at(n, data).location.objectid, dir_item_at(n, data).location.type_))
        } else {
            None
        }
    } else {
        None
    }
}

/// The first matching directory entry from item `i` of leaf `n` on.
pub open spec fn dir_scan(n: Seq<u8>, dir: u64, name: Seq<u8>, i: int) -> Option<(u64, u8)>
    decreases node_nritems(n) - i,
{
    if i < 0 || i >= node_nritems(n) {
        None
    } else {
        match dir_entry_match(n, item_at(n, item_pos(i)), dir, name) {
            Some(x) => Some(x),
            None => dir_scan(n, dir, name, i + 1),
        }
    }
}

pub open spec fn find_model(m: Seq<u8>, cs: Seq<ChunkMap>, ns: nat, root: u64, dir: u64, name: Seq<u8>) -> Result<Option<(u64, u8)>, ()> {
    match leftmost_leaf(m, cs, ns, root, 256) {
        None => Err(()),
        Some(leaf) => {
            if item_pos(node_nritems(leaf)) > leaf.len() {
                Err(())
            } else {
                Ok(dir_scan(leaf, dir, name, 0))
            }
        },
    }
}

/// The contents of a file by its first extent. `VolumeCorrupted` also
/// stands for a missing mapping or an unreadable range on the way to the
/// leaf; `MappingNotFound` for extent data that cannot be addressed.
pub open spec fn file_model(m: Seq<u8>, cs: Seq<ChunkMap>, ns: nat, root: u64, inode: u64) -> Result<Seq<u8>, FwError> {
    match search_model(m, cs, ns, root, BtrfsKey { objectid: inode, type_: BTRFS_EXTENT_DATA_KEY, offset: 0 }, 256) {
        Err(_) => Err(FwError::VolumeCorrupted),
        Ok(None) => Err(FwError::NotFound),
        Ok(Some((leaf, item))) => {
            let data = 101 + item.offset;
            if data + 21 > leaf.len() {
                Err(FwError::VolumeCorrupted)
            } else if file_extent_at(leaf, data).compression != 0 {
                Err(FwError::Unsupported)
            } else if file_extent_at(leaf, data).type_ == BTRFS_FILE_EXTENT_INLINE {
                if item.size < 21 || data + item.size > leaf.len() {
                    Err(FwError::VolumeCorrupted)
                } else {
                    Ok(leaf.subrange(data + 21, data + item.size))
                }
            } else if file_extent_at(leaf, data).type_ == BTRFS_FILE_EXTENT_REG {
                if data + 53 > leaf.len() {
                    Err(FwError::VolumeCorrupted)
                } else if le64(leaf, data + 21) == 0 {
                    Ok(seq![])
                } else if le64(leaf, data + 45) > usize::MAX {
                    Err(FwError::BadBufferSize)
                } else {
                    match logical_window(m, cs, le64(leaf, data + 21) as u64, le64(leaf, data + 45) as nat) {
                        None => Err(FwError::MappingNotFound),
                        Some(v) => Ok(v),
                    }
                }
            } else {
                Err(FwError::NotFound)
            }
        },
    }
}

/// The logical address of the root node of tree `id`, from its root item.
pub open spec fn tree_root_model(m: Seq<u8>, cs: Seq<ChunkMap>, ns: nat, root_tree: u64, id: u64) -> Result<u64, FwError> {
    match search_model(m, cs, ns, root_tree, BtrfsKey { objectid: id, type_: BTRFS_ROOT_ITEM_KEY, offset: 0 }, 256) {
        Err(_) => Err(FwError::VolumeCorrupted),
        Ok(None) => Err(FwError::NotFound),
        Ok(Some((leaf, item))) => {
            if 101 + item.offset + 239 > leaf.len() {
                Err(FwError::VolumeCorrupted)
            } else {
                Ok(le64(leaf, 101 + item.offset + 176) as u64)
            }
        },
    }
}

/// The chunks listed in a superblock's bootstrap array from `off` on:
/// a key, a chunk item and its stripes each, of which the first stripe is
/// taken. A key of another type, or an entry that would run past the
/// array, ends the list.
pub open spec fn sys_chunks_from(arr: Seq<u8>, off: int, limit: int) -> Seq<ChunkMap>
    decreases (if off < limit { limit - off } else { 0 }),
{
    if off < 0 || off >= limit || off + 97 > arr.len() {
        seq![]
    } else if key_at(arr, off).type_ != BTRFS_CHUNK_ITEM_KEY {
        seq![]
    } else {
        seq![
            ChunkMap {
                logical: key_at(arr, off).offset,
                length: chunk_at(arr, off + 17).length,
                physical: le64(arr, off + 73) as u64,
            },
        ] + sys_chunks_from(arr, off + 65 + 32 * chunk_at(arr, off + 17).num_stripes, limit)
    }
}

/// The chunks of a bootstrap array whose declared size is `size`.
pub open spec fn sys_chunks_in(arr: Seq<u8>, size: int) -> Seq<ChunkMap> {
    let limit = if size > 2048 { 2048 } else { size };
    sys_chunks_from(arr, 0, limit)
}

pub open spec fn sys_chunks(sb: BtrfsSuperBlock) -> Seq<ChunkMap> {
    sys_chunks_in(sb.sys_chunk_array@, sb.sys_chunk_array_size as int)
}

/// The bootstrap chunk map that the superblock bytes `w` describe.
pub open spec fn superblock_bootstrap(w: Seq<u8>) -> Seq<ChunkMap> {
    add_chunks_spec(seq![], sys_chunks_in(w.subrange(811, 2859), le32(w, 160)))
}

/// The chunk that item `i` of a chunk-tree leaf describes, if it is a
/// chunk item that fits in the leaf.
pub open spec fn tree_chunk_at(n: Seq<u8>, i: int) -> Option<ChunkMap> {
    let it = item_at(n, item_pos(i));
    let data = 101 + it.offset;
    if it.key.type_ == BTRFS_CHUNK_ITEM_KEY && data + 80 <= n.len() {
        Some(ChunkMap { logical: it.key.offset, length: chunk_at(n, data).length, physical: le64(n, data + 56) as u64 })
    } else {
        None
    }
}

pub open spec fn tree_chunks_from(n: Seq<u8>, i: int) -> Seq<ChunkMap>
    decreases node_nritems(n) - i,
{
    if i < 0 || i >= node_nritems(n) {
        seq![]
    } else {
        match tree_chunk_at(n, i) {
            Some(c) => seq![c] + tree_chunks_from(n, i + 1),
            None => tree_chunks_from(n, i + 1),
        }
    }
}

/// The chunk map after the chunk-tree root node `n` has been read: if it
/// is a well-formed leaf, those of its chunks that fit are added.
pub open spec fn tree_leaf_update(cs: Seq<ChunkMap>, n: Seq<u8>) -> Seq<ChunkMap> {
    if n.len() >= 101 && node_level(n) == 0 && item_pos(node_nritems(n)) <= n.len() {
        add_chunks_spec(cs, tree_chunks_from(n, 0))
    } else {
        cs
    }
}

/// The bootstrap chunk map of a superblock.
pub open spec fn bootstrap_map(sb: BtrfsSuperBlock) -> Seq<ChunkMap> {
    add_chunks_spec(seq![], sys_chunks(sb))
}

proof fn lemma_add_chunks_cons(cs: Seq<ChunkMap>, c: ChunkMap, rest: Seq<ChunkMap>)
    ensures
        add_chunks_spec(cs, seq![c] + rest) == add_chunks_spec(add_chunk_spec(cs, c), rest),
{
    let l = seq![c] + rest;
    assert(l[0] == c);
    assert(l.drop_first() =~= rest);
}

/// The name and file type of item `i` of a leaf, if it is a directory
/// index entry whose name fits in the leaf.
pub open spec fn index_entry_at(n: Seq<u8>, i: int) -> Option<(Seq<u8>, u8)> {
    let it = item_at(n, item_pos(i));
    let data = 101 + it.offset;
    let start = data + 30;
    if it.key.type_ == BTRFS_DIR_INDEX_KEY && start <= n.len() && start + dir_item_at(n, data).name_len <= n.len() {
        Some((n.subrange(start, start + dir_item_at(n, data).name_len), dir_item_at(n, data).type_))
    } else {
        None
    }
}

pub open spec fn index_entries_from(n: Seq<u8>, i: int) -> Seq<(Seq<u8>, u8)>
    decreases node_nritems(n) - i,
{
    if i < 0 || i >= node_nritems(n) {
        seq![]
    } else {
        match index_entry_at(n, i) {
            Some(e) => seq![e] + index_entries_from(n, i + 1),
            None => index_entries_from(n, i + 1),
        }
    }
}

/// How a listed entry reads: its name, and a slash after a directory.
pub open spec fn entry_text(e: (Seq<u8>, u8)) -> Seq<char> {
    if e.1 == BTRFS_FT_DIR {
        lossy_text(e.0) + "/"@
    } else {
        lossy_text(e.0)
    }
}

/// The index of the first NUL byte from `i` on, or the length if none.
pub open spec fn nul_pos(s: Seq<u8>, i: int) -> int
    decreases s.len() - i,
{
    if i < 0 || i >= s.len() {
        s.len() as int
    } else if s[i] == 0 {
        i
    } else {
        nul_pos(s, i + 1)
    }
}

/// A NUL-padded name without its padding.
pub open spec fn until_nul(s: Seq<u8>) -> Seq<u8> {
    s.subrange(0, nul_pos(s, 0))
}

/// Looking the same key up twice from the same tree root, on a volume
/// that nothing has changed in between, gives byte-equal results.
pub proof fn lemma_search_slot_repeatable<R: BlockReader>(
    before: Btrfs<R>,
    after: Btrfs<R>,
    root: u64,
    key: BtrfsKey,
    first: Option<(Seq<u8>, BtrfsItem)>,
    second: Option<(Seq<u8>, BtrfsItem)>,
)
    requires
        after.same_state(before),
        before.search_spec(root, key) == Ok::<Option<(Seq<u8>, BtrfsItem)>, ()>(first),
        after.search_spec(root, key) == Ok::<Option<(Seq<u8>, BtrfsItem)>, ()>(second),
    ensures
        first == second,
{
}

/// Whether a node's bytes match a slice.
fn bytes_equal(a: &[u8], b: &[u8]) -> (r: bool)
    ensures
        r == (a@ == b@),
{
    if a.len() != b.len() {
        return false;
    }
    let mut i: usize = 0;
    while i < a.len()
        invariant
            a@.len() == b@.len(),
            0 <= i <= a@.len(),
            forall|k: int| 0 <= k < i ==> a@[k] == b@[k],
        decreases a@.len() - i,
    {
        if a[i] != b[i] {
            return false;
        }
        i = i + 1;
    }
    assert(a@ =~= b@);
    true
}

/// The item of a leaf whose key is `key`.
fn scan_leaf(node: &Vec<u8>, nritems: u32, key: &BtrfsKey) -> (r: Option<BtrfsItem>)
    requires
        (nritems as int) == node_nritems(node@),
        item_pos(nritems as int) <= node.len(),
    ensures
        r == leaf_scan(node@, *key, 0),
{
    let mut i: u32 = 0;
    while i < nritems
        invariant
            (nritems as int) == node_nritems(node@),
            item_pos(nritems as int) <= node.len(),
            0 <= i <= nritems,
            leaf_scan(node@, *key, 0) == leaf_scan(node@, *key, i as int),
        decreases nritems - i,
    {
        let item = BtrfsItem::parse(node.as_slice(), 101 + 25 * (i as usize));
        if item.key.objectid == key.objectid && item.key.type_ == key.type_ && item.key.offset == key.offset {
            return Some(item);
        }
        match item.key.cmp(key) {
            core::cmp::Ordering::Greater => {
                return None;
            },
            _ => {},
        }
        i = i + 1;
    }
    None
}

/// The child of an internal node to descend into for `key`.
fn pick_child(node: &Vec<u8>, nritems: u32, key: &BtrfsKey) -> (r: u64)
    requires
        (nritems as int) == node_nritems(node@),
        nritems > 0,
        key_ptr_pos(nritems as int) <= node.len(),
    ensures
        r == child_pick(node@, *key, 0),
{
    let mut i: u32 = 0;
    while i < nritems
        invariant
            (nritems as int) == node_nritems(node@),
            nritems > 0,
            key_ptr_pos(nritems as int) <= node.len(),
            0 <= i <= nritems,
            child_pick(node@, *key, 0) == child_pick(node@, *key, i as int),
        decreases nritems - i,
    {
        let kp = BtrfsKeyPtr::parse(node.as_slice(), 101 + 33 * (i as usize));
        match kp.key.cmp(key) {
            core::cmp::Ordering::Greater => {
                if i > 0 {
                    let prev = BtrfsKeyPtr::parse(node.as_slice(), 101 + 33 * (i as usize - 1));
                    return prev.blockptr;
                } else {
                    return kp.blockptr;
                }
            },
            _ => {},
        }
        i = i + 1;
    }
    let last = BtrfsKeyPtr::parse(node.as_slice(), 101 + 33 * (nritems as usize - 1));
    last.blockptr
}

/// The first entry of `dir` named `name` in a leaf.
fn scan_dir(node: &Vec<u8>, nritems: u32, dir: u64, name: &[u8]) -> (r: Option<(u64, u8)>)
    requires
        (nritems as int) == node_nritems(node@),
        item_pos(nritems as int) <= node.len(),
    ensures
        r == dir_scan(node@, dir, name@, 0),
{
    let mut i: u32 = 0;
    while i < nritems
        invariant
            (nritems as int) == node_nritems(node@),
            item_pos(nritems as int) <= node.len(),
            0 <= i <= nritems,
            dir_scan(node@, dir, name@, 0) == dir_scan(node@, dir, name@, i as int),
        decreases nritems - i,
    {
        let item = BtrfsItem::parse(node.as_slice(), 101 + 25 * (i as usize));
        if item.key.objectid == dir && (item.key.type_ == BTRFS_DIR_INDEX_KEY || item.key.type_ == BTRFS_DIR_ITEM_KEY) {
            let data64 = 101 + item.offset as u64;
            if data64 <= node.len() as u64 && (node.len() as u64) - data64 >= 30 {
                let data = data64 as usize;
                let d = BtrfsDirItem::parse(node.as_slice(), data);
                let start = data + 30;
                let len = d.name_len as usize;
                if node.len() - start >= len {
                    if bytes_equal(&node.as_slice()[start..start + len], name) {
                        return Some((d.location.objectid, d.location.type_));
                    }
                }
            }
        }
        i = i + 1;
    }
    None
}

/// Adds the chunk items of a chunk-tree root node, if it is a leaf whose
/// items fit, to the map.
pub fn add_tree_chunks(chunks: &mut Vec<ChunkMap>, node: &Vec<u8>)
    requires
        chunks_wf(old(chunks)@),
    ensures
        chunks_wf(final(chunks)@),
        final(chunks)@ == tree_leaf_update(old(chunks)@, node@),
{
    if node.len() < 101 || node[100] != 0 {
        return;
    }
    let nritems = read_u32(node.as_slice(), 96);
    if (nritems as u64) * 25 + 101 > node.len() as u64 {
        return;
    }
    let ghost cs0 = chunks@;
    let mut i: u32 = 0;
    while i < nritems
        invariant
            chunks_wf(chunks@),
            (nritems as int) == node_nritems(node@),
            item_pos(nritems as int) <= node.len(),
            0 <= i <= nritems,
            add_chunks_spec(cs0, tree_chunks_from(node@, 0)) == add_chunks_spec(chunks@, tree_chunks_from(node@, i as int)),
        decreases nritems - i,
    {
        let item = BtrfsItem::parse(node.as_slice(), 101 + 25 * (i as usize));
        let data64 = 101 + item.offset as u64;
        if item.key.type_ == BTRFS_CHUNK_ITEM_KEY && data64 + 80 <= node.len() as u64 {
            let data = data64 as usize;
            let chunk = BtrfsChunk::parse(node.as_slice(), data);
            let stripe = BtrfsStripe::parse(node.as_slice(), data + 48);
            let c = ChunkMap { logical: item.key.offset, length: chunk.length, physical: stripe.offset };
            proof {
                lemma_add_chunks_cons(chunks@, c, tree_chunks_from(node@, i + 1));
            }
            add_chunk(chunks, c);
        }
        i = i + 1;
    }
}

/// Decodes the superblock in the bytes read at offset 65536, if they carry
/// the Btrfs magic.
pub fn probe_superblock(buf: &[u8]) -> (r: Option<BtrfsSuperBlock>)
    requires
        buf.len() >= BTRFS_SUPER_INFO_SIZE,
    ensures
        r.is_some() <==> has_btrfs_magic(buf@),
        r matches Some(sb) ==> superblock_matches(sb, buf@),
{
    if buf[64] == 0x5F && buf[65] == 0x42 && buf[66] == 0x48 && buf[67] == 0x52 && buf[68] == 0x66
        && buf[69] == 0x53 && buf[70] == 0x5F && buf[71] == 0x4D {
        Some(BtrfsSuperBlock::parse(buf))
    } else {
        None
    }
}

pub struct Btrfs<R: BlockReader> {
    pub reader: R,
    pub sb: BtrfsSuperBlock,
    pub chunks: Vec<ChunkMap>,
}

impl<R: BlockReader> Btrfs<R> {
    /// The device's contents.
    pub open spec fn media(self) -> Seq<u8> {
        self.reader.media()
    }

    pub open spec fn wf(self) -> bool {
        chunks_wf(self.chunks@)
    }

    pub open spec fn node_size(self) -> nat {
        self.sb.nodesize as nat
    }

    /// Nothing that a read can observe has changed.
    pub open spec fn same_state(self, other: Self) -> bool {
        &&& self.media() == other.media()
        &&& self.sb == other.sb
        &&& self.chunks@ == other.chunks@
    }

    pub open spec fn search_spec(self, root: u64, key: BtrfsKey) -> Result<Option<(Seq<u8>, BtrfsItem)>, ()> {
        search_model(self.media(), self.chunks@, self.node_size(), root, key, 256)
    }

    /// Reads the superblock; on a Btrfs volume, loads the chunk map from the
    /// bootstrap array and from the chunk tree's root leaf. A volume
    /// without the Btrfs magic is `None`.
    pub fn new(reader: R) -> (r: Result<Option<Self>, FwError>)
        ensures
            match r {
                Ok(Some(fs)) => {
                    &&& fs.wf()
                    &&& fs.media() == reader.media()
                    &&& match logical_window(fs.media(), bootstrap_map(fs.sb), fs.sb.chunk_root, fs.node_size()) {
                        Some(n) => fs.chunks@ == tree_leaf_update(bootstrap_map(fs.sb), n),
                        None => false,
                    }
                    &&& media_window(reader.media(), 65536, 4096) matches Some(w)
                    &&& has_btrfs_magic(w)
                    &&& superblock_matches(fs.sb, w)
                },
                Ok(None) => media_window(reader.media(), 65536, 4096) matches Some(w) && !has_btrfs_magic(w),
                Err(e) => is_io_error(e) || {
                    &&& e == FwError::MappingNotFound || e == FwError::BadBufferSize
                    &&& media_window(reader.media(), 65536, 4096) matches Some(w)
                    &&& has_btrfs_magic(w)
                    &&& logical_window(reader.media(), superblock_bootstrap(w), le64(w, 88) as u64, le32(w, 148) as nat).is_none()
                },
            },
    {
        let ghost m0 = reader.media();
        let mut reader = reader;
        let buf = match read_bytes(&mut reader, BTRFS_SUPER_INFO_OFFSET, BTRFS_SUPER_INFO_SIZE) {
            Ok(b) => b,
            Err(e) => {
                return Err(e);
            },
        };
        assert(media_window(m0, 65536, 4096) == Some(buf@));
        let sb = match probe_superblock(buf.as_slice()) {
            Some(sb) => sb,
            None => {
                assert(!has_btrfs_magic(buf@));
                return Ok(None);
            },
        };
        let mut fs = Btrfs { reader, sb, chunks: Vec::new() };
        proof {
            assert(fs.chunks@ =~= Seq::<ChunkMap>::empty());
        }
        fs.load_sys_chunks();
        let ghost sb0 = fs.sb;
        assert(fs.chunks@ == bootstrap_map(fs.sb));
        match fs.load_chunk_tree() {
            Ok(()) => {
                assert(fs.media() == m0);
                assert(match logical_window(fs.media(), bootstrap_map(fs.sb), fs.sb.chunk_root, fs.node_size()) {
                    Some(n) => fs.chunks@ == tree_leaf_update(bootstrap_map(fs.sb), n),
                    None => false,
                });
                assert(has_btrfs_magic(buf@) && superblock_matches(fs.sb, buf@));
                Ok(Some(fs))
            },
            Err(e) => {
                proof {
                    if !is_io_error(e) {
                        assert(superblock_matches(sb0, buf@));
                        assert(logical_window(fs.media(), bootstrap_map(sb0), sb0.chunk_root, sb0.nodesize as nat).is_none());
                        assert(bootstrap_map(sb0) == superblock_bootstrap(buf@));
                    }
                }
                Err(e)
            },
        }
    }

    /// Adds the chunks of the superblock's bootstrap array to the map.
    fn load_sys_chunks(&mut self)
        requires
            old(self).wf(),
        ensures
            final(self).wf(),
            final(self).media() == old(self).media(),
            final(self).sb == old(self).sb,
            final(self).chunks@ == add_chunks_spec(old(self).chunks@, sys_chunks(old(self).sb)),
    {
        broadcast use vstd::array::group_array_axioms;
        let sb = self.sb;
        let arr = vstd::array::array_as_slice(&sb.sys_chunk_array);
        let limit: usize = if sb.sys_chunk_array_size > 2048 { 2048 } else { sb.sys_chunk_array_size as usize };
        let ghost target = add_chunks_spec(old(self).chunks@, sys_chunks(old(self).sb));
        let mut off: usize = 0;
        assert(target == add_chunks_spec(self.chunks@, sys_chunks_from(arr@, 0, limit as int)));
        while off < limit
            invariant
                self.wf(),
                self.media() == old(self).media(),
                self.sb == old(self).sb,
                sb == self.sb,
                arr@ == sb.sys_chunk_array@,
                arr@.len() == 2048,
                limit <= 2048,
                limit == (if sb.sys_chunk_array_size > 2048 { 2048 } else { sb.sys_chunk_array_size as int }),
                target == add_chunks_spec(self.chunks@, sys_chunks_from(arr@, off as int, limit as int)),
            ensures
                sys_chunks_from(arr@, off as int, limit as int) == Seq::<ChunkMap>::empty(),
            decreases (if off < limit { limit - off } else { 0 }),
        {
            if off + 97 > arr.len() {
                assert(sys_chunks_from(arr@, off as int, limit as int) =~= Seq::<ChunkMap>::empty());
                break;
            }
            let key = BtrfsKey::parse(arr, off);
            if key.type_ != BTRFS_CHUNK_ITEM_KEY {
                assert(sys_chunks_from(arr@, off as int, limit as int) =~= Seq::<ChunkMap>::empty());
                break;
            }
            let chunk = BtrfsChunk::parse(arr, off + 17);
            let stripe = BtrfsStripe::parse(arr, off + 65);
            let c = ChunkMap { logical: key.offset, length: chunk.length, physical: stripe.offset };
            let next = off + 65 + 32 * (chunk.num_stripes as usize);
            proof {
                lemma_add_chunks_cons(
                    self.chunks@,
                    c,
                    sys_chunks_from(arr@, next as int, limit as int),
                );
            }
            add_chunk(&mut self.chunks, c);
            off = next;
        }
    }

    /// Reads the chunk tree's root and adds its chunk items to the map;
    /// only a root that is itself a leaf is read. A root that the map does
    /// not address, like a failed device read, is an error.
    fn load_chunk_tree(&mut self) -> (r: Result<(), FwError>)
        requires
            old(self).wf(),
        ensures
            final(self).wf(),
            final(self).media() == old(self).media(),
            final(self).sb == old(self).sb,
            match r {
                Ok(()) => match logical_window(old(self).media(), old(self).chunks@, old(self).sb.chunk_root, old(self).node_size()) {
                    Some(n) => final(self).chunks@ == tree_leaf_update(old(self).chunks@, n),
                    None => false,
                },
                Err(e) => {
                    &&& final(self).chunks@ == old(self).chunks@
                    &&& is_io_error(e) || ((e == FwError::MappingNotFound || e == FwError::BadBufferSize)
                        && logical_window(old(self).media(), old(self).chunks@, old(self).sb.chunk_root, old(self).node_size()).is_none())
                },
            },
    {
        let root = self.sb.chunk_root;
        let ns = self.sb.nodesize as usize;
        match self.read_logical_vec(root, ns) {
            Ok(node) => {
                add_tree_chunks(&mut self.chunks, &node);
                Ok(())
            },
            Err(e) => Err(e),
        }
    }

    /// The volume label without its NUL padding.
    pub fn label_bytes(&self) -> (r: Vec<u8>)
        ensures
            r@ == until_nul(self.sb.label@),
    {
        broadcast use vstd::array::group_array_axioms;
        let label = vstd::array::array_as_slice(&self.sb.label);
        let mut end: usize = 0;
        while end < label.len()
            invariant
                label@ == self.sb.label@,
                0 <= end <= label@.len(),
                nul_pos(label@, 0) == nul_pos(label@, end as int),
            ensures
                nul_pos(label@, 0) == end,
            decreases label@.len() - end,
        {
            if label[end] == 0 {
                break;
            }
            end = end + 1;
        }
        vstd::slice::slice_to_vec(&label[0..end])
    }

    /// The volume label as text.
    pub fn get_label(&self) -> (r: String)
        ensures
            r@ == lossy_text(until_nul(self.sb.label@)),
    {
        let label = self.label_bytes();
        lossy_string(label.as_slice())
    }

    /// The file system UUID in its canonical text form.
    pub fn get_uuid(&self) -> (r: String)
        ensures
            r@ == uuid_text(self.sb.fsid@),
    {
        format_uuid(&self.sb.fsid)
    }

    pub fn logical_to_physical(&self, logical: u64) -> (r: Option<u64>)
        requires
            self.wf(),
        ensures
            r == translate(self.chunks@, logical as int),
    {
        let n = self.chunks.len();
        let mut i: usize = 0;
        assert(self.chunks@.subrange(0, n as int) =~= self.chunks@);
        while i < n
            invariant
                n == self.chunks@.len(),
                0 <= i <= n,
                chunks_wf(self.chunks@),
                translate(self.chunks@, logical as int) == translate(
                    self.chunks@.subrange(i as int, n as int),
                    logical as int,
                ),
            decreases n - i,
        {
            let c = self.chunks[i];
            let ghost rest = self.chunks@.subrange(i as int, n as int);
            assert(rest[0] == c);
            assert(chunk_admissible(self.chunks@[i as int]));
            if logical >= c.logical && logical - c.logical < c.length {
                return Some(c.physical + (logical - c.logical));
            }
            assert(rest.drop_first() =~= self.chunks@.subrange(i + 1, n as int));
            i = i + 1;
        }
        None
    }

    fn read_logical_vec(&mut self, logical: u64, length: usize) -> (r: Result<Vec<u8>, FwError>)
        requires
            old(self).wf(),
        ensures
            final(self).same_state(*old(self)),
            r matches Err(e) ==> is_io_error(e)
                || (e == FwError::MappingNotFound && translate(old(self).chunks@, logical as int).is_none())
                || (e == FwError::BadBufferSize && logical_window(old(self).media(), old(self).chunks@, logical, length as nat).is_none()),
            r matches Ok(v) ==> logical_window(old(self).media(), old(self).chunks@, logical, length as nat) == Some(v@),
            translate(old(self).chunks@, logical as int).is_none() ==> r == Err::<Vec<u8>, FwError>(FwError::MappingNotFound),
    {
        match self.logical_to_physical(logical) {
            None => Err(FwError::MappingNotFound),
            Some(physical) => read_bytes(&mut self.reader, physical, length),
        }
    }

    /// Reads `length` bytes at a logical address into `buffer`.
    pub fn read_logical(&mut self, logical: u64, length: usize, buffer: &mut [u8]) -> (r: Result<(), FwError>)
        requires
            old(self).wf(),
            old(buffer)@.len() == length,
        ensures
            final(self).same_state(*old(self)),
            final(buffer)@.len() == length,
            r is Err ==> final(buffer)@ == old(buffer)@,
            r matches Err(e) ==> is_io_error(e)
                || (e == FwError::MappingNotFound && translate(old(self).chunks@, logical as int).is_none())
                || (e == FwError::BadBufferSize && logical_window(old(self).media(), old(self).chunks@, logical, length as nat).is_none()),
            r is Ok ==> logical_window(old(self).media(), old(self).chunks@, logical, length as nat) == Some(final(buffer)@),
            translate(old(self).chunks@, logical as int).is_none() ==> r == Err::<(), FwError>(FwError::MappingNotFound),
    {
        let data = match self.read_logical_vec(logical, length) {
            Ok(d) => d,
            Err(e) => {
                return Err(e);
            },
        };
        let mut i: usize = 0;
        while i < length
            invariant
                data@.len() == length,
                buffer@.len() == length,
                0 <= i <= length,
                forall|k: int| 0 <= k < i ==> buffer@[k] == data@[k],
            decreases length - i,
        {
            buffer[i] = data[i];
            i = i + 1;
        }
        assert(buffer@ =~= data@);
        Ok(())
    }

    /// Reads the node at `logical` and checks that its header fits and its
    /// level is under `bound`.
    fn read_node(&mut self, logical: u64, bound: u16) -> (r: Result<Vec<u8>, FwError>)
        requires
            old(self).wf(),
        ensures
            final(self).same_state(*old(self)),
            r matches Err(e) ==> is_read_error(e),
            r matches Err(e) && !is_io_error(e) ==> match logical_window(old(self).media(), old(self).chunks@, logical, old(self).node_size()) {
                None => true,
                Some(n) => n.len() < 101 || node_level(n) >= bound,
            },
            r matches Ok(n) ==> {
                &&& logical_window(old(self).media(), old(self).chunks@, logical, old(self).node_size()) == Some(n@)
                &&& n@.len() >= 101
                &&& node_level(n@) < bound
            },
            match logical_window(old(self).media(), old(self).chunks@, logical, old(self).node_size()) {
                None => r is Err,
                Some(n) => (n.len() < 101 || node_level(n) >= bound) ==> r is Err,
            },
    {
        let ns = self.sb.nodesize as usize;
        let node = match self.read_logical_vec(logical, ns) {
            Ok(n) => n,
            Err(e) => {
                return Err(e);
            },
        };
        if node.len() < 101 || node[100] as u16 >= bound {
            return Err(FwError::VolumeCorrupted);
        }
        Ok(node)
    }

    pub open spec fn find_spec(self, root: u64, dir: u64, name: Seq<u8>) -> Result<Option<(u64, u8)>, ()> {
        find_model(self.media(), self.chunks@, self.node_size(), root, dir, name)
    }

    pub open spec fn file_spec(self, root: u64, inode: u64) -> Result<Seq<u8>, FwError> {
        file_model(self.media(), self.chunks@, self.node_size(), root, inode)
    }

    pub open spec fn tree_root_spec(self, id: u64) -> Result<u64, FwError> {
        tree_root_model(self.media(), self.chunks@, self.node_size(), self.sb.root, id)
    }

    /// The logical address of the root node of tree `tree_id`.
    pub fn get_tree_root(&mut self, tree_id: u64) -> (r: Result<u64, FwError>)
        requires
            old(self).wf(),
        ensures
            final(self).same_state(*old(self)),
            r matches Ok(a) ==> old(self).tree_root_spec(tree_id) == Ok::<u64, FwError>(a),
            r == Err::<u64, FwError>(FwError::NotFound) ==> old(self).tree_root_spec(tree_id) == Err::<u64, FwError>(FwError::NotFound),
            r matches Err(e) ==> is_read_error(e) || e == FwError::NotFound,
            r matches Err(e) && !is_io_error(e) ==> old(self).tree_root_spec(tree_id) is Err,
            old(self).tree_root_spec(tree_id) == Err::<u64, FwError>(FwError::NotFound) ==> (r == Err::<u64, FwError>(FwError::NotFound) || (r matches Err(e) && is_io_error(e))),
    {
        let key = BtrfsKey::new(tree_id, BTRFS_ROOT_ITEM_KEY, 0);
        let root = self.sb.root;
        match self.search_slot(root, &key) {
            Err(e) => Err(e),
            Ok(None) => Err(FwError::NotFound),
            Ok(Some((leaf, item))) => {
                let data64 = 101 + item.offset as u64;
                if data64 > leaf.len() as u64 || (leaf.len() as u64) - data64 < 239 {
                    return Err(FwError::VolumeCorrupted);
                }
                let data = data64 as usize;
                let root_item = BtrfsRootItem::parse(leaf.as_slice(), data);
                Ok(root_item.bytenr)
            },
        }
    }

    /// The logical address of the root node of the top-level file tree.
    pub fn get_fs_root(&mut self) -> (r: Result<u64, FwError>)
        requires
            old(self).wf(),
        ensures
            final(self).same_state(*old(self)),
            r matches Ok(a) ==> old(self).tree_root_spec(BTRFS_FS_TREE_OBJECTID) == Ok::<u64, FwError>(a),
            r == Err::<u64, FwError>(FwError::NotFound) ==> old(self).tree_root_spec(BTRFS_FS_TREE_OBJECTID) == Err::<u64, FwError>(FwError::NotFound),
            r matches Err(e) ==> is_read_error(e) || e == FwError::NotFound,
            r matches Err(e) && !is_io_error(e) ==> old(self).tree_root_spec(BTRFS_FS_TREE_OBJECTID) is Err,
            old(self).tree_root_spec(BTRFS_FS_TREE_OBJECTID) == Err::<u64, FwError>(FwError::NotFound) ==> (r == Err::<u64, FwError>(FwError::NotFound) || (r matches Err(e) && is_io_error(e))),
    {
        self.get_tree_root(BTRFS_FS_TREE_OBJECTID)
    }

    /// Reads the file `inode` of the tree at `fs_root_logical` by its first
    /// extent.
    pub fn read_file(&mut self, fs_root_logical: u64, inode: u64) -> (r: Result<Vec<u8>, FwError>)
        requires
            old(self).wf(),
        ensures
            final(self).same_state(*old(self)),
            r matches Ok(v) ==> old(self).file_spec(fs_root_logical, inode) == Ok::<Seq<u8>, FwError>(v@),
            r matches Err(e) ==> (e == FwError::NotFound || e == FwError::Unsupported) ==> old(self).file_spec(fs_root_logical, inode) == Err::<Seq<u8>, FwError>(e),
            r matches Err(e) && !is_io_error(e) ==> old(self).file_spec(fs_root_logical, inode) is Err,
            old(self).file_spec(fs_root_logical, inode) == Err::<Seq<u8>, FwError>(FwError::NotFound)
                ==> (r == Err::<Vec<u8>, FwError>(FwError::NotFound) || (r matches Err(f) && is_io_error(f))),
            old(self).file_spec(fs_root_logical, inode) == Err::<Seq<u8>, FwError>(FwError::Unsupported)
                ==> (r == Err::<Vec<u8>, FwError>(FwError::Unsupported) || (r matches Err(f) && is_io_error(f))),
    {
        let key = BtrfsKey::new(inode, BTRFS_EXTENT_DATA_KEY, 0);
        let (leaf, item) = match self.search_slot(fs_root_logical, &key) {
            Err(e) => {
                return Err(e);
            },
            Ok(None) => {
                return Err(FwError::NotFound);
            },
            Ok(Some(found)) => found,
        };
        let data64 = 101 + item.offset as u64;
        if data64 > leaf.len() as u64 || (leaf.len() as u64) - data64 < 21 {
            return Err(FwError::VolumeCorrupted);
        }
        let data = data64 as usize;
        let extent = BtrfsFileExtentItem::parse(leaf.as_slice(), data);
        if extent.compression != 0 {
            return Err(FwError::Unsupported);
        }
        if extent.type_ == BTRFS_FILE_EXTENT_INLINE {
            let size = item.size as usize;
            if size < 21 || leaf.len() - data < size {
                return Err(FwError::VolumeCorrupted);
            }
            let out = vstd::slice::slice_to_vec(&leaf.as_slice()[data + 21..data + size]);
            Ok(out)
        } else if extent.type_ == BTRFS_FILE_EXTENT_REG {
            if leaf.len() - data < 53 {
                return Err(FwError::VolumeCorrupted);
            }
            let disk_bytenr = read_u64(leaf.as_slice(), data + 21);
            let num_bytes = read_u64(leaf.as_slice(), data + 45);
            if disk_bytenr == 0 {
                return Ok(Vec::new());
            }
            if num_bytes > usize::MAX as u64 {
                return Err(FwError::BadBufferSize);
            }
            self.read_logical_vec(disk_bytenr, num_bytes as usize)
        } else {
            Err(FwError::NotFound)
        }
    }

    /// Lists the directory index entries in the left-most leaf of the
    /// top-level file tree, directories marked with a trailing slash; a
    /// leaf without any gives a single placeholder line.
    pub fn list_root_files(&mut self) -> (r: Result<Vec<String>, FwError>)
        requires
            old(self).wf(),
        ensures
            final(self).same_state(*old(self)),
            r matches Err(e) ==> is_read_error(e) || e == FwError::NotFound,
            r matches Err(e) && !is_io_error(e) ==> !{
                &&& old(self).tree_root_spec(BTRFS_FS_TREE_OBJECTID) matches Ok(top)
                &&& leftmost_leaf(old(self).media(), old(self).chunks@, old(self).node_size(), top, 256) matches Some(leaf)
                &&& item_pos(node_nritems(leaf)) <= leaf.len()
            },
            r matches Ok(v) ==> {
                &&& old(self).tree_root_spec(BTRFS_FS_TREE_OBJECTID) matches Ok(top)
                &&& leftmost_leaf(old(self).media(), old(self).chunks@, old(self).node_size(), top, 256) matches Some(leaf)
                &&& if index_entries_from(leaf, 0).len() == 0 {
                    v@.len() == 1 && v@[0]@ == "<Empty or Nav Failed>"@
                } else {
                    &&& v@.len() == index_entries_from(leaf, 0).len()
                    &&& forall|i: int| 0 <= i < v@.len() ==> (#[trigger] v@[i])@ == entry_text(index_entries_from(leaf, 0)[i])
                }
            },
    {
        let top = match self.get_fs_root() {
            Ok(a) => a,
            Err(e) => {
                return Err(e);
            },
        };
        let leaf = match self.leftmost_leaf_of(top) {
            Ok(l) => l,
            Err(e) => {
                return Err(e);
            },
        };
        let nritems = read_u32(leaf.as_slice(), 96);
        if (nritems as u64) * 25 + 101 > leaf.len() as u64 {
            return Err(FwError::VolumeCorrupted);
        }
        let mut files: Vec<String> = Vec::new();
        let mut i: u32 = 0;
        while i < nritems
            invariant
                (nritems as int) == node_nritems(leaf@),
                item_pos(nritems as int) <= leaf.len(),
                0 <= i <= nritems,
                index_entries_from(leaf@, 0) == index_entries_from(leaf@, 0).subrange(0, files@.len() as int)
                    + index_entries_from(leaf@, i as int),
                files@.len() <= index_entries_from(leaf@, 0).len(),
                forall|k: int| 0 <= k < files@.len() ==> (#[trigger] files@[k])@ == entry_text(index_entries_from(leaf@, 0)[k]),
            decreases nritems - i,
        {
            let ghost all = index_entries_from(leaf@, 0);
            let ghost done = files@.len() as int;
            let item = BtrfsItem::parse(leaf.as_slice(), 101 + 25 * (i as usize));
            let data64 = 101 + item.offset as u64;
            if item.key.type_ == BTRFS_DIR_INDEX_KEY && data64 <= leaf.len() as u64 && (leaf.len() as u64) - data64 >= 30 {
                let data = data64 as usize;
                let d = BtrfsDirItem::parse(leaf.as_slice(), data);
                let start = data + 30;
                let len = d.name_len as usize;
                if leaf.len() - start >= len {
                    let mut name = lossy_string(&leaf.as_slice()[start..start + len]);
                    if d.type_ == BTRFS_FT_DIR {
                        name.append("/");
                    }
                    proof {
                        let e = index_entry_at(leaf@, i as int).unwrap();
                        assert(index_entries_from(leaf@, i as int) == seq![e] + index_entries_from(leaf@, i + 1));
                        assert(all[done] == e);
                        assert(all.subrange(0, done + 1) =~= all.subrange(0, done).push(e));
                        assert(all =~= all.subrange(0, done + 1) + index_entries_from(leaf@, i + 1));
                    }
                    files.push(name);
                }
            }
            i = i + 1;
        }
        proof {
            assert(index_entries_from(leaf@, nritems as int) == Seq::<(Seq<u8>, u8)>::empty());
            assert(index_entries_from(leaf@, 0).subrange(0, files@.len() as int) + Seq::<(Seq<u8>, u8)>::empty()
                =~= index_entries_from(leaf@, 0).subrange(0, files@.len() as int));
        }
        if files.len() == 0 {
            files.push(String::from_str("<Empty or Nav Failed>"));
        }
        Ok(files)
    }

    /// Descends from the node at `root` to its left-most leaf.
    fn leftmost_leaf_of(&mut self, root: u64) -> (r: Result<Vec<u8>, FwError>)
        requires
            old(self).wf(),
        ensures
            final(self).same_state(*old(self)),
            r matches Err(e) ==> is_read_error(e),
            r matches Ok(leaf) ==> leaf@.len() >= 101,
            r matches Err(e) && !is_io_error(e) ==> leftmost_leaf(old(self).media(), old(self).chunks@, old(self).node_size(), root, 256).is_none(),
            r matches Ok(leaf) ==> leftmost_leaf(old(self).media(), old(self).chunks@, old(self).node_size(), root, 256) == Some(leaf@),
            leftmost_leaf(old(self).media(), old(self).chunks@, old(self).node_size(), root, 256).is_none() ==> r is Err,
    {
        let ghost m = self.media();
        let ghost cs = self.chunks@;
        let ghost ns = self.node_size();
        let mut cur = root;
        let mut bound: u16 = 256;
        loop
            invariant
                self.same_state(*old(self)),
                self.wf(),
                m == self.media(),
                cs == self.chunks@,
                ns == self.node_size(),
                bound <= 256,
                leftmost_leaf(m, cs, ns, root, 256) == leftmost_leaf(m, cs, ns, cur, bound as nat),
            decreases bound,
        {
            let node = match self.read_node(cur, bound) {
                Ok(n) => n,
                Err(e) => {
                    return Err(e);
                },
            };
            let level = node[100];
            if level == 0 {
                return Ok(node);
            }
            if node.len() < 134 {
                return Err(FwError::VolumeCorrupted);
            }
            let kp = BtrfsKeyPtr::parse(node.as_slice(), 101);
            cur = kp.blockptr;
            bound = level as u16;
        }
    }

    /// Looks `name_to_find` up among the entries of directory
    /// `dir_objectid` in the left-most leaf of the tree at
    /// `fs_root_logical`; gives the entry's target object id and key type.
    pub fn find_file_in_dir(&mut self, fs_root_logical: u64, dir_objectid: u64, name_to_find: &str) -> (r: Result<Option<(u64, u8)>, FwError>)
        requires
            old(self).wf(),
        ensures
            final(self).same_state(*old(self)),
            r matches Ok(x) ==> old(self).find_spec(fs_root_logical, dir_objectid, name_to_find.spec_bytes()) == Ok::<Option<(u64, u8)>, ()>(x),
            r matches Err(e) ==> is_read_error(e),
            r matches Err(e) && !is_io_error(e) ==> old(self).find_spec(fs_root_logical, dir_objectid, name_to_find.spec_bytes()) is Err,
    {
        let leaf = match self.leftmost_leaf_of(fs_root_logical) {
            Ok(l) => l,
            Err(e) => {
                return Err(e);
            },
        };
        let nritems = read_u32(leaf.as_slice(), 96);
        if (nritems as u64) * 25 + 101 > leaf.len() as u64 {
            return Err(FwError::VolumeCorrupted);
        }
        Ok(scan_dir(&leaf, nritems, dir_objectid, name_to_find.as_bytes()))
    }

    /// Looks `key` up in the tree whose root node is at `root_logical`,
    /// returning the leaf that holds it and its item.
    pub fn search_slot(&mut self, root_logical: u64, key: &BtrfsKey) -> (r: Result<Option<(Vec<u8>, BtrfsItem)>, FwError>)
        requires
            old(self).wf(),
        ensures
            final(self).same_state(*old(self)),
            r matches Err(e) ==> is_read_error(e),
            r matches Err(e) && !is_io_error(e) ==> old(self).search_spec(root_logical, *key) is Err,
            match r {
                Ok(Some((leaf, item))) => old(self).search_spec(root_logical, *key) == Ok::<Option<(Seq<u8>, BtrfsItem)>, ()>(Some((leaf@, item))),
                Ok(None) => old(self).search_spec(root_logical, *key) == Ok::<Option<(Seq<u8>, BtrfsItem)>, ()>(None),
                Err(_) => true,
            },
    {
        let ghost m = self.media();
        let ghost cs = self.chunks@;
        let ghost ns = self.node_size();
        let mut cur = root_logical;
        let mut bound: u16 = 256;
        loop
            invariant
                self.same_state(*old(self)),
                self.wf(),
                m == self.media(),
                cs == self.chunks@,
                ns == self.node_size(),
                bound <= 256,
                search_model(m, cs, ns, root_logical, *key, 256) == search_model(m, cs, ns, cur, *key, bound as nat),
            decreases bound,
        {
            let node = match self.read_node(cur, bound) {
                Ok(n) => n,
                Err(e) => {
                    return Err(e);
                },
            };
            let level = node[100];
            let nritems = read_u32(&node, 96);
            if level == 0 {
                if (nritems as u64) * 25 + 101 > node.len() as u64 {
                    return Err(FwError::VolumeCorrupted);
                }
                return match scan_leaf(&node, nritems, key) {
                    Some(item) => Ok(Some((node, item))),
                    None => Ok(None),
                };
            }
            if nritems == 0 || (nritems as u64) * 33 + 101 > node.len() as u64 {
                return Err(FwError::VolumeCorrupted);
            }
            let next = pick_child(&node, nritems, key);
            assert(search_model(m, cs, ns, cur, *key, bound as nat) == search_model(m, cs, ns, next, *key, level as nat));
            cur = next;
            bound = level as u16;
        }
    }
}

} // verus!
