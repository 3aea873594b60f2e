//! Btrfs on-disk structures, decoded field by field from little-endian
//! bytes.
use vstd::prelude::*;
use crate::bytes::{le16, le32, le64, read_u16, read_u32, read_u64, read_array};

verus! {

pub type BtrfsChecksum = [u8; 32];

pub type BtrfsUuid = [u8; 16];

pub const BTRFS_MAX_NUM_DEVICES: usize = 256;

pub const BTRFS_SUPER_INFO_OFFSET: u64 = 65536;

pub const BTRFS_SUPER_INFO_SIZE: usize = 4096;

pub const BTRFS_ROOT_TREE_OBJECTID: u64 = 1;

pub const BTRFS_EXTENT_TREE_OBJECTID: u64 = 2;

pub const BTRFS_CHUNK_TREE_OBJECTID: u64 = 3;

pub const BTRFS_DEV_TREE_OBJECTID: u64 = 4;

pub const BTRFS_FS_TREE_OBJECTID: u64 = 5;

pub const BTRFS_ROOT_TREE_DIR_OBJECTID: u64 = 6;

pub const BTRFS_FIRST_CHUNK_TREE_OBJECTID: u64 = 256;

pub const BTRFS_FIRST_FREE_OBJECTID: u64 = 256;

pub const BTRFS_INODE_ITEM_KEY: u8 = 1;

pub const BTRFS_INODE_REF_KEY: u8 = 12;

pub const BTRFS_INODE_EXTREF_KEY: u8 = 13;

pub const BTRFS_XATTR_ITEM_KEY: u8 = 24;

pub const BTRFS_ORPHAN_ITEM_KEY: u8 = 48;

pub const BTRFS_DIR_LOG_ITEM_KEY: u8 = 60;

pub const BTRFS_DIR_LOG_INDEX_KEY: u8 = 72;

pub const BTRFS_DIR_ITEM_KEY: u8 = 84;

pub const BTRFS_DIR_INDEX_KEY: u8 = 96;

pub const BTRFS_EXTENT_DATA_KEY: u8 = 108;

pub const BTRFS_EXTENT_CSUM_KEY: u8 = 128;

pub const BTRFS_ROOT_ITEM_KEY: u8 = 132;

pub const BTRFS_ROOT_BACKREF_KEY: u8 = 144;

pub const BTRFS_ROOT_REF_KEY: u8 = 156;

pub const BTRFS_EXTENT_ITEM_KEY: u8 = 168;

pub const BTRFS_METADATA_ITEM_KEY: u8 = 169;

pub const BTRFS_TREE_BLOCK_REF_KEY: u8 = 176;

pub const BTRFS_EXTENT_DATA_REF_KEY: u8 = 178;

pub const BTRFS_SHARED_BLOCK_REF_KEY: u8 = 180;

pub const BTRFS_SHARED_DATA_REF_KEY: u8 = 182;

pub const BTRFS_BLOCK_GROUP_ITEM_KEY: u8 = 192;

pub const BTRFS_DEV_EXTENT_KEY: u8 = 204;

pub const BTRFS_DEV_ITEM_KEY: u8 = 216;

pub const BTRFS_CHUNK_ITEM_KEY: u8 = 228;

pub const BTRFS_BLOCK_GROUP_DATA: u64 = 1;

pub const BTRFS_BLOCK_GROUP_SYSTEM: u64 = 2;

pub const BTRFS_BLOCK_GROUP_METADATA: u64 = 4;

pub const BTRFS_BLOCK_GROUP_RAID0: u64 = 8;

pub const BTRFS_BLOCK_GROUP_RAID1: u64 = 16;

pub const BTRFS_BLOCK_GROUP_DUP: u64 = 32;

pub const BTRFS_BLOCK_GROUP_RAID10: u64 = 64;

pub const BTRFS_BLOCK_GROUP_RAID5: u64 = 128;

pub const BTRFS_BLOCK_GROUP_RAID6: u64 = 256;

pub const BTRFS_FT_UNKNOWN: u8 = 0;

pub const BTRFS_FT_REG_FILE: u8 = 1;

pub const BTRFS_FT_DIR: u8 = 2;

pub const BTRFS_FT_CHRDEV: u8 = 3;

pub const BTRFS_FT_BLKDEV: u8 = 4;

pub const BTRFS_FT_FIFO: u8 = 5;

pub const BTRFS_FT_SOCK: u8 = 6;

pub const BTRFS_FT_SYMLINK: u8 = 7;

pub const BTRFS_FT_XATTR: u8 = 8;

pub const BTRFS_FILE_EXTENT_INLINE: u8 = 0;

pub const BTRFS_FILE_EXTENT_REG: u8 = 1;

pub const BTRFS_FILE_EXTENT_PREALLOC: u8 = 2;

/// Encoded sizes of the structures below.
pub const KEY_SIZE: usize = 17;

pub const HEADER_SIZE: usize = 101;

pub const KEY_PTR_SIZE: usize = 33;

pub const ITEM_SIZE: usize = 25;

pub const DEV_ITEM_SIZE: usize = 98;

pub const STRIPE_SIZE: usize = 32;

pub const CHUNK_SIZE: usize = 48;

pub const DIR_ITEM_SIZE: usize = 30;

pub const ROOT_ITEM_SIZE: usize = 239;

pub const FILE_EXTENT_SIZE: usize = 21;

pub const SUPER_BLOCK_SIZE: usize = 3556;

#[derive(Debug, Clone, Copy)]
pub struct BtrfsKey {
    pub objectid: u64,
    pub type_: u8,
    pub offset: u64,
}

pub open spec fn key_at(s: Seq<u8>, off: int) -> BtrfsKey {
    BtrfsKey { objectid: le64(s, off) as u64, type_: s[off + 8], offset: le64(s, off + 9) as u64 }
}

/// Keys are ordered by object id, then type, then offset.
pub open spec fn key_cmp(a: BtrfsKey, b: BtrfsKey) -> core::cmp::Ordering {
    if a.objectid < b.objectid {
        core::cmp::Ordering::Less
    } else if a.objectid > b.objectid {
        core::cmp::Ordering::Greater
    } else if a.type_ < b.type_ {
        core::cmp::Ordering::Less
    } else if a.type_ > b.type_ {
        core::cmp::Ordering::Greater
    } else if a.offset < b.offset {
        core::cmp::Ordering::Less
    } else if a.offset > b.offset {
        core::cmp::Ordering::Greater
    } else {
        core::cmp::Ordering::Equal
    }
}

pub open spec fn key_eq(a: BtrfsKey, b: BtrfsKey) -> bool {
    a.objectid == b.objectid && a.type_ == b.type_ && a.offset == b.offset
}

pub open spec fn key_gt(a: BtrfsKey, b: BtrfsKey) -> bool {
    key_cmp(a, b) == core::cmp::Ordering::Greater
}

impl BtrfsKey {
    pub fn new(objectid: u64, type_: u8, offset: u64) -> (r: Self)
        ensures
            r == (BtrfsKey { objectid, type_, offset }),
    {
        BtrfsKey { objectid, type_, offset }
    }

    pub fn cmp(&self, other: &Self) -> (r: core::cmp::Ordering)
        ensures
            r == key_cmp(*self, *other),
    {
        if self.objectid != other.objectid {
            if self.objectid < other.objectid {
                return core::cmp::Ordering::Less;
            } else {
                return core::cmp::Ordering::Greater;
            }
        }
        if self.type_ != other.type_ {
            if self.type_ < other.type_ {
                return core::cmp::Ordering::Less;
            } else {
                return core::cmp::Ordering::Greater;
            }
        }
        if self.offset < other.offset {
            core::cmp::Ordering::Less
        } else if self.offset > other.offset {
            core::cmp::Ordering::Greater
        } else {
            core::cmp::Ordering::Equal
        }
    }

    pub fn parse(b: &[u8], off: usize) -> (r: Self)
        requires
            off + KEY_SIZE <= b.len(),
        ensures
            r == key_at(b@, off as int),
    {
        BtrfsKey { objectid: read_u64(b, off), type_: b[off + 8], offset: read_u64(b, off + 9) }
    }
}

#[derive(Debug, Clone, Copy)]
pub struct BtrfsHeader {
    pub csum: BtrfsChecksum,
    pub fsid: BtrfsUuid,
    pub bytenr: u64,
    pub flags: u64,
    pub chunk_tree_uuid: BtrfsUuid,
    pub generation: u64,
    pub owner: u64,
    pub nritems: u32,
    pub level: u8,
}

impl BtrfsHeader {
    pub fn parse(b: &[u8], off: usize) -> (r: Self)
        requires
            off + HEADER_SIZE <= b.len(),
        ensures
            r.csum@ == b@.subrange(off as int, off + 32),
            r.fsid@ == b@.subrange(off + 32, off + 48),
            r.bytenr == le64(b@, off + 48),
            r.flags == le64(b@, off + 56),
            r.chunk_tree_uuid@ == b@.subrange(off + 64, off + 80),
            r.generation == le64(b@, off + 80),
            r.owner == le64(b@, off + 88),
            r.nritems == le32(b@, off + 96),
            r.level == b@[off + 100],
    {
        BtrfsHeader {
            csum: read_array::<32>(b, off),
            fsid: read_array::<16>(b, off + 32),
            bytenr: read_u64(b, off + 48),
            flags: read_u64(b, off + 56),
            chunk_tree_uuid: read_array::<16>(b, off + 64),
            generation: read_u64(b, off + 80),
            owner: read_u64(b, off + 88),
            nritems: read_u32(b, off + 96),
            level: b[off + 100],
        }
    }
}

#[derive(Debug, Clone, Copy)]
pub struct BtrfsKeyPtr {
    pub key: BtrfsKey,
    pub blockptr: u64,
    pub generation: u64,
}

pub open spec fn key_ptr_at(s: Seq<u8>, off: int) -> BtrfsKeyPtr {
    BtrfsKeyPtr {
        key: key_at(s, off),
        blockptr: le64(s, off + 17) as u64,
        generation: le64(s, off + 25) as u64,
    }
}

impl BtrfsKeyPtr {
    pub fn parse(b: &[u8], off: usize) -> (r: Self)
        requires
            off + KEY_PTR_SIZE <= b.len(),
        ensures
            r == key_ptr_at(b@, off as int),
    {
        BtrfsKeyPtr {
            key: BtrfsKey::parse(b, off),
            blockptr: read_u64(b, off + 17),
            generation: read_u64(b, off + 25),
        }
    }
}

#[derive(Debug, Clone, Copy)]
pub struct BtrfsItem {
    pub key: BtrfsKey,
    pub offset: u32,
    pub size: u32,
}

pub open spec fn item_at(s: Seq<u8>, off: int) -> BtrfsItem {
    BtrfsItem {
        key: key_at(s, off),
        offset: le32(s, off + 17) as u32,
        size: le32(s, off + 21) as u32,
    }
}

impl BtrfsItem {
    pub fn parse(b: &[u8], off: usize) -> (r: Self)
        requires
            off + ITEM_SIZE <= b.len(),
        ensures
            r == item_at(b@, off as int),
    {
        BtrfsItem {
            key: BtrfsKey::parse(b, off),
            offset: read_u32(b, off + 17),
            size: read_u32(b, off + 21),
        }
    }
}

#[derive(Debug, Clone, Copy)]
pub struct BtrfsDevItem {
    pub devid: u64,
    pub total_bytes: u64,
    pub bytes_used: u64,
    pub io_align: u32,
    pub io_width: u32,
    pub sector_size: u32,
    pub type_: u64,
    pub generation: u64,
    pub start_offset: u64,
    pub dev_group: u32,
    pub seek_speed: u8,
    pub bandwidth: u8,
    pub uuid: BtrfsUuid,
    pub fsid: BtrfsUuid,
}

impl BtrfsDevItem {
    pub fn parse(b: &[u8], off: usize) -> (r: Self)
        requires
            off + DEV_ITEM_SIZE <= b.len(),
        ensures
            r.devid == le64(b@, off as int),
            r.total_bytes == le64(b@, off + 8),
            r.bytes_used == le64(b@, off + 16),
            r.io_align == le32(b@, off + 24),
            r.io_width == le32(b@, off + 28),
            r.sector_size == le32(b@, off + 32),
            r.type_ == le64(b@, off + 36),
            r.generation == le64(b@, off + 44),
            r.start_offset == le64(b@, off + 52),
            r.dev_group == le32(b@, off + 60),
            r.seek_speed == b@[off + 64],
            r.bandwidth == b@[off + 65],
            r.uuid@ == b@.subrange(off + 66, off + 82),
            r.fsid@ == b@.subrange(off + 82, off + 98),
    {
        BtrfsDevItem {
            devid: read_u64(b, off),
            total_bytes: read_u64(b, off + 8),
            bytes_used: read_u64(b, off + 16),
            io_align: read_u32(b, off + 24),
            io_width: read_u32(b, off + 28),
            sector_size: read_u32(b, off + 32),
            type_: read_u64(b, off + 36),
            generation: read_u64(b, off + 44),
            start_offset: read_u64(b, off + 52),
            dev_group: read_u32(b, off + 60),
            seek_speed: b[off + 64],
            bandwidth: b[off + 65],
            uuid: read_array::<16>(b, off + 66),
            fsid: read_array::<16>(b, off + 82),
        }
    }
}

#[derive(Debug, Clone, Copy)]
pub struct BtrfsStripe {
    pub devid: u64,
    pub offset: u64,
    pub dev_uuid: BtrfsUuid,
}

impl BtrfsStripe {
    pub fn parse(b: &[u8], off: usize) -> (r: Self)
        requires
            off + STRIPE_SIZE <= b.len(),
        ensures
            r.devid == le64(b@, off as int),
            r.offset == le64(b@, off + 8),
            r.dev_uuid@ == b@.subrange(off + 16, off + 32),
    {
        BtrfsStripe {
            devid: read_u64(b, off),
            offset: read_u64(b, off + 8),
            dev_uuid: read_array::<16>(b, off + 16),
        }
    }
}

/// A chunk item's fixed part; `num_stripes` stripes follow it.
#[derive(Debug, Clone, Copy)]
pub struct BtrfsChunk {
    pub length: u64,
    pub owner: u64,
    pub stripe_len: u64,
    pub type_: u64,
    pub io_align: u32,
    pub io_width: u32,
    pub sector_size: u32,
    pub num_stripes: u16,
    pub sub_stripes: u16,
}

pub open spec fn chunk_at(s: Seq<u8>, off: int) -> BtrfsChunk {
    BtrfsChunk {
        length: le64(s, off) as u64,
        owner: le64(s, off + 8) as u64,
        stripe_len: le64(s, off + 16) as u64,
        type_: le64(s, off + 24) as u64,
        io_align: le32(s, off + 32) as u32,
        io_width: le32(s, off + 36) as u32,
        sector_size: le32(s, off + 40) as u32,
        num_stripes: le16(s, off + 44) as u16,
        sub_stripes: le16(s, off + 46) as u16,
    }
}

impl BtrfsChunk {
    pub fn parse(b: &[u8], off: usize) -> (r: Self)
        requires
            off + CHUNK_SIZE <= b.len(),
        ensures
            r == chunk_at(b@, off as int),
    {
        BtrfsChunk {
            length: read_u64(b, off),
            owner: read_u64(b, off + 8),
            stripe_len: read_u64(b, off + 16),
            type_: read_u64(b, off + 24),
            io_align: read_u32(b, off + 32),
            io_width: read_u32(b, off + 36),
            sector_size: read_u32(b, off + 40),
            num_stripes: read_u16(b, off + 44),
            sub_stripes: read_u16(b, off + 46),
        }
    }
}

#[derive(Debug, Clone, Copy)]
pub struct BtrfsDirItem {
    pub location: BtrfsKey,
    pub transid: u64,
    pub data_len: u16,
    pub name_len: u16,
    pub type_: u8,
}

pub open spec fn dir_item_at(s: Seq<u8>, off: int) -> BtrfsDirItem {
    BtrfsDirItem {
        location: key_at(s, off),
        transid: le64(s, off + 17) as u64,
        data_len: le16(s, off + 25) as u16,
        name_len: le16(s, off + 27) as u16,
        type_: s[off + 29],
    }
}

impl BtrfsDirItem {
    pub fn parse(b: &[u8], off: usize) -> (r: Self)
        requires
            off + DIR_ITEM_SIZE <= b.len(),
        ensures
            r == dir_item_at(b@, off as int),
    {
        BtrfsDirItem {
            location: BtrfsKey::parse(b, off),
            transid: read_u64(b, off + 17),
            data_len: read_u16(b, off + 25),
            name_len: read_u16(b, off + 27),
            type_: b[off + 29],
        }
    }
}

/// A root item; the leading inode item is kept as raw bytes.
#[derive(Debug, Clone, Copy)]
pub struct BtrfsRootItem {
    pub invoice: [u8; 160],
    pub generation: u64,
    pub root_dirid: u64,
    pub bytenr: u64,
    pub byte_limit: u64,
    pub bytes_used: u64,
    pub last_snapshot: u64,
    pub flags: u64,
    pub refs: u32,
    pub drop_on_cache: BtrfsKey,
    pub drop_progress: u8,
    pub level: u8,
}

impl BtrfsRootItem {
    pub fn parse(b: &[u8], off: usize) -> (r: Self)
        requires
            off + ROOT_ITEM_SIZE <= b.len(),
        ensures
            r.invoice@ == b@.subrange(off as int, off + 160),
            r.generation == le64(b@, off + 160),
            r.root_dirid == le64(b@, off + 168),
            r.bytenr == le64(b@, off + 176),
            r.byte_limit == le64(b@, off + 184),
            r.bytes_used == le64(b@, off + 192),
            r.last_snapshot == le64(b@, off + 200),
            r.flags == le64(b@, off + 208),
            r.refs == le32(b@, off + 216),
            r.drop_on_cache == key_at(b@, off + 220),
            r.drop_progress == b@[off + 237],
            r.level == b@[off + 238],
    {
        BtrfsRootItem {
            invoice: read_array::<160>(b, off),
            generation: read_u64(b, off + 160),
            root_dirid: read_u64(b, off + 168),
            bytenr: read_u64(b, off + 176),
            byte_limit: read_u64(b, off + 184),
            bytes_used: read_u64(b, off + 192),
            last_snapshot: read_u64(b, off + 200),
            flags: read_u64(b, off + 208),
            refs: read_u32(b, off + 216),
            drop_on_cache: BtrfsKey::parse(b, off + 220),
            drop_progress: b[off + 237],
            level: b[off + 238],
        }
    }
}

#[derive(Debug, Clone, Copy)]
pub struct BtrfsFileExtentItem {
    pub generation: u64,
    pub ram_bytes: u64,
    pub compression: u8,
    pub encryption: u8,
    pub other_encoding: u16,
    pub type_: u8,
}

pub open spec fn file_extent_at(s: Seq<u8>, off: int) -> BtrfsFileExtentItem {
    BtrfsFileExtentItem {
        generation: le64(s, off) as u64,
        ram_bytes: le64(s, off + 8) as u64,
        compression: s[off + 16],
        encryption: s[off + 17],
        other_encoding: le16(s, off + 18) as u16,
        type_: s[off + 20],
    }
}

impl BtrfsFileExtentItem {
    pub fn parse(b: &[u8], off: usize) -> (r: Self)
        requires
            off + FILE_EXTENT_SIZE <= b.len(),
        ensures
            r == file_extent_at(b@, off as int),
    {
        BtrfsFileExtentItem {
            generation: read_u64(b, off),
            ram_bytes: read_u64(b, off + 8),
            compression: b[off + 16],
            encryption: b[off + 17],
            other_encoding: read_u16(b, off + 18),
            type_: b[off + 20],
        }
    }
}

#[derive(Debug, Clone, Copy)]
pub struct BtrfsSuperBlock {
    pub csum: BtrfsChecksum,
    pub fsid: BtrfsUuid,
    pub bytenr: u64,
    pub flags: u64,
    pub magic: [u8; 8],
    pub generation: u64,
    pub root: u64,
    pub chunk_root: u64,
    pub log_root: u64,
    pub log_root_transid: u64,
    pub total_bytes: u64,
    pub bytes_used: u64,
    pub root_dir_objectid: u64,
    pub num_devices: u64,
    pub sectorsize: u32,
    pub nodesize: u32,
    pub leafsize: u32,
    pub stripesize: u32,
    pub sys_chunk_array_size: u32,
    pub chunk_root_generation: u64,
    pub compat_flags: u64,
    pub compat_ro_flags: u64,
    pub incompat_flags: u64,
    pub csum_type: u16,
    pub root_level: u8,
    pub chunk_root_level: u8,
    pub log_root_level: u8,
    pub dev_item: BtrfsDevItem,
    pub label: [u8; 256],
    pub cache_generation: u64,
    pub uuid_tree_generation: u64,
    pub reserved: [u8; 240],
    pub sys_chunk_array: [u8; 2048],
    pub super_roots: [BtrfsKeyPtr; 4],
    pub unused: [u8; 565],
}

/// The eight bytes `_BHRfS_M` at offset 64 of a superblock.
pub open spec fn has_btrfs_magic(s: Seq<u8>) -> bool {
    &&& s[64] == 0x5F
    &&& s[65] == 0x42
    &&& s[66] == 0x48
    &&& s[67] == 0x52
    &&& s[68] == 0x66
    &&& s[69] == 0x53
    &&& s[70] == 0x5F
    &&& s[71] == 0x4D
}

/// The fields of `sb` that the reader relies on, as decoded from `b`.
pub open spec fn superblock_matches(sb: BtrfsSuperBlock, b: Seq<u8>) -> bool {
    &&& sb.csum@ == b.subrange(0, 32)
    &&& sb.fsid@ == b.subrange(32, 48)
    &&& sb.bytenr == le64(b, 48)
    &&& sb.magic@ == b.subrange(64, 72)
    &&& sb.generation == le64(b, 72)
    &&& sb.root == le64(b, 80)
    &&& sb.chunk_root == le64(b, 88)
    &&& sb.sectorsize == le32(b, 144)
    &&& sb.nodesize == le32(b, 148)
    &&& sb.sys_chunk_array_size == le32(b, 160)
    &&& sb.label@ == b.subrange(299, 555)
    &&& sb.sys_chunk_array@ == b.subrange(811, 2859)
}

impl BtrfsSuperBlock {
    /// Decodes a superblock from the start of `b`.
    pub fn parse(b: &[u8]) -> (r: Self)
        requires
            SUPER_BLOCK_SIZE <= b.len(),
        ensures
            superblock_matches(r, b@),
    {
        BtrfsSuperBlock {
            csum: read_array::<32>(b, 0),
            fsid: read_array::<16>(b, 32),
            bytenr: read_u64(b, 48),
            flags: read_u64(b, 56),
            magic: read_array::<8>(b, 64),
            generation: read_u64(b, 72),
            root: read_u64(b, 80),
            chunk_root: read_u64(b, 88),
            log_root: read_u64(b, 96),
            log_root_transid: read_u64(b, 104),
            total_bytes: read_u64(b, 112),
            bytes_used: read_u64(b, 120),
            root_dir_objectid: read_u64(b, 128),
            num_devices: read_u64(b, 136),
            sectorsize: read_u32(b, 144),
            nodesize: read_u32(b, 148),
            leafsize: read_u32(b, 152),
            stripesize: read_u32(b, 156),
            sys_chunk_array_size: read_u32(b, 160),
            chunk_root_generation: read_u64(b, 164),
            compat_flags: read_u64(b, 172),
            compat_ro_flags: read_u64(b, 180),
            incompat_flags: read_u64(b, 188),
            csum_type: read_u16(b, 196),
            root_level: b[198],
            chunk_root_level: b[199],
            log_root_level: b[200],
            dev_item: BtrfsDevItem::parse(b, 201),
            label: read_array::<256>(b, 299),
            cache_generation: read_u64(b, 555),
            uuid_tree_generation: read_u64(b, 563),
            reserved: read_array::<240>(b, 571),
            sys_chunk_array: read_array::<2048>(b, 811),
            super_roots: [
                BtrfsKeyPtr::parse(b, 2859),
                BtrfsKeyPtr::parse(b, 2892),
                BtrfsKeyPtr::parse(b, 2925),
                BtrfsKeyPtr::parse(b, 2958),
            ],
            unused: read_array::<565>(b, 2991),
        }
    }
}

} // verus!
