use rignite::block::MemDisk;
use rignite::btrfs::Btrfs;
use rignite::controller::{auto_boot_choice, default_drive, BootChoice, Splash, SplashOutcome};
use rignite::error::FwError;
use rignite::launcher::plan_linux_boot;
use rignite::ondisk::{BtrfsKey, BTRFS_DIR_INDEX_KEY, BTRFS_EXTENT_DATA_KEY, BTRFS_INODE_ITEM_KEY, BTRFS_ROOT_ITEM_KEY};

const NODE: usize = 4096;
const LOGICAL: u64 = 0x100_0000;
const PHYSICAL: u64 = 0x2_0000;
const CHUNK_LEN: u64 = 0x10_0000;
const FSID: [u8; 16] = [
    0x12, 0x34, 0x56, 0x78, 0x9a, 0xbc, 0xde, 0xf0, 0x01, 0x23, 0x45, 0x67, 0x89, 0xab, 0xcd, 0xef,
];

fn key(objectid: u64, type_: u8, offset: u64) -> Vec<u8> {
    let mut v = objectid.to_le_bytes().to_vec();
    v.push(type_);
    v.extend_from_slice(&offset.to_le_bytes());
    v
}

fn chunk_item(length: u64, physical: u64) -> Vec<u8> {
    let mut v = Vec::new();
    v.extend_from_slice(&length.to_le_bytes());
    v.extend_from_slice(&2u64.to_le_bytes());
    v.extend_from_slice(&65536u64.to_le_bytes());
    v.extend_from_slice(&2u64.to_le_bytes());
    v.extend_from_slice(&4096u32.to_le_bytes());
    v.extend_from_slice(&4096u32.to_le_bytes());
    v.extend_from_slice(&4096u32.to_le_bytes());
    v.extend_from_slice(&1u16.to_le_bytes());
    v.extend_from_slice(&0u16.to_le_bytes());
    v.extend_from_slice(&1u64.to_le_bytes());
    v.extend_from_slice(&physical.to_le_bytes());
    v.extend_from_slice(&[0u8; 16]);
    v
}

fn root_item(bytenr: u64) -> Vec<u8> {
    let mut v = vec![0u8; 239];
    v[176..184].copy_from_slice(&bytenr.to_le_bytes());
    v
}

fn dir_item(target: u64, target_type: u8, name: &str) -> Vec<u8> {
    let mut v = key(target, target_type, 0);
    v.extend_from_slice(&7u64.to_le_bytes());
    v.extend_from_slice(&0u16.to_le_bytes());
    v.extend_from_slice(&(name.len() as u16).to_le_bytes());
    v.push(2);
    v.extend_from_slice(name.as_bytes());
    v
}

fn inline_extent(data: &[u8], compression: u8) -> Vec<u8> {
    let mut v = vec![0u8; 21];
    v[8..16].copy_from_slice(&(data.len() as u64).to_le_bytes());
    v[16] = compression;
    v[20] = 0;
    v.extend_from_slice(data);
    v
}

fn reg_extent(disk_bytenr: u64, num_bytes: u64) -> Vec<u8> {
    let mut v = vec![0u8; 21];
    v[20] = 1;
    v.extend_from_slice(&disk_bytenr.to_le_bytes());
    v.extend_from_slice(&num_bytes.to_le_bytes());
    v.extend_from_slice(&0u64.to_le_bytes());
    v.extend_from_slice(&num_bytes.to_le_bytes());
    v
}

/// A leaf holding `items` (already in key order), values packed from the end.
fn leaf(items: &[(Vec<u8>, Vec<u8>)]) -> Vec<u8> {
    let mut n = vec![0u8; NODE];
    n[96..100].copy_from_slice(&(items.len() as u32).to_le_bytes());
    n[100] = 0;
    let mut end = NODE - 101;
    for (i, (k, value)) in items.iter().enumerate() {
        end -= value.len();
        let pos = 101 + 25 * i;
        n[pos..pos + 17].copy_from_slice(k);
        n[pos + 17..pos + 21].copy_from_slice(&(end as u32).to_le_bytes());
        n[pos + 21..pos + 25].copy_from_slice(&(value.len() as u32).to_le_bytes());
        n[101 + end..101 + end + value.len()].copy_from_slice(value);
    }
    n
}

/// An internal node pointing at `children` (first key, logical address).
fn internal(level: u8, children: &[(Vec<u8>, u64)]) -> Vec<u8> {
    let mut n = vec![0u8; NODE];
    n[96..100].copy_from_slice(&(children.len() as u32).to_le_bytes());
    n[100] = level;
    for (i, (k, ptr)) in children.iter().enumerate() {
        let pos = 101 + 33 * i;
        n[pos..pos + 17].copy_from_slice(k);
        n[pos + 17..pos + 25].copy_from_slice(&ptr.to_le_bytes());
    }
    n
}

struct Volume {
    nodes: Vec<(u64, Vec<u8>)>,
    label: &'static str,
}

fn build(vol: &Volume) -> Vec<u8> {
    let mut disk = vec![0u8; (PHYSICAL + CHUNK_LEN) as usize];
    let sb = 65536;
    disk[sb + 32..sb + 48].copy_from_slice(&FSID);
    disk[sb + 64..sb + 72].copy_from_slice(b"_BHRfS_M");
    disk[sb + 80..sb + 88].copy_from_slice(&(LOGICAL + 0x1000).to_le_bytes());
    disk[sb + 88..sb + 96].copy_from_slice(&LOGICAL.to_le_bytes());
    disk[sb + 144..sb + 148].copy_from_slice(&4096u32.to_le_bytes());
    disk[sb + 148..sb + 152].copy_from_slice(&(NODE as u32).to_le_bytes());
    let mut sys = key(256, 228, LOGICAL);
    sys.extend_from_slice(&chunk_item(CHUNK_LEN, PHYSICAL));
    disk[sb + 160..sb + 164].copy_from_slice(&(sys.len() as u32).to_le_bytes());
    disk[sb + 299..sb + 299 + vol.label.len()].copy_from_slice(vol.label.as_bytes());
    disk[sb + 811..sb + 811 + sys.len()].copy_from_slice(&sys);
    let chunk_tree = leaf(&[(key(256, 228, LOGICAL), chunk_item(CHUNK_LEN, PHYSICAL))]);
    let mut place = |logical: u64, node: &Vec<u8>| {
        let p = (PHYSICAL + (logical - LOGICAL)) as usize;
        disk[p..p + NODE].copy_from_slice(node);
    };
    place(LOGICAL, &chunk_tree);
    for (logical, node) in &vol.nodes {
        place(*logical, node);
    }
    disk
}

const ROOT_TREE: u64 = LOGICAL + 0x1000;
const FS_TREE: u64 = LOGICAL + 0x2000;
const SUBVOL_TREE: u64 = LOGICAL + 0x3000;
const DATA: u64 = LOGICAL + 0x8000;

/// `Core` is a subvolume (tree 257) holding `Boot/vmlinuz-linux` and
/// `Boot/initramfs-linux.img`; the top-level tree also has an object 257
/// with a decoy `Boot` entry.
fn subvolume_volume(label: &'static str) -> Volume {
    let root_tree = leaf(&[
        (key(5, BTRFS_ROOT_ITEM_KEY, 0), root_item(FS_TREE)),
        (key(257, BTRFS_ROOT_ITEM_KEY, 0), root_item(SUBVOL_TREE)),
    ]);
    let fs_tree = leaf(&[
        (key(256, BTRFS_DIR_INDEX_KEY, 2), dir_item(257, BTRFS_ROOT_ITEM_KEY, "Core")),
        (key(257, BTRFS_DIR_INDEX_KEY, 2), dir_item(900, BTRFS_INODE_ITEM_KEY, "Boot")),
    ]);
    let subvol = leaf(&[
        (key(256, BTRFS_DIR_INDEX_KEY, 2), dir_item(258, BTRFS_INODE_ITEM_KEY, "Boot")),
        (key(258, BTRFS_DIR_INDEX_KEY, 2), dir_item(259, BTRFS_INODE_ITEM_KEY, "vmlinuz-linux")),
        (key(258, BTRFS_DIR_INDEX_KEY, 3), dir_item(260, BTRFS_INODE_ITEM_KEY, "initramfs-linux.img")),
        (key(259, BTRFS_EXTENT_DATA_KEY, 0), inline_extent(b"KERNEL", 0)),
        (key(260, BTRFS_EXTENT_DATA_KEY, 0), reg_extent(DATA, 6)),
    ]);
    let mut data = vec![0u8; NODE];
    data[..6].copy_from_slice(b"INITRD");
    Volume {
        nodes: vec![(ROOT_TREE, root_tree), (FS_TREE, fs_tree), (SUBVOL_TREE, subvol), (DATA, data)],
        label,
    }
}

fn open(vol: &Volume) -> Btrfs<MemDisk> {
    Btrfs::new(MemDisk::new(build(vol), 512)).unwrap().unwrap()
}

#[test]
fn btrfs_probe_on_zeros_is_not_btrfs() {
    let disk = MemDisk::new(vec![0u8; 65536 + 4096], 512);
    assert!(matches!(Btrfs::new(disk), Ok(None)));
}

#[test]
fn btrfs_probe_on_short_device_fails() {
    let disk = MemDisk::new(vec![0u8; 4096], 512);
    assert!(Btrfs::new(disk).is_err());
}

#[test]
fn btrfs_probe_loads_chunk_map_without_duplicates() {
    let fs = open(&subvolume_volume("RunixOS"));
    assert_eq!(fs.chunks.len(), 1);
    assert_eq!(fs.chunks[0].logical, LOGICAL);
    assert_eq!(fs.chunks[0].physical, PHYSICAL);
    let nodesize = fs.sb.nodesize;
    assert_eq!(nodesize, 4096);
}

#[test]
fn logical_to_physical_translates_within_chunk() {
    let fs = open(&subvolume_volume("x"));
    assert_eq!(fs.logical_to_physical(LOGICAL + 0x10), Some(PHYSICAL + 0x10));
    assert_eq!(fs.logical_to_physical(LOGICAL + CHUNK_LEN - 1), Some(PHYSICAL + CHUNK_LEN - 1));
    assert_eq!(fs.logical_to_physical(LOGICAL + CHUNK_LEN), None);
    assert_eq!(fs.logical_to_physical(5), None);
}

#[test]
fn read_logical_copies_window() {
    let mut fs = open(&subvolume_volume("x"));
    let mut buf = [0u8; 6];
    fs.read_logical(DATA, 6, &mut buf).unwrap();
    assert_eq!(&buf, b"INITRD");
    assert!(matches!(fs.read_logical(7, 6, &mut buf), Err(FwError::MappingNotFound)));
}

#[test]
fn search_slot_finds_exact_keys_only() {
    let mut fs = open(&subvolume_volume("x"));
    let hit = fs.search_slot(ROOT_TREE, &BtrfsKey::new(257, BTRFS_ROOT_ITEM_KEY, 0)).unwrap();
    let (_, item) = hit.unwrap();
    let k = item.key;
    let oid = k.objectid;
    assert_eq!(oid, 257);
    assert!(fs.search_slot(ROOT_TREE, &BtrfsKey::new(6, BTRFS_ROOT_ITEM_KEY, 0)).unwrap().is_none());
    assert!(fs.search_slot(ROOT_TREE, &BtrfsKey::new(5, BTRFS_ROOT_ITEM_KEY, 1)).unwrap().is_none());
}

#[test]
fn search_slot_repeats_byte_equal() {
    let mut fs = open(&subvolume_volume("x"));
    let k = BtrfsKey::new(259, BTRFS_EXTENT_DATA_KEY, 0);
    let (a, ia) = fs.search_slot(SUBVOL_TREE, &k).unwrap().unwrap();
    let (b, ib) = fs.search_slot(SUBVOL_TREE, &k).unwrap().unwrap();
    assert_eq!(a, b);
    let (oa, ob) = (ia.offset, ib.offset);
    assert_eq!(oa, ob);
}

#[test]
fn search_slot_descends_internal_nodes() {
    let mut vol = subvolume_volume("x");
    let left = leaf(&[(key(1, 1, 0), vec![1]), (key(5, BTRFS_ROOT_ITEM_KEY, 0), root_item(FS_TREE))]);
    let right = leaf(&[(key(257, BTRFS_ROOT_ITEM_KEY, 0), root_item(SUBVOL_TREE))]);
    let top = internal(1, &[(key(1, 1, 0), LOGICAL + 0x5000), (key(257, BTRFS_ROOT_ITEM_KEY, 0), LOGICAL + 0x6000)]);
    vol.nodes[0] = (ROOT_TREE, top);
    vol.nodes.push((LOGICAL + 0x5000, left));
    vol.nodes.push((LOGICAL + 0x6000, right));
    let mut fs = open(&vol);
    assert_eq!(fs.get_tree_root(257).unwrap(), SUBVOL_TREE);
    assert_eq!(fs.get_fs_root().unwrap(), FS_TREE);
    assert!(matches!(fs.get_tree_root(300), Err(FwError::NotFound)));
}

#[test]
fn search_slot_rejects_level_that_does_not_drop() {
    let mut vol = subvolume_volume("x");
    vol.nodes[0] = (ROOT_TREE, internal(1, &[(key(1, 1, 0), ROOT_TREE)]));
    let mut fs = open(&vol);
    assert!(matches!(fs.get_fs_root(), Err(FwError::VolumeCorrupted)));
}

#[test]
fn find_file_in_dir_reports_subvolume_entries() {
    let mut fs = open(&subvolume_volume("x"));
    assert_eq!(fs.find_file_in_dir(FS_TREE, 256, "Core").unwrap(), Some((257, BTRFS_ROOT_ITEM_KEY)));
    assert_eq!(fs.find_file_in_dir(FS_TREE, 256, "core").unwrap(), None);
    assert_eq!(fs.find_file_in_dir(SUBVOL_TREE, 258, "vmlinuz-linux").unwrap(), Some((259, BTRFS_INODE_ITEM_KEY)));
}

#[test]
fn read_file_inline_regular_and_errors() {
    let mut fs = open(&subvolume_volume("x"));
    assert_eq!(fs.read_file(SUBVOL_TREE, 259).unwrap(), b"KERNEL");
    assert_eq!(fs.read_file(SUBVOL_TREE, 260).unwrap(), b"INITRD");
    assert!(matches!(fs.read_file(SUBVOL_TREE, 999), Err(FwError::NotFound)));
    let mut vol = subvolume_volume("x");
    vol.nodes[2] = (
        SUBVOL_TREE,
        leaf(&[
            (key(259, BTRFS_EXTENT_DATA_KEY, 0), inline_extent(b"zz", 1)),
            (key(260, BTRFS_EXTENT_DATA_KEY, 0), reg_extent(0, 4096)),
        ]),
    );
    let mut fs = open(&vol);
    assert!(matches!(fs.read_file(SUBVOL_TREE, 259), Err(FwError::Unsupported)));
    assert_eq!(fs.read_file(SUBVOL_TREE, 260).unwrap(), Vec::<u8>::new());
}

#[test]
fn label_and_uuid() {
    let fs = open(&subvolume_volume("RunixOS"));
    assert_eq!(fs.get_label(), "RunixOS");
    assert_eq!(fs.label_bytes(), b"RunixOS");
    assert_eq!(fs.get_uuid(), "12345678-9abc-def0-0123-456789abcdef");
}

#[test]
fn subvolume_crossing() {
    let mut fs = open(&subvolume_volume("x"));
    let plan = plan_linux_boot(&mut fs, None).unwrap();
    assert_eq!(plan.kernel, b"KERNEL");
    assert_eq!(plan.initrd.as_deref(), Some(&b"INITRD"[..]));
    let plan = plan_linux_boot(&mut fs, Some("quiet")).unwrap();
    assert_eq!(plan.cmdline, "quiet");
}

#[test]
fn plain_directory_core_is_entered_by_inode() {
    let mut vol = subvolume_volume("x");
    vol.nodes[1] = (
        FS_TREE,
        leaf(&[
            (key(256, BTRFS_DIR_INDEX_KEY, 2), dir_item(257, BTRFS_INODE_ITEM_KEY, "Core")),
            (key(257, BTRFS_DIR_INDEX_KEY, 2), dir_item(258, BTRFS_INODE_ITEM_KEY, "Boot")),
            (key(258, BTRFS_DIR_INDEX_KEY, 2), dir_item(259, BTRFS_INODE_ITEM_KEY, "vmlinuz-linux")),
            (key(259, BTRFS_EXTENT_DATA_KEY, 0), inline_extent(b"K2", 0)),
        ]),
    );
    let mut fs = open(&vol);
    let plan = plan_linux_boot(&mut fs, None).unwrap();
    assert_eq!(plan.kernel, b"K2");
    assert!(plan.initrd.is_none());
}

#[test]
fn missing_kernel_is_not_found() {
    let mut vol = subvolume_volume("x");
    vol.nodes[2] = (
        SUBVOL_TREE,
        leaf(&[(key(256, BTRFS_DIR_INDEX_KEY, 2), dir_item(258, BTRFS_INODE_ITEM_KEY, "Boot"))]),
    );
    let mut fs = open(&vol);
    assert!(matches!(plan_linux_boot(&mut fs, None), Err(FwError::NotFound)));
}

#[test]
fn auto_boot_decision() {
    let fs = open(&subvolume_volume("RunixOS"));
    let labels = vec![fs.label_bytes()];
    let mut splash = Splash::new();
    let mut frames = 0;
    let outcome = loop {
        frames += 1;
        match splash.frame(false, false) {
            SplashOutcome::Waiting => {}
            other => break other,
        }
    };
    assert_eq!(outcome, SplashOutcome::AutoBoot);
    assert_eq!(frames, 121);
    let choice = auto_boot_choice(false, default_drive(&labels));
    assert_eq!(choice, BootChoice::BootDrive(0));
    let mut fs = fs;
    let plan = plan_linux_boot(&mut fs, None).unwrap();
    assert_eq!(
        plan.cmdline,
        "root=UUID=12345678-9abc-def0-0123-456789abcdef root=/dev/vda rw rootfstype=btrfs init=/Core/sbin/init console=ttyS0"
    );
}

#[test]
fn list_root_files_marks_directories() {
    let mut fs = open(&subvolume_volume("x"));
    assert_eq!(fs.list_root_files().unwrap(), vec!["Core/".to_string(), "Boot/".to_string()]);
    let mut vol = subvolume_volume("x");
    vol.nodes[1] = (FS_TREE, leaf(&[(key(256, BTRFS_EXTENT_DATA_KEY, 0), inline_extent(b"x", 0))]));
    let mut fs = open(&vol);
    assert_eq!(fs.list_root_files().unwrap(), vec!["<Empty or Nav Failed>".to_string()]);
}

#[test]
fn probe_superblock_decides_on_magic() {
    let zeros = vec![0u8; 4096];
    assert!(rignite::btrfs::probe_superblock(&zeros).is_none());
    let disk = build(&subvolume_volume("RunixOS"));
    let sb = rignite::btrfs::probe_superblock(&disk[65536..65536 + 4096]).unwrap();
    let root = sb.root;
    assert_eq!(root, ROOT_TREE);
    assert_eq!(sb.fsid, FSID);
}

#[test]
fn read_logical_leaves_buffer_on_error() {
    let mut fs = open(&subvolume_volume("x"));
    let mut buf = [9u8; 4];
    assert!(fs.read_logical(3, 4, &mut buf).is_err());
    assert_eq!(buf, [9u8; 4]);
}

#[test]
fn unmapped_chunk_tree_root_is_fatal() {
    let mut disk = build(&subvolume_volume("x"));
    let sb = 65536;
    disk[sb + 88..sb + 96].copy_from_slice(&0x9999_0000u64.to_le_bytes());
    assert!(matches!(Btrfs::new(MemDisk::new(disk, 512)), Err(FwError::MappingNotFound)));
}
