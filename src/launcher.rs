//! Finding the kernel and initrd of a Btrfs volume and the command line to
//! start it with.
use vstd::prelude::*;
use vstd::string::StringSliceAdditionalSpecFns;
use crate::block::BlockReader;
use crate::block::is_io_error;
use crate::btrfs::Btrfs;
use crate::error::FwError;
use crate::ondisk::{BTRFS_FS_TREE_OBJECTID, BTRFS_ROOT_ITEM_KEY, BTRFS_FIRST_FREE_OBJECTID};
use crate::text::uuid_text;

verus! {

broadcast use vstd::string::group_string_axioms;

/// The command line used when the configuration gives none.
pub open spec fn default_cmdline_text(uuid: Seq<char>) -> Seq<char> {
    "root=UUID="@ + uuid + " root=/dev/vda rw rootfstype=btrfs init=/Core/sbin/init console=ttyS0"@
}

pub fn default_cmdline(uuid: &str) -> (r: String)
    ensures
        r@ == default_cmdline_text(uuid@),
{
    let mut s = String::new();
    s.append("root=UUID=");
    s.append(uuid);
    s.append(" root=/dev/vda rw rootfstype=btrfs init=/Core/sbin/init console=ttyS0");
    assert(s@ =~= default_cmdline_text(uuid@));
    s
}

/// A directory lookup as the boot walk sees it: a malformed tree is
/// `VolumeCorrupted`, a missing name `NotFound`.
pub open spec fn lookup<R: BlockReader>(fs: Btrfs<R>, root: u64, dir: u64, name: Seq<u8>) -> Result<(u64, u8), FwError> {
    match fs.find_spec(root, dir, name) {
        Err(_) => Err(FwError::VolumeCorrupted),
        Ok(None) => Err(FwError::NotFound),
        Ok(Some(x)) => Ok(x),
    }
}

/// Where the kernel lives: the tree to read from, the kernel's inode and
/// the initrd's inode if there is one. `Core` at the top level is either
/// a directory or a subvolume; a subvolume is entered at its root
/// directory. A missing tree root, `Core`, `Boot` or `vmlinuz-linux` is
/// `NotFound`.
pub open spec fn boot_files_result<R: BlockReader>(fs: Btrfs<R>) -> Result<(u64, u64, Option<u64>), FwError> {
    match fs.tree_root_spec(BTRFS_FS_TREE_OBJECTID) {
        Err(e) => Err(e),
        Ok(top) => match lookup(fs, top, 256, "Core".spec_bytes()) {
            Err(e) => Err(e),
            Ok((core_obj, core_type)) => {
                let root = if core_type == BTRFS_ROOT_ITEM_KEY {
                    fs.tree_root_spec(core_obj)
                } else {
                    Ok(top)
                };
                let dir = if core_type == BTRFS_ROOT_ITEM_KEY { 256 } else { core_obj };
                match root {
                    Err(e) => Err(e),
                    Ok(r) => match lookup(fs, r, dir, "Boot".spec_bytes()) {
                        Err(e) => Err(e),
                        Ok((boot, _)) => match lookup(fs, r, boot, "vmlinuz-linux".spec_bytes()) {
                            Err(e) => Err(e),
                            Ok((kernel, _)) => match fs.find_spec(r, boot, "initramfs-linux.img".spec_bytes()) {
                                Ok(Some((initrd, _))) => Ok((r, kernel, Some(initrd))),
                                Ok(None) => Ok((r, kernel, None)),
                                Err(_) => Err(FwError::VolumeCorrupted),
                            },
                        },
                    },
                }
            },
        },
    }
}

/// Whether reading the kernel or the initrd named by a resolved walk fails
/// with `e` on the volume as it is.
pub open spec fn boot_read_fails<R: BlockReader>(fs: Btrfs<R>, files: (u64, u64, Option<u64>), e: FwError) -> bool {
    ||| fs.file_spec(files.0, files.1) == Err::<Seq<u8>, FwError>(e)
    ||| (files.2 matches Some(i) && fs.file_spec(files.0, i) == Err::<Seq<u8>, FwError>(e))
}

/// Whether reading the kernel or the initrd fails at all.
pub open spec fn boot_read_fails_any<R: BlockReader>(fs: Btrfs<R>, files: (u64, u64, Option<u64>)) -> bool {
    ||| fs.file_spec(files.0, files.1) is Err
    ||| (files.2 matches Some(i) && fs.file_spec(files.0, i) is Err)
}

/// What to hand to the kernel: its image, the initrd, the command line.
pub struct LinuxBootPlan {
    pub kernel: Vec<u8>,
    pub initrd: Option<Vec<u8>>,
    pub cmdline: String,
}

fn found(r: Result<Option<(u64, u8)>, FwError>) -> (out: Result<(u64, u8), FwError>)
    ensures
        match r {
            Ok(Some(x)) => out == Ok::<(u64, u8), FwError>(x),
            Ok(None) => out == Err::<(u64, u8), FwError>(FwError::NotFound),
            Err(e) => out == Err::<(u64, u8), FwError>(e),
        },
{
    match r {
        Ok(Some(x)) => Ok(x),
        Ok(None) => Err(FwError::NotFound),
        Err(e) => Err(e),
    }
}

/// Walks `/Core/Boot` on the volume, crossing into `Core` if it is a
/// subvolume, reads `vmlinuz-linux` and, if present,
/// `initramfs-linux.img`, and settles the command line.
pub fn plan_linux_boot<R: BlockReader>(fs: &mut Btrfs<R>, cmdline_override: Option<&str>) -> (r: Result<LinuxBootPlan, FwError>)
    requires
        old(fs).wf(),
    ensures
        final(fs).same_state(*old(fs)),
        r matches Err(e) && !is_io_error(e) ==> match boot_files_result(*old(fs)) {
            Err(_) => true,
            Ok(files) => boot_read_fails_any(*old(fs), files),
        },
        r == Err::<LinuxBootPlan, FwError>(FwError::NotFound) ==> match boot_files_result(*old(fs)) {
            Err(e) => e == FwError::NotFound,
            Ok(files) => boot_read_fails(*old(fs), files, FwError::NotFound),
        },
        boot_files_result(*old(fs)) == Err::<(u64, u64, Option<u64>), FwError>(FwError::NotFound) ==> (r
            == Err::<LinuxBootPlan, FwError>(FwError::NotFound) || (r matches Err(e) && is_io_error(e))),
        r matches Ok(p) ==> {
            &&& boot_files_result(*old(fs)) matches Ok((root, kernel, initrd))
            &&& old(fs).file_spec(root, kernel) == Ok::<Seq<u8>, FwError>(p.kernel@)
            &&& match initrd {
                None => p.initrd.is_none(),
                Some(i) => p.initrd matches Some(d) && old(fs).file_spec(root, i) == Ok::<Seq<u8>, FwError>(d@),
            }
            &&& p.cmdline@ == match cmdline_override {
                Some(c) => c@,
                None => default_cmdline_text(uuid_text(old(fs).sb.fsid@)),
            }
        },
{
    let top = match fs.get_fs_root() {
        Ok(a) => a,
        Err(e) => {
            return Err(e);
        },
    };
    let (core_obj, core_type) = match found(fs.find_file_in_dir(top, BTRFS_FIRST_FREE_OBJECTID, "Core")) {
        Ok(x) => x,
        Err(e) => {
            return Err(e);
        },
    };
    let mut root = top;
    let mut dir = core_obj;
    if core_type == BTRFS_ROOT_ITEM_KEY {
        root = match fs.get_tree_root(core_obj) {
            Ok(a) => a,
            Err(e) => {
                return Err(e);
            },
        };
        dir = BTRFS_FIRST_FREE_OBJECTID;
    }
    let (boot, _) = match found(fs.find_file_in_dir(root, dir, "Boot")) {
        Ok(x) => x,
        Err(e) => {
            return Err(e);
        },
    };
    let (kernel_inode, _) = match found(fs.find_file_in_dir(root, boot, "vmlinuz-linux")) {
        Ok(x) => x,
        Err(e) => {
            return Err(e);
        },
    };
    let initrd = match fs.find_file_in_dir(root, boot, "initramfs-linux.img") {
        Ok(Some((inode, _))) => match fs.read_file(root, inode) {
            Ok(d) => Some(d),
            Err(e) => {
                return Err(e);
            },
        },
        Ok(None) => None,
        Err(e) => {
            return Err(e);
        },
    };
    let kernel = match fs.read_file(root, kernel_inode) {
        Ok(d) => d,
        Err(e) => {
            return Err(e);
        },
    };
    let cmdline = match cmdline_override {
        Some(c) => String::from_str(c),
        None => {
            let uuid = fs.get_uuid();
            default_cmdline(uuid.as_str())
        },
    };
    Ok(LinuxBootPlan { kernel, initrd, cmdline })
}

} // verus!
