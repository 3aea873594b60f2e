//! What the kernel handoff hands the firmware: the initrd's vendor media
//! device path, the LoadFile2 callback's replies, UTF-16 load options and
//! file-path device nodes.
use vstd::prelude::*;
use vstd::string::StrSliceExecFns;

verus! {

/// `LINUX_EFI_INITRD_MEDIA`: a vendor media node (type 4, subtype 3, 20
/// bytes) with GUID 5568e427-68fc-4f3d-ac74-ca555231cc68, then the end
/// node.
pub open spec fn initrd_media_path() -> Seq<u8> {
    seq![
        0x04u8, 0x03, 0x14, 0x00,
        0x27, 0xe4, 0x68, 0x55, 0xfc, 0x68, 0x3d, 0x4f,
        0xac, 0x74, 0xca, 0x55, 0x52, 0x31, 0xcc, 0x68,
        0x7f, 0xff, 0x04, 0x00,
    ]
}

fn push_all(v: &mut Vec<u8>, bytes: &[u8])
    ensures
        final(v)@ == old(v)@ + bytes@,
{
    let mut i: usize = 0;
    while i < bytes.len()
        invariant
            0 <= i <= bytes@.len(),
            v@ == old(v)@ + bytes@.subrange(0, i as int),
        decreases bytes@.len() - i,
    {
        v.push(bytes[i]);
        assert(bytes@.subrange(0, i + 1) =~= bytes@.subrange(0, i as int).push(bytes@[i as int]));
        i = i + 1;
    }
    assert(bytes@.subrange(0, bytes@.len() as int) =~= bytes@);
}

pub fn initrd_device_path() -> (r: Vec<u8>)
    ensures
        r@ == initrd_media_path(),
{
    let mut v: Vec<u8> = Vec::new();
    v.push(0x04);
    v.push(0x03);
    v.push(0x14);
    v.push(0x00);
    v.push(0x27);
    v.push(0xe4);
    v.push(0x68);
    v.push(0x55);
    v.push(0xfc);
    v.push(0x68);
    v.push(0x3d);
    v.push(0x4f);
    v.push(0xac);
    v.push(0x74);
    v.push(0xca);
    v.push(0x55);
    v.push(0x52);
    v.push(0x31);
    v.push(0xcc);
    v.push(0x68);
    v.push(0x7f);
    v.push(0xff);
    v.push(0x04);
    v.push(0x00);
    assert(v@ =~= initrd_media_path());
    v
}

#[derive(Debug, Clone, Copy, PartialEq, Eq, Structural)]
pub enum LoadFileStatus {
    Success,
    InvalidParameter,
    NotFound,
    BufferTooSmall,
}

/// What the LoadFile2 callback does: its status, the size it writes back
/// (if any), and whether it copies the initrd out.
#[derive(Debug, Clone, Copy, PartialEq, Eq, Structural)]
pub struct LoadFileReply {
    pub status: LoadFileStatus,
    pub size_written: Option<usize>,
    pub copies: bool,
}

/// The callback's decision. `size_given` and `buffer_given` say whether
/// the caller's size and buffer pointers are non-null; `available` is the
/// caller's buffer size; `initrd_len` the stored initrd's length, if one
/// was stored.
pub fn load_file2_reply(size_given: bool, available: usize, buffer_given: bool, initrd_len: Option<usize>) -> (r: LoadFileReply)
    ensures
        !size_given ==> r == (LoadFileReply { status: LoadFileStatus::InvalidParameter, size_written: None, copies: false }),
        size_given && initrd_len.is_none() ==> r == (LoadFileReply { status: LoadFileStatus::NotFound, size_written: None, copies: false }),
        size_given ==> match initrd_len {
            None => true,
            Some(n) => r == (if !buffer_given || available < n {
                LoadFileReply { status: LoadFileStatus::BufferTooSmall, size_written: Some(n), copies: false }
            } else {
                LoadFileReply { status: LoadFileStatus::Success, size_written: Some(n), copies: true }
            }),
        },
{
    if !size_given {
        return LoadFileReply { status: LoadFileStatus::InvalidParameter, size_written: None, copies: false };
    }
    match initrd_len {
        None => LoadFileReply { status: LoadFileStatus::NotFound, size_written: None, copies: false },
        Some(n) => {
            if !buffer_given || available < n {
                LoadFileReply { status: LoadFileStatus::BufferTooSmall, size_written: Some(n), copies: false }
            } else {
                LoadFileReply { status: LoadFileStatus::Success, size_written: Some(n), copies: true }
            }
        },
    }
}

/// The UTF-16 code units of one character.
pub open spec fn utf16_of_char(c: char) -> Seq<u16> {
    if (c as u32) < 0x10000 {
        seq![c as u32 as u16]
    } else {
        seq![
            (0xD800 + (c as u32 - 0x10000) / 0x400) as u16,
            (0xDC00 + (c as u32 - 0x10000) % 0x400) as u16,
        ]
    }
}

pub open spec fn utf16_encode(s: Seq<char>) -> Seq<u16>
    decreases s.len(),
{
    if s.len() == 0 {
        seq![]
    } else {
        utf16_of_char(s[0]) + utf16_encode(s.drop_first())
    }
}

proof fn lemma_utf16_encode_push(p: Seq<char>, c: char)
    ensures
        utf16_encode(p.push(c)) == utf16_encode(p) + utf16_of_char(c),
    decreases p.len(),
{
    if p.len() == 0 {
        assert(p.push(c).drop_first() =~= p);
        assert(utf16_encode(p) == Seq::<u16>::empty());
        assert(utf16_encode(p.push(c)) =~= utf16_of_char(c));
    } else {
        assert(p.push(c).drop_first() =~= p.drop_first().push(c));
        lemma_utf16_encode_push(p.drop_first(), c);
        assert(utf16_encode(p.push(c)) =~= utf16_encode(p) + utf16_of_char(c));
    }
}

/// A string's characters as UTF-16 code units, in order.
pub fn utf16_units(s: &str) -> (r: Vec<u16>)
    ensures
        r@ == utf16_encode(s@),
{
    let n = s.unicode_len();
    let mut out: Vec<u16> = Vec::new();
    let mut i: usize = 0;
    while i < n
        invariant
            n == s@.len(),
            0 <= i <= n,
            out@ == utf16_encode(s@.subrange(0, i as int)),
        decreases n - i,
    {
        let c = s.get_char(i);
        let v = c as u32;
        proof {
            lemma_utf16_encode_push(s@.subrange(0, i as int), c);
            assert(s@.subrange(0, i + 1) =~= s@.subrange(0, i as int).push(c));
        }
        if v < 0x10000 {
            out.push(v as u16);
        } else {
            let u = v - 0x10000;
            out.push(#[verifier::truncate] ((0xD800 + u / 0x400) as u16));
            out.push(#[verifier::truncate] ((0xDC00 + u % 0x400) as u16));
        }
        assert(out@ =~= utf16_encode(s@.subrange(0, i + 1)));
        i = i + 1;
    }
    assert(s@.subrange(0, n as int) =~= s@);
    out
}

/// A command line as UTF-16 load options, NUL-terminated.
pub fn load_options(cmdline: &str) -> (r: Vec<u16>)
    ensures
        r@ == utf16_encode(cmdline@).push(0),
{
    let mut v = utf16_units(cmdline);
    v.push(0);
    v
}

/// A path with forward slashes turned into back slashes.
pub open spec fn backslashed(p: Seq<u8>) -> Seq<u8> {
    Seq::new(p.len(), |i: int| if p[i] == 0x2F { 0x5Cu8 } else { p[i] })
}

/// A path as the firmware's file protocol wants it: back slashes, with
/// one in front.
pub open spec fn efi_path(p: Seq<u8>) -> Seq<u8> {
    if p.len() > 0 && backslashed(p)[0] == 0x5C {
        backslashed(p)
    } else {
        seq![0x5Cu8] + backslashed(p)
    }
}

pub fn normalize_efi_path(path: &[u8]) -> (r: Vec<u8>)
    ensures
        r@ == efi_path(path@),
{
    let mut out: Vec<u8> = Vec::new();
    if path.len() == 0 || (path[0] != 0x2F && path[0] != 0x5C) {
        out.push(0x5C);
    }
    let ghost start = out@;
    let mut i: usize = 0;
    while i < path.len()
        invariant
            0 <= i <= path@.len(),
            out@ == start + backslashed(path@).subrange(0, i as int),
        decreases path@.len() - i,
    {
        let b = path[i];
        out.push(if b == 0x2F { 0x5C } else { b });
        assert(backslashed(path@).subrange(0, i + 1) =~= backslashed(path@).subrange(0, i as int).push(
            backslashed(path@)[i as int],
        ));
        i = i + 1;
    }
    assert(backslashed(path@).subrange(0, path@.len() as int) =~= backslashed(path@));
    assert(out@ =~= efi_path(path@));
    out
}

/// The little-endian bytes of some code units.
pub open spec fn units_le(u: Seq<u16>) -> Seq<u8>
    decreases u.len(),
{
    if u.len() == 0 {
        seq![]
    } else {
        seq![(u[0] % 256) as u8, (u[0] / 256) as u8] + units_le(u.drop_first())
    }
}

/// A media file-path node (type 4, subtype 4) holding `path` and a NUL,
/// followed by the end node.
pub open spec fn file_path_nodes(path: Seq<u16>) -> Seq<u8> {
    let size = 4 + 2 * (path.len() + 1);
    seq![0x04u8, 0x04u8, (size % 256) as u8, (size / 256) as u8] + units_le(path.push(0)) + seq![
        0x7Fu8,
        0xFFu8,
        0x04u8,
        0x00u8,
    ]
}

proof fn lemma_units_le_push(u: Seq<u16>, x: u16)
    ensures
        units_le(u.push(x)) == units_le(u) + seq![(x % 256) as u8, (x / 256) as u8],
    decreases u.len(),
{
    if u.len() == 0 {
        assert(u.push(x).drop_first() =~= u);
        assert(units_le(u.push(x)) =~= seq![(x % 256) as u8, (x / 256) as u8]);
    } else {
        assert(u.push(x).drop_first() =~= u.drop_first().push(x));
        lemma_units_le_push(u.drop_first(), x);
        assert(units_le(u.push(x)) =~= units_le(u) + seq![(x % 256) as u8, (x / 256) as u8]);
    }
}

/// Builds the file-path node and end node for a path of UTF-16 units.
pub fn file_path_node(path: &[u16]) -> (r: Vec<u8>)
    requires
        path@.len() < 32000,
    ensures
        r@ == file_path_nodes(path@),
{
    let n = path.len();
    let size: usize = 4 + 2 * (n + 1);
    let mut out: Vec<u8> = Vec::new();
    out.push(0x04);
    out.push(0x04);
    out.push((size % 256) as u8);
    out.push((size / 256) as u8);
    let ghost head = out@;
    let mut i: usize = 0;
    while i < n
        invariant
            n == path@.len(),
            0 <= i <= n,
            out@ == head + units_le(path@.subrange(0, i as int)),
        decreases n - i,
    {
        let u = path[i];
        proof {
            lemma_units_le_push(path@.subrange(0, i as int), u);
            assert(path@.subrange(0, i + 1) =~= path@.subrange(0, i as int).push(u));
        }
        out.push((u % 256) as u8);
        out.push((u / 256) as u8);
        assert(out@ =~= head + units_le(path@.subrange(0, i + 1)));
        i = i + 1;
    }
    proof {
        assert(path@.subrange(0, n as int) =~= path@);
        lemma_units_le_push(path@, 0);
    }
    out.push(0);
    out.push(0);
    out.push(0x7F);
    out.push(0xFF);
    out.push(0x04);
    out.push(0x00);
    assert(out@ =~= file_path_nodes(path@));
    out
}

} // verus!
