//! The RBC boot configuration blob: a 16-byte header followed by
//! tag-length-value atoms, read in place without copying.
use vstd::prelude::*;
use vstd::string::StringSliceAdditionalSpecFns;
use vstd::utf8::valid_utf8;
use crate::bytes::{le16, le32, read_u16, read_u32};

verus! {

pub const RBC_VERSION: u16 = 1;

pub const HEADER_SIZE: usize = 16;

/// The registered atom tags; any other value is kept as `Unknown`.
#[derive(Debug, Clone, Copy, PartialEq, Eq, Structural)]
pub enum Tag {
    MainUuid,
    MainFsType,
    MainKernelParams,
    RecoveryUuid,
    RecoveryFsType,
    RecoveryKernelParams,
    Signature,
    Unknown(u16),
}

pub open spec fn tag_of(v: u16) -> Tag {
    if v == 0x01 {
        Tag::MainUuid
    } else if v == 0x02 {
        Tag::MainFsType
    } else if v == 0x03 {
        Tag::MainKernelParams
    } else if v == 0x10 {
        Tag::RecoveryUuid
    } else if v == 0x11 {
        Tag::RecoveryFsType
    } else if v == 0x12 {
        Tag::RecoveryKernelParams
    } else if v == 0xFF {
        Tag::Signature
    } else {
        Tag::Unknown(v)
    }
}

impl Tag {
    pub open spec fn code(self) -> u16 {
        match self {
            Tag::MainUuid => 0x01,
            Tag::MainFsType => 0x02,
            Tag::MainKernelParams => 0x03,
            Tag::RecoveryUuid => 0x10,
            Tag::RecoveryFsType => 0x11,
            Tag::RecoveryKernelParams => 0x12,
            Tag::Signature => 0xFF,
            Tag::Unknown(x) => x,
        }
    }

    pub fn from_u16(v: u16) -> (r: Tag)
        ensures
            r == tag_of(v),
    {
        match v {
            0x01 => Tag::MainUuid,
            0x02 => Tag::MainFsType,
            0x03 => Tag::MainKernelParams,
            0x10 => Tag::RecoveryUuid,
            0x11 => Tag::RecoveryFsType,
            0x12 => Tag::RecoveryKernelParams,
            0xFF => Tag::Signature,
            x => Tag::Unknown(x),
        }
    }

    pub fn as_u16(self) -> (r: u16)
        ensures
            r == self.code(),
    {
        match self {
            Tag::MainUuid => 0x01,
            Tag::MainFsType => 0x02,
            Tag::MainKernelParams => 0x03,
            Tag::RecoveryUuid => 0x10,
            Tag::RecoveryFsType => 0x11,
            Tag::RecoveryKernelParams => 0x12,
            Tag::Signature => 0xFF,
            Tag::Unknown(x) => x,
        }
    }
}

impl From<u16> for Tag {
    fn from(v: u16) -> (r: Tag) {
        Tag::from_u16(v)
    }
}

impl vstd::std_specs::convert::FromSpecImpl<u16> for Tag {
    open spec fn obeys_from_spec() -> bool {
        true
    }

    open spec fn from_spec(v: u16) -> Tag {
        tag_of(v)
    }
}

impl From<Tag> for u16 {
    fn from(t: Tag) -> (r: u16) {
        t.as_u16()
    }
}

impl vstd::std_specs::convert::FromSpecImpl<Tag> for u16 {
    open spec fn obeys_from_spec() -> bool {
        true
    }

    open spec fn from_spec(t: Tag) -> u16 {
        t.code()
    }
}

/// Decoding a tag and encoding it again gives back the raw value.
pub proof fn lemma_tag_code_round_trip(v: u16)
    ensures
        tag_of(v).code() == v,
{
}

/// File system kinds that a configuration may name.
#[derive(Debug, Clone, Copy, PartialEq, Eq, Structural)]
pub enum FsType {
    Btrfs,
    Ext4,
    Xfs,
    Zfs,
    F2fs,
    Bcachefs,
    Erofs,
    SquashFs,
    Fat12,
    Fat16,
    Fat32,
    ExFat,
    Ntfs,
    Apfs,
    HfsPlus,
    Unknown(u16),
}

pub open spec fn fs_type_of(v: u16) -> FsType {
    if v == 1 {
        FsType::Btrfs
    } else if v == 2 {
        FsType::Ext4
    } else if v == 3 {
        FsType::Xfs
    } else if v == 4 {
        FsType::Zfs
    } else if v == 5 {
        FsType::F2fs
    } else if v == 6 {
        FsType::Bcachefs
    } else if v == 10 {
        FsType::Erofs
    } else if v == 11 {
        FsType::SquashFs
    } else if v == 20 {
        FsType::Fat12
    } else if v == 21 {
        FsType::Fat16
    } else if v == 22 {
        FsType::Fat32
    } else if v == 23 {
        FsType::ExFat
    } else if v == 24 {
        FsType::Ntfs
    } else if v == 30 {
        FsType::Apfs
    } else if v == 31 {
        FsType::HfsPlus
    } else {
        FsType::Unknown(v)
    }
}

impl FsType {
    pub open spec fn code(self) -> u16 {
        match self {
            FsType::Btrfs => 1,
            FsType::Ext4 => 2,
            FsType::Xfs => 3,
            FsType::Zfs => 4,
            FsType::F2fs => 5,
            FsType::Bcachefs => 6,
            FsType::Erofs => 10,
            FsType::SquashFs => 11,
            FsType::Fat12 => 20,
            FsType::Fat16 => 21,
            FsType::Fat32 => 22,
            FsType::ExFat => 23,
            FsType::Ntfs => 24,
            FsType::Apfs => 30,
            FsType::HfsPlus => 31,
            FsType::Unknown(x) => x,
        }
    }

    pub fn from_u16(v: u16) -> (r: FsType)
        ensures
            r == fs_type_of(v),
    {
        match v {
            1 => FsType::Btrfs,
            2 => FsType::Ext4,
            3 => FsType::Xfs,
            4 => FsType::Zfs,
            5 => FsType::F2fs,
            6 => FsType::Bcachefs,
            10 => FsType::Erofs,
            11 => FsType::SquashFs,
            20 => FsType::Fat12,
            21 => FsType::Fat16,
            22 => FsType::Fat32,
            23 => FsType::ExFat,
            24 => FsType::Ntfs,
            30 => FsType::Apfs,
            31 => FsType::HfsPlus,
            x => FsType::Unknown(x),
        }
    }

    pub fn as_u16(self) -> (r: u16)
        ensures
            r == self.code(),
    {
        match self {
            FsType::Btrfs => 1,
            FsType::Ext4 => 2,
            FsType::Xfs => 3,
            FsType::Zfs => 4,
            FsType::F2fs => 5,
            FsType::Bcachefs => 6,
            FsType::Erofs => 10,
            FsType::SquashFs => 11,
            FsType::Fat12 => 20,
            FsType::Fat16 => 21,
            FsType::Fat32 => 22,
            FsType::ExFat => 23,
            FsType::Ntfs => 24,
            FsType::Apfs => 30,
            FsType::HfsPlus => 31,
            FsType::Unknown(x) => x,
        }
    }
}

impl From<u16> for FsType {
    fn from(v: u16) -> (r: FsType) {
        FsType::from_u16(v)
    }
}

impl vstd::std_specs::convert::FromSpecImpl<u16> for FsType {
    open spec fn obeys_from_spec() -> bool {
        true
    }

    open spec fn from_spec(v: u16) -> FsType {
        fs_type_of(v)
    }
}

impl From<FsType> for u16 {
    fn from(t: FsType) -> (r: u16) {
        t.as_u16()
    }
}

impl vstd::std_specs::convert::FromSpecImpl<FsType> for u16 {
    open spec fn obeys_from_spec() -> bool {
        true
    }

    open spec fn from_spec(t: FsType) -> u16 {
        t.code()
    }
}

#[derive(Debug, Clone, Copy, PartialEq, Eq, Structural)]
pub enum RbcError {
    BufferTooSmall,
    InvalidMagic,
    UnsupportedVersion,
    InvalidSize,
    OutOfBounds,
    Utf8Error,
    MalformedAtom,
    VerificationFailed,
    IoError,
    ProtocolError,
}

pub open spec fn has_rbc_magic(s: Seq<u8>) -> bool {
    s[0] == 0x52 && s[1] == 0x47 && s[2] == 0x4E && s[3] == 0x21
}

/// Why a blob's header is refused, if it is.
pub open spec fn header_error(s: Seq<u8>) -> Option<RbcError> {
    if s.len() < 16 {
        Some(RbcError::BufferTooSmall)
    } else if !has_rbc_magic(s) {
        Some(RbcError::InvalidMagic)
    } else if le16(s, 4) != 1 {
        Some(RbcError::UnsupportedVersion)
    } else if le32(s, 6) > s.len() {
        Some(RbcError::InvalidSize)
    } else {
        None
    }
}

/// The atoms found from offset `off` on, at most `count` of them: each is
/// its raw tag and its value bytes. A header or a value that would run
/// past the end ends the list.
pub open spec fn atoms_at(s: Seq<u8>, off: int, count: nat) -> Seq<(u16, Seq<u8>)>
    decreases count,
{
    if count == 0 || off < 0 || off + 4 > s.len() {
        seq![]
    } else if off + 4 + le16(s, off + 2) > s.len() {
        seq![]
    } else {
        let end = off + 4 + le16(s, off + 2);
        seq![(le16(s, off) as u16, s.subrange(off + 4, end))] + atoms_at(s, end, (count - 1) as nat)
    }
}

/// The value of the first atom whose tag is `t`.
pub open spec fn find_value(list: Seq<(u16, Seq<u8>)>, t: Tag) -> Option<Seq<u8>>
    decreases list.len(),
{
    if list.len() == 0 {
        None
    } else if tag_of(list[0].0) == t {
        Some(list[0].1)
    } else {
        find_value(list.drop_first(), t)
    }
}

/// The atoms of a blob whose header is valid.
pub open spec fn blob_atoms(s: Seq<u8>) -> Seq<(u16, Seq<u8>)> {
    atoms_at(s.subrange(0, le32(s, 6)), 16, le16(s, 10) as nat)
}

/// A 16-byte value stored under `t`; other lengths do not count.
pub open spec fn uuid_in(list: Seq<(u16, Seq<u8>)>, t: Tag) -> Option<Seq<u8>> {
    match find_value(list, t) {
        Some(v) => if v.len() == 16 { Some(v) } else { None },
        None => None,
    }
}

/// A 2-byte file system code stored under `t`; other lengths do not count.
pub open spec fn fs_type_in(list: Seq<(u16, Seq<u8>)>, t: Tag) -> Option<FsType> {
    match find_value(list, t) {
        Some(v) => if v.len() == 2 { Some(fs_type_of(le16(v, 0) as u16)) } else { None },
        None => None,
    }
}

/// The bytes that atoms take up: a 4-byte header and the value of each.
pub open spec fn atoms_size(list: Seq<(u16, Seq<u8>)>) -> int
    decreases list.len(),
{
    if list.len() == 0 {
        0
    } else {
        4 + list[0].1.len() + atoms_size(list.drop_first())
    }
}

/// The start of the last atom from `off` on, among at most `count`;
/// `prev` if there is none.
pub open spec fn last_atom_start(s: Seq<u8>, off: int, count: nat, prev: Option<int>) -> Option<int>
    decreases count,
{
    if count == 0 || off < 0 || off + 4 > s.len() || off + 4 + le16(s, off + 2) > s.len() {
        prev
    } else {
        last_atom_start(s, off + 4 + le16(s, off + 2), (count - 1) as nat, Some(off))
    }
}

/// For a blob whose last atom is the signature: the bytes before that atom
/// and the signature's value.
pub open spec fn signed_parts_of(s: Seq<u8>, count: nat) -> Option<(Seq<u8>, Seq<u8>)> {
    match last_atom_start(s, 16, count, None) {
        None => None,
        Some(k) => if le16(s, k) == 0xFF {
            Some((s.subrange(0, k), s.subrange(k + 4, k + 4 + le16(s, k + 2))))
        } else {
            None
        },
    }
}

/// `signed_parts_of` for a blob whose header is valid.
pub open spec fn blob_signed_parts(s: Seq<u8>) -> Option<(Seq<u8>, Seq<u8>)> {
    signed_parts_of(s.subrange(0, le32(s, 6)), le16(s, 10) as nat)
}

/// An atom whose header or value would run past the end ends the atoms:
/// the complete atoms before it are all there is.
pub proof fn lemma_truncated_atom_ends(s: Seq<u8>, off: int, count: nat)
    requires
        0 <= off,
        off + 4 > s.len() || off + 4 + le16(s, off + 2) > s.len(),
    ensures
        atoms_at(s, off, count).len() == 0,
{
}

/// What the signature check accepts: every signature, until a real
/// verifier is plugged in at `verify_signature`.
pub open spec fn signature_accepted(blob: Seq<u8>, signature: Seq<u8>) -> bool {
    true
}

/// Relies on `<&[u8; 16]>::try_from(&[u8])`: it succeeds exactly on
/// slices of sixteen bytes and views the same bytes.
#[verifier::external_body]
fn as_uuid_ref<'a>(s: &'a [u8]) -> (r: Option<&'a [u8; 16]>)
    ensures
        r.is_some() <==> s@.len() == 16,
        r matches Some(a) ==> a@ == s@,
{
    <&[u8; 16]>::try_from(s).ok()
}

/// Relies on `core::str::from_utf8`: it succeeds exactly on well-formed
/// UTF-8 and views the same bytes.
#[verifier::external_body]
fn utf8_str<'a>(b: &'a [u8]) -> (r: Option<&'a str>)
    ensures
        r.is_some() <==> valid_utf8(b@),
        r matches Some(s) ==> s.spec_bytes() == b@,
{
    core::str::from_utf8(b).ok()
}

/// One atom: its tag and a borrow of its value.
pub struct Atom<'a> {
    pub tag: Tag,
    pub value: &'a [u8],
}

/// Walks the atoms of a blob front to back.
pub struct AtomIterator<'a> {
    data: &'a [u8],
    offset: usize,
    remaining: u16,
}

impl<'a> AtomIterator<'a> {
    /// The atoms that are still to come.
    pub closed spec fn rest(self) -> Seq<(u16, Seq<u8>)> {
        atoms_at(self.data@, self.offset as int, self.remaining as nat)
    }

    pub fn next(&mut self) -> (r: Option<Atom<'a>>)
        ensures
            match r {
                None => old(self).rest().len() == 0 && final(self).rest().len() == 0,
                Some(a) => {
                    &&& old(self).rest().len() > 0
                    &&& a.tag == tag_of(old(self).rest()[0].0)
                    &&& a.value@ == old(self).rest()[0].1
                    &&& final(self).rest() == old(self).rest().drop_first()
                },
            },
    {
        if self.remaining == 0 {
            return None;
        }
        if self.offset > self.data.len() || self.data.len() - self.offset < 4 {
            return None;
        }
        let tag_raw = read_u16(self.data, self.offset);
        let length = read_u16(self.data, self.offset + 2) as usize;
        let value_start = self.offset + 4;
        if self.data.len() - value_start < length {
            return None;
        }
        let value_end = value_start + length;
        proof {
            let s = self.data@;
            let list = atoms_at(s, self.offset as int, self.remaining as nat);
            assert(list == seq![(tag_raw, s.subrange(value_start as int, value_end as int))]
                + atoms_at(s, value_end as int, (self.remaining - 1) as nat));
            assert(list.drop_first() =~= atoms_at(s, value_end as int, (self.remaining - 1) as nat));
        }
        self.offset = value_end;
        self.remaining = self.remaining - 1;
        Some(Atom { tag: Tag::from_u16(tag_raw), value: &self.data[value_start..value_end] })
    }
}

/// A validated, borrowed view of a blob, cut to its declared total size.
#[derive(Clone, Copy)]
pub struct ConfigView<'a> {
    data: &'a [u8],
    count: u16,
}

impl<'a> ConfigView<'a> {
    /// The blob's bytes, `total_size` of them.
    pub closed spec fn bytes(self) -> Seq<u8> {
        self.data@
    }

    /// The `atom_count` field of the header.
    pub closed spec fn atom_count(self) -> nat {
        self.count as nat
    }

    /// Every atom that the view yields, in order.
    pub open spec fn atom_list(self) -> Seq<(u16, Seq<u8>)> {
        atoms_at(self.bytes(), 16, self.atom_count())
    }

    pub open spec fn uuid_field(self, t: Tag) -> Option<Seq<u8>> {
        uuid_in(self.atom_list(), t)
    }

    pub open spec fn fs_type_field(self, t: Tag) -> Option<FsType> {
        fs_type_in(self.atom_list(), t)
    }

    /// Validates the header and views the first `total_size` bytes.
    pub fn new(data: &'a [u8]) -> (r: Result<Self, RbcError>)
        ensures
            match r {
                Err(e) => header_error(data@) == Some(e),
                Ok(v) => {
                    &&& header_error(data@).is_none()
                    &&& v.bytes() == data@.subrange(0, le32(data@, 6))
                    &&& v.atom_count() == le16(data@, 10)
                    &&& v.atom_list() == blob_atoms(data@)
                },
            },
    {
        if data.len() < HEADER_SIZE {
            return Err(RbcError::BufferTooSmall);
        }
        if data[0] != 0x52 || data[1] != 0x47 || data[2] != 0x4E || data[3] != 0x21 {
            return Err(RbcError::InvalidMagic);
        }
        let version = read_u16(data, 4);
        if version != RBC_VERSION {
            return Err(RbcError::UnsupportedVersion);
        }
        let total_size = read_u32(data, 6) as usize;
        if data.len() < total_size {
            return Err(RbcError::InvalidSize);
        }
        let count = read_u16(data, 10);
        Ok(ConfigView { data: &data[0..total_size], count })
    }

    pub fn atoms(&self) -> (r: AtomIterator<'a>)
        ensures
            r.rest() == self.atom_list(),
    {
        AtomIterator { data: self.data, offset: HEADER_SIZE, remaining: self.count }
    }

    /// The value of the first atom tagged `target`.
    fn find_atom(&self, target: Tag) -> (r: Option<&'a [u8]>)
        ensures
            match r {
                Some(v) => find_value(self.atom_list(), target) == Some(v@),
                None => find_value(self.atom_list(), target).is_none(),
            },
    {
        let mut it = self.atoms();
        loop
            invariant
                find_value(it.rest(), target) == find_value(self.atom_list(), target),
            decreases it.rest().len(),
        {
            match it.next() {
                None => {
                    return None;
                },
                Some(a) => {
                    if a.tag == target {
                        return Some(a.value);
                    }
                },
            }
        }
    }

    fn find_uuid(&self, target: Tag) -> (r: Option<&'a [u8; 16]>)
        ensures
            match r {
                Some(a) => self.uuid_field(target) == Some(a@),
                None => self.uuid_field(target).is_none(),
            },
    {
        match self.find_atom(target) {
            Some(val) => as_uuid_ref(val),
            None => None,
        }
    }

    fn find_fs_type(&self, target: Tag) -> (r: Option<FsType>)
        ensures
            r == self.fs_type_field(target),
    {
        match self.find_atom(target) {
            Some(val) => {
                if val.len() == 2 {
                    Some(FsType::from_u16(read_u16(val, 0)))
                } else {
                    None
                }
            },
            None => None,
        }
    }

    fn find_text(&self, target: Tag) -> (r: Result<Option<&'a str>, RbcError>)
        ensures
            match find_value(self.atom_list(), target) {
                None => r == Ok::<Option<&'a str>, RbcError>(None),
                Some(v) => match r {
                    Ok(Some(s)) => valid_utf8(v) && s.spec_bytes() == v,
                    Ok(None) => false,
                    Err(e) => !valid_utf8(v) && e == RbcError::Utf8Error,
                },
            },
    {
        match self.find_atom(target) {
            Some(bytes) => match utf8_str(bytes) {
                Some(s) => Ok(Some(s)),
                None => Err(RbcError::Utf8Error),
            },
            None => Ok(None),
        }
    }

    pub fn get_main_uuid(&self) -> (r: Option<&'a [u8; 16]>)
        ensures
            match r {
                Some(a) => self.uuid_field(Tag::MainUuid) == Some(a@),
                None => self.uuid_field(Tag::MainUuid).is_none(),
            },
    {
        self.find_uuid(Tag::MainUuid)
    }

    pub fn get_main_fs_type(&self) -> (r: Option<FsType>)
        ensures
            r == self.fs_type_field(Tag::MainFsType),
    {
        self.find_fs_type(Tag::MainFsType)
    }

    pub fn get_main_kernel_params(&self) -> (r: Result<Option<&'a str>, RbcError>)
        ensures
            match find_value(self.atom_list(), Tag::MainKernelParams) {
                None => r == Ok::<Option<&'a str>, RbcError>(None),
                Some(v) => match r {
                    Ok(Some(s)) => valid_utf8(v) && s.spec_bytes() == v,
                    Ok(None) => false,
                    Err(e) => !valid_utf8(v) && e == RbcError::Utf8Error,
                },
            },
    {
        self.find_text(Tag::MainKernelParams)
    }

    pub fn get_recovery_uuid(&self) -> (r: Option<&'a [u8; 16]>)
        ensures
            match r {
                Some(a) => self.uuid_field(Tag::RecoveryUuid) == Some(a@),
                None => self.uuid_field(Tag::RecoveryUuid).is_none(),
            },
    {
        self.find_uuid(Tag::RecoveryUuid)
    }

    pub fn get_recovery_fs_type(&self) -> (r: Option<FsType>)
        ensures
            r == self.fs_type_field(Tag::RecoveryFsType),
    {
        self.find_fs_type(Tag::RecoveryFsType)
    }

    pub fn get_recovery_kernel_params(&self) -> (r: Result<Option<&'a str>, RbcError>)
        ensures
            match find_value(self.atom_list(), Tag::RecoveryKernelParams) {
                None => r == Ok::<Option<&'a str>, RbcError>(None),
                Some(v) => match r {
                    Ok(Some(s)) => valid_utf8(v) && s.spec_bytes() == v,
                    Ok(None) => false,
                    Err(e) => !valid_utf8(v) && e == RbcError::Utf8Error,
                },
            },
    {
        self.find_text(Tag::RecoveryKernelParams)
    }

    /// The bytes before the last atom and that atom's value, if the last
    /// atom is the signature.
    pub fn signed_parts(&self) -> (r: Option<(&'a [u8], &'a [u8])>)
        ensures
            match r {
                Some((signed, sig)) => signed_parts_of(self.bytes(), self.atom_count()) == Some((signed@, sig@)),
                None => signed_parts_of(self.bytes(), self.atom_count()).is_none(),
            },
    {
        let ghost s = self.data@;
        let len = self.data.len();
        let mut off: usize = HEADER_SIZE;
        let mut rem: u16 = self.count;
        let mut last: Option<usize> = None;
        loop
            invariant
                len == s.len(),
                s == self.data@,
                off >= 16,
                last matches Some(k) ==> k + 4 <= s.len() && k + 4 + le16(s, k + 2) <= s.len(),
                last_atom_start(s, 16, self.count as nat, None) == last_atom_start(
                    s,
                    off as int,
                    rem as nat,
                    match last {
                        Some(k) => Some(k as int),
                        None => None,
                    },
                ),
            ensures
                last_atom_start(s, 16, self.count as nat, None) == match last {
                    Some(k) => Some(k as int),
                    None => None::<int>,
                },
                last matches Some(k) ==> k + 4 <= s.len() && k + 4 + le16(s, k + 2) <= s.len(),
            decreases rem,
        {
            if rem == 0 || off > len || len - off < 4 {
                break;
            }
            let l = read_u16(self.data, off + 2) as usize;
            if len - off - 4 < l {
                break;
            }
            last = Some(off);
            off = off + 4 + l;
            rem = rem - 1;
        }
        match last {
            None => None,
            Some(k) => {
                let tag = read_u16(self.data, k);
                let l = read_u16(self.data, k + 2) as usize;
                if tag == 0xFF {
                    Some((&self.data[0..k], &self.data[k + 4..k + 4 + l]))
                } else {
                    None
                }
            },
        }
    }

    pub fn get_signature(&self) -> (r: Option<&'a [u8]>)
        ensures
            match r {
                Some(v) => find_value(self.atom_list(), Tag::Signature) == Some(v@),
                None => find_value(self.atom_list(), Tag::Signature).is_none(),
            },
    {
        self.find_atom(Tag::Signature)
    }
}

/// The hook where a signature is checked against the blob it covers.
pub fn verify_signature(blob: &[u8], signature: &[u8]) -> (r: bool)
    ensures
        r == signature_accepted(blob@, signature@),
{
    true
}

/// Owns a blob's bytes and hands out views of it.
pub struct OwnedConfig {
    data: Vec<u8>,
}

impl OwnedConfig {
    pub closed spec fn bytes(self) -> Seq<u8> {
        self.data@
    }

    pub fn new(data: Vec<u8>) -> (r: Self)
        ensures
            r.bytes() == data@,
    {
        OwnedConfig { data }
    }

    pub fn view(&self) -> (r: ConfigView<'_>)
        requires
            header_error(self.bytes()).is_none(),
        ensures
            r.bytes() == self.bytes().subrange(0, le32(self.bytes(), 6)),
            r.atom_count() == le16(self.bytes(), 10),
            r.atom_list() == blob_atoms(self.bytes()),
    {
        let r = ConfigView::new(self.data.as_slice());
        r.unwrap()
    }

    pub fn get_main_uuid(&self) -> (r: Option<&[u8; 16]>)
        requires
            header_error(self.bytes()).is_none(),
        ensures
            match r {
                Some(a) => uuid_in(blob_atoms(self.bytes()), Tag::MainUuid) == Some(a@),
                None => uuid_in(blob_atoms(self.bytes()), Tag::MainUuid).is_none(),
            },
    {
        self.view().get_main_uuid()
    }

    pub fn get_main_fs_type(&self) -> (r: Option<FsType>)
        requires
            header_error(self.bytes()).is_none(),
        ensures
            r == fs_type_in(blob_atoms(self.bytes()), Tag::MainFsType),
    {
        self.view().get_main_fs_type()
    }

    pub fn get_main_kernel_params(&self) -> (r: Result<Option<&str>, RbcError>)
        requires
            header_error(self.bytes()).is_none(),
        ensures
            match find_value(blob_atoms(self.bytes()), Tag::MainKernelParams) {
                None => r == Ok::<Option<&str>, RbcError>(None),
                Some(v) => match r {
                    Ok(Some(s)) => valid_utf8(v) && s.spec_bytes() == v,
                    Ok(None) => false,
                    Err(e) => !valid_utf8(v) && e == RbcError::Utf8Error,
                },
            },
    {
        let v = self.view();
        v.get_main_kernel_params()
    }
}

/// Checks a blob read from storage: its header, a signature atom that is
/// the last atom, and the signature over the bytes before that atom.
pub fn verify_and_load(buffer: Vec<u8>) -> (r: Result<OwnedConfig, RbcError>)
    ensures
        match r {
            Ok(c) => {
                &&& c.bytes() == buffer@
                &&& header_error(buffer@).is_none()
                &&& blob_signed_parts(buffer@) matches Some((signed, sig))
                &&& signature_accepted(signed, sig)
            },
            Err(e) => match header_error(buffer@) {
                Some(h) => e == h,
                None => {
                    &&& e == RbcError::VerificationFailed
                    &&& blob_signed_parts(buffer@) matches Some((signed, sig)) ==> !signature_accepted(signed, sig)
                },
            },
        },
{
    let accepted = {
        let view = match ConfigView::new(buffer.as_slice()) {
            Ok(v) => v,
            Err(e) => {
                return Err(e);
            },
        };
        match view.signed_parts() {
            Some((signed, sig)) => verify_signature(signed, sig),
            None => false,
        }
    };
    if accepted {
        Ok(OwnedConfig::new(buffer))
    } else {
        Err(RbcError::VerificationFailed)
    }
}

/// The two little-endian bytes of `x`.
pub open spec fn u16_bytes(x: int) -> Seq<u8> {
    seq![(x % 256) as u8, (x / 256) as u8]
}

pub open spec fn u32_bytes(x: int) -> Seq<u8> {
    u16_bytes(x % 65536) + u16_bytes(x / 65536)
}

/// One atom as stored: tag, length, value.
pub open spec fn atom_bytes(tag: Tag, value: Seq<u8>) -> Seq<u8> {
    u16_bytes(tag.code() as int) + u16_bytes(value.len() as int) + value
}

pub open spec fn atoms_bytes(atoms: Seq<(Tag, Vec<u8>)>) -> Seq<u8>
    decreases atoms.len(),
{
    if atoms.len() == 0 {
        seq![]
    } else {
        atom_bytes(atoms[0].0, atoms[0].1@) + atoms_bytes(atoms.drop_first())
    }
}

/// A blob holding `atoms` in order behind a version-1 header.
pub open spec fn blob_bytes(atoms: Seq<(Tag, Vec<u8>)>) -> Seq<u8> {
    seq![0x52u8, 0x47u8, 0x4Eu8, 0x21u8] + u16_bytes(1) + u32_bytes(16 + atoms_bytes(atoms).len() as int)
        + u16_bytes(atoms.len() as int) + seq![0u8, 0u8, 0u8, 0u8] + atoms_bytes(atoms)
}

proof fn lemma_atoms_bytes_push(atoms: Seq<(Tag, Vec<u8>)>, a: (Tag, Vec<u8>))
    ensures
        atoms_bytes(atoms.push(a)) == atoms_bytes(atoms) + atom_bytes(a.0, a.1@),
    decreases atoms.len(),
{
    if atoms.len() == 0 {
        assert(atoms.push(a).drop_first() =~= atoms);
        assert(atoms_bytes(atoms) == Seq::<u8>::empty());
        assert(atoms_bytes(atoms.push(a)) =~= atom_bytes(a.0, a.1@));
    } else {
        assert(atoms.push(a).drop_first() =~= atoms.drop_first().push(a));
        lemma_atoms_bytes_push(atoms.drop_first(), a);
        assert(atoms_bytes(atoms.push(a)) =~= atoms_bytes(atoms) + atom_bytes(a.0, a.1@));
    }
}

fn push_le16(out: &mut Vec<u8>, v: u16)
    ensures
        final(out)@ == old(out)@ + u16_bytes(v as int),
{
    out.push((v % 256) as u8);
    out.push((v / 256) as u8);
    assert(final(out)@ =~= old(out)@ + u16_bytes(v as int));
}

/// Serialises atoms into a blob, in the order given. A value over 65535
/// bytes, more than 65535 atoms, or a total over `u32::MAX` bytes cannot
/// be stored.
pub fn encode_config(atoms: &Vec<(Tag, Vec<u8>)>) -> (r: Result<Vec<u8>, RbcError>)
    ensures
        match r {
            Ok(blob) => blob@ == blob_bytes(atoms@),
            Err(e) => {
                ||| e == RbcError::MalformedAtom && (atoms@.len() > 65535 || exists|i: int|
                    0 <= i < atoms@.len() && (#[trigger] atoms@[i]).1@.len() > 65535)
                ||| e == RbcError::InvalidSize && 16 + atoms_bytes(atoms@).len() > u32::MAX
            },
        },
{
    if atoms.len() > 65535 {
        return Err(RbcError::MalformedAtom);
    }
    let mut body: Vec<u8> = Vec::new();
    let mut i: usize = 0;
    while i < atoms.len()
        invariant
            0 <= i <= atoms@.len(),
            atoms@.len() <= 65535,
            body@ == atoms_bytes(atoms@.subrange(0, i as int)),
        decreases atoms@.len() - i,
    {
        let value = &atoms[i].1;
        if value.len() > 65535 {
            return Err(RbcError::MalformedAtom);
        }
        if body.len() > 0xFFFF_FFFF - 16 {
            proof {
                lemma_atoms_bytes_push(atoms@.subrange(0, i as int), atoms@[i as int]);
                assert(atoms@.subrange(0, i + 1) =~= atoms@.subrange(0, i as int).push(atoms@[i as int]));
                lemma_atoms_bytes_grow(atoms@, i as int);
            }
            return Err(RbcError::InvalidSize);
        }
        proof {
            lemma_atoms_bytes_push(atoms@.subrange(0, i as int), atoms@[i as int]);
            assert(atoms@.subrange(0, i + 1) =~= atoms@.subrange(0, i as int).push(atoms@[i as int]));
        }
        let ghost before = body@;
        push_le16(&mut body, atoms[i].0.as_u16());
        push_le16(&mut body, value.len() as u16);
        let mut k: usize = 0;
        while k < value.len()
            invariant
                0 <= k <= value@.len(),
                i < atoms@.len(),
                *value == atoms@[i as int].1,
                body@ == before + u16_bytes(atoms@[i as int].0.code() as int) + u16_bytes(value@.len() as int)
                    + value@.subrange(0, k as int),
            decreases value@.len() - k,
        {
            body.push(value[k]);
            assert(value@.subrange(0, k + 1) =~= value@.subrange(0, k as int).push(value@[k as int]));
            k = k + 1;
        }
        assert(value@.subrange(0, value@.len() as int) =~= value@);
        assert(body@ =~= atoms_bytes(atoms@.subrange(0, i + 1)));
        i = i + 1;
    }
    assert(atoms@.subrange(0, atoms@.len() as int) =~= atoms@);
    if body.len() > 0xFFFF_FFFF - 16 {
        return Err(RbcError::InvalidSize);
    }
    let total = (16 + body.len()) as u32;
    let mut out: Vec<u8> = Vec::new();
    out.push(0x52);
    out.push(0x47);
    out.push(0x4E);
    out.push(0x21);
    push_le16(&mut out, 1);
    push_le16(&mut out, (total % 65536) as u16);
    push_le16(&mut out, (total / 65536) as u16);
    push_le16(&mut out, atoms.len() as u16);
    out.push(0);
    out.push(0);
    out.push(0);
    out.push(0);
    let ghost head = out@;
    let mut k: usize = 0;
    while k < body.len()
        invariant
            0 <= k <= body@.len(),
            out@ == head + body@.subrange(0, k as int),
        decreases body@.len() - k,
    {
        out.push(body[k]);
        assert(body@.subrange(0, k + 1) =~= body@.subrange(0, k as int).push(body@[k as int]));
        k = k + 1;
    }
    assert(body@.subrange(0, body@.len() as int) =~= body@);
    assert(out@ =~= blob_bytes(atoms@));
    Ok(out)
}

/// The encoded atoms of a prefix are no longer than those of the whole.
proof fn lemma_atoms_bytes_grow(atoms: Seq<(Tag, Vec<u8>)>, i: int)
    requires
        0 <= i < atoms.len(),
    ensures
        atoms_bytes(atoms.subrange(0, i + 1)).len() <= atoms_bytes(atoms).len(),
    decreases atoms.len() - i,
{
    if i + 1 == atoms.len() {
        assert(atoms.subrange(0, i + 1) =~= atoms);
    } else {
        lemma_atoms_bytes_grow(atoms, i + 1);
        lemma_atoms_bytes_push(atoms.subrange(0, i + 1), atoms[i + 1]);
        assert(atoms.subrange(0, i + 2) =~= atoms.subrange(0, i + 1).push(atoms[i + 1]));
    }
}

/// Atoms as the reader reports them: raw tag and value bytes.
pub open spec fn atom_views(atoms: Seq<(Tag, Vec<u8>)>) -> Seq<(u16, Seq<u8>)> {
    atoms.map_values(|a: (Tag, Vec<u8>)| (a.0.code(), a.1@))
}

proof fn lemma_u16_bytes(s: Seq<u8>, i: int, x: int)
    requires
        0 <= x < 65536,
        0 <= i,
        i + 2 <= s.len(),
        s.subrange(i, i + 2) == u16_bytes(x),
    ensures
        le16(s, i) == x,
{
    assert(s[i] == s.subrange(i, i + 2)[0]);
    assert(s[i + 1] == s.subrange(i, i + 2)[1]);
    assert((x % 256) + 256 * (x / 256) == x) by (nonlinear_arith)
        requires
            0 <= x,
    ;
}

proof fn lemma_atoms_read_back(pre: Seq<u8>, atoms: Seq<(Tag, Vec<u8>)>)
    requires
        forall|i: int| 0 <= i < atoms.len() ==> (#[trigger] atoms[i]).1@.len() <= 65535,
    ensures
        atoms_at(pre + atoms_bytes(atoms), pre.len() as int, atoms.len()) == atom_views(atoms),
    decreases atoms.len(),
{
    let s = pre + atoms_bytes(atoms);
    let off = pre.len() as int;
    if atoms.len() == 0 {
        assert(atom_views(atoms) =~= Seq::<(u16, Seq<u8>)>::empty());
    } else {
        let a = atoms[0];
        let rest = atoms.drop_first();
        let ab = atom_bytes(a.0, a.1@);
        assert(atoms_bytes(atoms) == ab + atoms_bytes(rest));
        assert(s =~= (pre + ab) + atoms_bytes(rest));
        assert(s.subrange(off, off + 2) =~= u16_bytes(a.0.code() as int));
        assert(s.subrange(off + 2, off + 4) =~= u16_bytes(a.1@.len() as int));
        lemma_u16_bytes(s, off, a.0.code() as int);
        lemma_u16_bytes(s, off + 2, a.1@.len() as int);
        assert(s.subrange(off + 4, off + 4 + a.1@.len()) =~= a.1@);
        assert forall|i: int| 0 <= i < rest.len() implies (#[trigger] rest[i]).1@.len() <= 65535 by {
            assert(rest[i] == atoms[i + 1]);
        }
        lemma_atoms_read_back(pre + ab, rest);
        assert((pre + ab).len() == off + 4 + a.1@.len());
        assert(atom_views(atoms) =~= seq![(a.0.code(), a.1@)] + atom_views(rest));
    }
}

/// A blob that `encode_config` can produce reads back as the atoms it was
/// made from, in order, with nothing lost.
pub proof fn lemma_encode_round_trip(atoms: Seq<(Tag, Vec<u8>)>)
    requires
        atoms.len() <= 65535,
        forall|i: int| 0 <= i < atoms.len() ==> (#[trigger] atoms[i]).1@.len() <= 65535,
        16 + atoms_bytes(atoms).len() <= u32::MAX,
    ensures
        header_error(blob_bytes(atoms)).is_none(),
        blob_atoms(blob_bytes(atoms)) == atom_views(atoms),
{
    let body = atoms_bytes(atoms);
    let total: int = 16 + body.len() as int;
    let head = seq![0x52u8, 0x47u8, 0x4Eu8, 0x21u8] + u16_bytes(1) + u32_bytes(total as int)
        + u16_bytes(atoms.len() as int) + seq![0u8, 0u8, 0u8, 0u8];
    let b = blob_bytes(atoms);
    assert(b =~= head + body);
    assert(head.len() == 16);
    assert(b.subrange(4, 6) =~= u16_bytes(1));
    lemma_u16_bytes(b, 4, 1);
    assert(b.subrange(6, 8) =~= u16_bytes(total % 65536));
    assert(b.subrange(8, 10) =~= u16_bytes(total / 65536));
    lemma_u16_bytes(b, 6, total % 65536);
    lemma_u16_bytes(b, 8, total / 65536);
    assert(total % 65536 + 65536 * (total / 65536) == total) by (nonlinear_arith)
        requires
            0 <= total,
    ;
    assert(le32(b, 6) == total);
    assert(b.subrange(10, 12) =~= u16_bytes(atoms.len() as int));
    lemma_u16_bytes(b, 10, atoms.len() as int);
    assert(b[0] == 0x52 && b[1] == 0x47 && b[2] == 0x4E && b[3] == 0x21);
    assert(b.subrange(0, le32(b, 6)) =~= b);
    lemma_atoms_read_back(head, atoms);
}

/// Whatever the blob, its atoms number at most `atom_count` and, headers
/// included, fit in the `total_size - 16` bytes after the header.
pub proof fn lemma_atoms_fit(v: ConfigView)
    requires
        v.bytes().len() >= 16,
    ensures
        v.atom_list().len() <= v.atom_count(),
        atoms_size(v.atom_list()) <= v.bytes().len() - 16,
{
    lemma_atoms_at_fit(v.bytes(), 16, v.atom_count());
}

proof fn lemma_atoms_at_fit(s: Seq<u8>, off: int, count: nat)
    requires
        0 <= off <= s.len(),
    ensures
        atoms_at(s, off, count).len() <= count,
        atoms_size(atoms_at(s, off, count)) <= s.len() - off,
    decreases count,
{
    let list = atoms_at(s, off, count);
    if count == 0 || off + 4 > s.len() || off + 4 + le16(s, off + 2) > s.len() {
    } else {
        let end = off + 4 + le16(s, off + 2);
        lemma_atoms_at_fit(s, end, (count - 1) as nat);
        assert(list.drop_first() =~= atoms_at(s, end, (count - 1) as nat));
    }
}

} // verus!
