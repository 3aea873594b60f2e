//! The RDF recovery stream: a 128-byte header found by scanning bulk
//! packets for `RDF!`, then the image, checked against the header's
//! SHA-256. The receiver decides; the caller moves the bytes.
use vstd::prelude::*;
use crate::bytes::{le64, read_u64, read_array};
use crate::error::FwError;

verus! {

pub const RDF_HEADER_SIZE: usize = 128;

/// Bytes asked for per bulk read, while scanning and while streaming.
pub const RDF_CHUNK_SIZE: usize = 65536;

pub const RDF_MAX_RETRIES: u32 = 5;

pub const RDF_SCAN_TIMEOUT_MS: u32 = 1000;

pub const RDF_CHUNK_TIMEOUT_MS: u32 = 5000;

pub const RDF_RETRY_STALL_US: u32 = 50000;

pub open spec fn rdf_magic() -> Seq<u8> {
    seq![0x52u8, 0x44u8, 0x46u8, 0x21u8]
}

/// The SHA-256 digest of some bytes.
pub uninterp spec fn sha256_of(b: Seq<u8>) -> Seq<u8>;

/// Relies on `sha2::Sha256::digest`: the digest of the bytes, 32 bytes
/// long.
#[verifier::external_body]
pub(crate) fn sha256(data: &[u8]) -> (r: Vec<u8>)
    ensures
        r@ == sha256_of(data@),
        r@.len() == 32,
{
    <sha2::Sha256 as sha2::Digest>::digest(data).to_vec()
}

/// The RDF header: magic, image size, SHA-256 of the image, target
/// subvolume name, reserved bytes.
#[derive(Debug, Clone, Copy)]
pub struct RdfHeader {
    pub magic: [u8; 4],
    pub image_size: u64,
    pub checksum: [u8; 32],
    pub target_subvolume: [u8; 64],
    pub reserved: [u8; 20],
}

impl Default for RdfHeader {
    fn default() -> (r: Self)
        ensures
            r.magic@ == seq![0u8, 0u8, 0u8, 0u8],
            r.image_size == 0,
            forall|i: int| 0 <= i < 32 ==> r.checksum@[i] == 0,
            forall|i: int| 0 <= i < 64 ==> r.target_subvolume@[i] == 0,
            forall|i: int| 0 <= i < 20 ==> r.reserved@[i] == 0,
    {
        let r = RdfHeader {
            magic: [0u8; 4],
            image_size: 0,
            checksum: [0u8; 32],
            target_subvolume: [0u8; 64],
            reserved: [0u8; 20],
        };
        assert(r.magic@ =~= seq![0u8, 0u8, 0u8, 0u8]);
        r
    }
}

impl RdfHeader {
    pub fn is_valid(&self) -> (r: bool)
        ensures
            r == (self.magic@ == rdf_magic()),
    {
        let r = self.magic[0] == 0x52 && self.magic[1] == 0x44 && self.magic[2] == 0x46 && self.magic[3] == 0x21;
        proof {
            if r {
                assert(self.magic@ =~= rdf_magic());
            } else {
                assert(self.magic@ != rdf_magic()) by {
                    if self.magic@ == rdf_magic() {
                        assert(self.magic@[0] == 0x52);
                    }
                }
            }
        }
        r
    }

    /// Decodes the header that starts at `off`.
    pub fn parse(b: &[u8], off: usize) -> (r: Self)
        requires
            off + RDF_HEADER_SIZE <= b.len(),
        ensures
            r.magic@ == b@.subrange(off as int, off + 4),
            r.image_size == le64(b@, off + 4),
            r.checksum@ == b@.subrange(off + 12, off + 44),
            r.target_subvolume@ == b@.subrange(off + 44, off + 108),
            r.reserved@ == b@.subrange(off + 108, off + 128),
    {
        RdfHeader {
            magic: read_array::<4>(b, off),
            image_size: read_u64(b, off + 4),
            checksum: read_array::<32>(b, off + 12),
            target_subvolume: read_array::<64>(b, off + 44),
            reserved: read_array::<20>(b, off + 108),
        }
    }
}

/// What the caller does after a step, as the receiver hands it out.
pub enum RdfStep {
    /// Read again, as `next_read` says.
    Continue,
    /// Wait this many microseconds, then read again.
    Stall(u32),
    /// The image, its checksum verified.
    Complete(Vec<u8>),
    Fail(FwError),
}

pub open spec fn step_view(st: RdfStep) -> RxOutcome {
    match st {
        RdfStep::Continue => RxOutcome::Continue,
        RdfStep::Stall(_) => RxOutcome::Stall,
        RdfStep::Complete(v) => RxOutcome::Complete(v@),
        RdfStep::Fail(e) => RxOutcome::Fail(e),
    }
}

/// Hands `image` back if its digest is the expected one; otherwise the
/// image is dropped.
pub fn check_image(image: Vec<u8>, expected: &[u8], digest: &[u8]) -> (r: Result<Vec<u8>, FwError>)
    ensures
        digest@ == expected@ ==> (r matches Ok(v) && v@ == image@),
        digest@ != expected@ ==> r == Err::<Vec<u8>, FwError>(FwError::CrcError),
{
    if digest.len() != expected.len() {
        return Err(FwError::CrcError);
    }
    let mut i: usize = 0;
    while i < digest.len()
        invariant
            digest@.len() == expected@.len(),
            0 <= i <= digest@.len(),
            forall|k: int| 0 <= k < i ==> digest@[k] == expected@[k],
        decreases digest@.len() - i,
    {
        if digest[i] != expected[i] {
            return Err(FwError::CrcError);
        }
        i = i + 1;
    }
    assert(digest@ =~= expected@);
    Ok(image)
}

fn magic_byte(i: usize) -> (r: u8)
    requires
        i < 4,
    ensures
        r == rdf_magic()[i as int],
{
    if i == 0 {
        0x52
    } else if i == 1 {
        0x44
    } else if i == 2 {
        0x46
    } else {
        0x21
    }
}

/// Whether `p[k..k + 4]` is the magic.
fn magic_at(p: &[u8], k: usize) -> (r: bool)
    requires
        k + 4 <= p.len(),
    ensures
        r == is_magic_at(p@, k as int),
{
    let r = p[k] == 0x52 && p[k + 1] == 0x44 && p[k + 2] == 0x46 && p[k + 3] == 0x21;
    proof {
        if r {
            assert(p@.subrange(k as int, k + 4) =~= rdf_magic());
        } else if p@.subrange(k as int, k + 4) == rdf_magic() {
            assert(p@.subrange(k as int, k + 4)[0] == p@[k as int]);
            assert(p@.subrange(k as int, k + 4)[1] == p@[k + 1]);
            assert(p@.subrange(k as int, k + 4)[2] == p@[k + 2]);
            assert(p@.subrange(k as int, k + 4)[3] == p@[k + 3]);
        }
    }
    r
}

/// The first position of the magic in a packet.
pub fn find_magic(p: &[u8]) -> (r: Option<usize>)
    ensures
        match r {
            Some(k) => magic_from(p@, 0) == Some(k as int) && k + 4 <= p@.len(),
            None => magic_from(p@, 0).is_none(),
        },
{
    let mut k: usize = 0;
    while k < p.len() && p.len() - k >= 4
        invariant
            0 <= k,
            magic_from(p@, 0) == magic_from(p@, k as int),
        decreases p@.len() - k,
    {
        if magic_at(p, k) {
            return Some(k);
        }
        k = k + 1;
    }
    None
}

/// Whether the bytes of `p` from `start` match the magic from `from` on,
/// up to its end.
fn matches_magic_tail(p: &[u8], start: usize, from: usize) -> (r: bool)
    requires
        from < 4,
        start + (4 - from) <= p.len(),
    ensures
        r == (p@.subrange(start as int, start + 4 - from) == rdf_magic().subrange(from as int, 4)),
{
    let n = 4 - from;
    let mut j: usize = 0;
    while j < n
        invariant
            from < 4,
            n == 4 - from,
            start + n <= p.len(),
            0 <= j <= n,
            forall|t: int| 0 <= t < j ==> #[trigger] p@[start + t] == rdf_magic()[from + t],
        decreases n - j,
    {
        if p[start + j] != magic_byte(from + j) {
            proof {
                let a = p@.subrange(start as int, start + 4 - from);
                let b = rdf_magic().subrange(from as int, 4);
                assert(a[j as int] != b[j as int]);
            }
            return false;
        }
        j = j + 1;
    }
    let ghost a = p@.subrange(start as int, start + 4 - from);
    let ghost b = rdf_magic().subrange(from as int, 4);
    assert forall|t: int| 0 <= t < a.len() implies a[t] == b[t] by {
        assert(p@[start + t] == rdf_magic()[from + t]);
    }
    assert(a =~= b);
    true
}

fn carry_of(p: &[u8]) -> (r: u8)
    ensures
        r as nat == magic_carry(p@),
{
    let n = p.len();
    if n >= 3 && matches_magic_tail_prefix(p, n - 3, 3) {
        3
    } else if n >= 2 && matches_magic_tail_prefix(p, n - 2, 2) {
        2
    } else if n >= 1 && p[n - 1] == 0x52 {
        1
    } else {
        0
    }
}

/// Whether `p[start..start + len]` is the first `len` bytes of the magic.
fn matches_magic_tail_prefix(p: &[u8], start: usize, len: usize) -> (r: bool)
    requires
        len <= 4,
        start + len <= p.len(),
    ensures
        r == (p@.subrange(start as int, start + len) == rdf_magic().subrange(0, len as int)),
{
    let mut j: usize = 0;
    while j < len
        invariant
            len <= 4,
            start + len <= p.len(),
            0 <= j <= len,
            forall|t: int| 0 <= t < j ==> #[trigger] p@[start + t] == rdf_magic()[t],
        decreases len - j,
    {
        if p[start + j] != magic_byte(j) {
            proof {
                let a = p@.subrange(start as int, start + len);
                let b = rdf_magic().subrange(0, len as int);
                assert(a[j as int] != b[j as int]);
            }
            return false;
        }
        j = j + 1;
    }
    let ghost a = p@.subrange(start as int, start + len);
    let ghost b = rdf_magic().subrange(0, len as int);
    assert forall|t: int| 0 <= t < a.len() implies a[t] == b[t] by {
        assert(p@[start + t] == rdf_magic()[t]);
    }
    assert(a =~= b);
    true
}

fn append_bytes(v: &mut Vec<u8>, s: &[u8])
    ensures
        final(v)@ == old(v)@ + s@,
{
    let mut i: usize = 0;
    while i < s.len()
        invariant
            0 <= i <= s@.len(),
            v@ == old(v)@ + s@.subrange(0, i as int),
        decreases s@.len() - i,
    {
        v.push(s[i]);
        assert(s@.subrange(0, i + 1) =~= s@.subrange(0, i as int).push(s@[i as int]));
        i = i + 1;
    }
    assert(s@.subrange(0, s@.len() as int) =~= s@);
}

/// Receives an RDF stream packet by packet.
pub struct RdfReceiver {
    phase: u8,
    carry: u8,
    image_size: u64,
    expected: Vec<u8>,
    image: Vec<u8>,
    retries: u32,
}

impl RdfReceiver {
    pub closed spec fn model(self) -> RxModel {
        RxModel {
            phase: self.phase as int,
            carry: self.carry as nat,
            size: self.image_size as nat,
            expected: self.expected@,
            image: self.image@,
            retries: self.retries as nat,
        }
    }

    pub closed spec fn inv(self) -> bool {
        self.phase <= 2 && self.carry < 4 && self.retries < 5
    }

    pub fn new() -> (r: Self)
        ensures
            r.inv(),
            r.model() == rx_initial(),
    {
        let r = RdfReceiver { phase: 0, carry: 0, image_size: 0, expected: Vec::new(), image: Vec::new(), retries: 0 };
        assert(r.model().expected =~= rx_initial().expected);
        assert(r.model().image =~= rx_initial().image);
        r
    }

    pub fn is_scanning(&self) -> (r: bool)
        ensures
            r == (self.model().phase == 0),
    {
        self.phase == 0
    }

    pub fn is_finished(&self) -> (r: bool)
        ensures
            r == (self.model().phase == 2),
    {
        self.phase == 2
    }

    /// Image bytes received so far.
    pub fn received(&self) -> (r: usize)
        ensures
            r == self.model().image.len(),
    {
        self.image.len()
    }

    pub fn image_size(&self) -> (r: u64)
        ensures
            r == self.model().size,
    {
        self.image_size
    }

    /// How many bytes to ask for next, and with what timeout: a whole
    /// buffer while scanning, else what is left of the image, a chunk at
    /// most.
    pub fn next_read(&self) -> (r: (usize, u32))
        ensures
            self.model().phase == 0 ==> r == (RDF_CHUNK_SIZE, RDF_SCAN_TIMEOUT_MS),
            self.model().phase != 0 ==> {
                &&& r.1 == RDF_CHUNK_TIMEOUT_MS
                &&& r.0 == (if self.model().size <= self.model().image.len() {
                    0
                } else if self.model().size - self.model().image.len() > RDF_CHUNK_SIZE {
                    RDF_CHUNK_SIZE as int
                } else {
                    self.model().size - self.model().image.len()
                })
            },
    {
        if self.phase == 0 {
            return (RDF_CHUNK_SIZE, RDF_SCAN_TIMEOUT_MS);
        }
        let have = self.image.len() as u64;
        if self.image_size <= have {
            (0, RDF_CHUNK_TIMEOUT_MS)
        } else if self.image_size - have > RDF_CHUNK_SIZE as u64 {
            (RDF_CHUNK_SIZE, RDF_CHUNK_TIMEOUT_MS)
        } else {
            ((self.image_size - have) as usize, RDF_CHUNK_TIMEOUT_MS)
        }
    }

    fn finish_if_complete(&mut self) -> (r: RdfStep)
        requires
            old(self).inv(),
            old(self).model().phase == 1,
        ensures
            final(self).inv(),
            (final(self).model(), step_view(r)) == finish_if_complete(old(self).model()),
    {
        if (self.image.len() as u64) < self.image_size {
            return RdfStep::Continue;
        }
        self.phase = 2;
        let digest = sha256(self.image.as_slice());
        let mut image = Vec::new();
        core::mem::swap(&mut image, &mut self.image);
        proof {
            assert(self.image@ =~= Seq::<u8>::empty());
        }
        match check_image(image, self.expected.as_slice(), digest.as_slice()) {
            Ok(v) => RdfStep::Complete(v),
            Err(e) => RdfStep::Fail(e),
        }
    }

    /// Takes the bytes of one bulk read.
    pub fn on_packet(&mut self, packet: &[u8]) -> (r: RdfStep)
        requires
            old(self).inv(),
            old(self).model().phase < 2,
        ensures
            final(self).inv(),
            (final(self).model(), step_view(r)) == packet_step(old(self).model(), packet@),
    {
        if self.phase == 0 {
            if packet.len() == 0 {
                return RdfStep::Continue;
            }
            let carry = self.carry as usize;
            if carry > 0 && packet.len() >= 4 - carry && matches_magic_tail(packet, 0, carry) {
                self.phase = 2;
                return RdfStep::Fail(FwError::ProtocolError);
            }
            match find_magic(packet) {
                None => {
                    self.carry = carry_of(packet);
                    self.retries = 0;
                    RdfStep::Continue
                },
                Some(k) => {
                    if packet.len() - k < RDF_HEADER_SIZE {
                        self.phase = 2;
                        return RdfStep::Fail(FwError::ProtocolError);
                    }
                    let header = RdfHeader::parse(packet, k);
                    self.phase = 1;
                    self.carry = 0;
                    self.image_size = header.image_size;
                    self.expected = vstd::slice::slice_to_vec(&packet[k + 12..k + 44]);
                    self.image = vstd::slice::slice_to_vec(&packet[k + RDF_HEADER_SIZE..packet.len()]);
                    self.retries = 0;
                    self.finish_if_complete()
                },
            }
        } else {
            if packet.len() == 0 {
                return RdfStep::Continue;
            }
            self.retries = 0;
            append_bytes(&mut self.image, packet);
            self.finish_if_complete()
        }
    }

    /// Takes a failed bulk read: a timeout while scanning waits on; any
    /// other failure is retried after a pause, up to five tries, after
    /// which scanning gives up with the failure and streaming with
    /// `EndOfFile`.
    pub fn on_error(&mut self, e: FwError) -> (r: RdfStep)
        requires
            old(self).inv(),
            old(self).model().phase < 2,
        ensures
            final(self).inv(),
            (final(self).model(), step_view(r)) == error_step(old(self).model(), e),
            r matches RdfStep::Stall(us) ==> us == RDF_RETRY_STALL_US,
    {
        if self.phase == 0 {
            if e == FwError::Timeout {
                return RdfStep::Continue;
            }
            if self.retries + 1 >= RDF_MAX_RETRIES {
                self.phase = 2;
                return RdfStep::Fail(e);
            }
            self.retries = self.retries + 1;
            return RdfStep::Stall(RDF_RETRY_STALL_US);
        }
        if self.retries + 1 >= RDF_MAX_RETRIES {
            self.phase = 2;
            return RdfStep::Fail(FwError::EndOfFile);
        }
        self.retries = self.retries + 1;
        RdfStep::Stall(RDF_RETRY_STALL_US)
    }
}

/// Byte `i` of the built-in test stream: a header for a 1 MiB image with
/// a placeholder checksum of `0xAA` bytes and target `@core`, then the
/// repeating pattern `0, 1, .., 254`.
pub open spec fn mock_byte(i: int) -> u8 {
    if i < 4 {
        rdf_magic()[i]
    } else if i == 6 {
        0x10
    } else if i < 12 {
        0
    } else if i < 44 {
        0xAA
    } else if i == 44 {
        0x40
    } else if i == 45 {
        0x63
    } else if i == 46 {
        0x6F
    } else if i == 47 {
        0x72
    } else if i == 48 {
        0x65
    } else if i < 128 {
        0
    } else {
        ((i - 128) % 255) as u8
    }
}

pub open spec fn mock_stream() -> Seq<u8> {
    Seq::new((128 + 1048576) as nat, |i: int| mock_byte(i))
}

fn mock_byte_at(i: usize) -> (r: u8)
    ensures
        r == mock_byte(i as int),
{
    if i < 4 {
        magic_byte(i)
    } else if i == 6 {
        0x10
    } else if i < 12 {
        0
    } else if i < 44 {
        0xAA
    } else if i == 44 {
        0x40
    } else if i == 45 {
        0x63
    } else if i == 46 {
        0x6F
    } else if i == 47 {
        0x72
    } else if i == 48 {
        0x65
    } else if i < 128 {
        0
    } else {
        ((i - 128) % 255) as u8
    }
}

/// An in-memory stream that hands out its bytes in order, as many as
/// each read asks for.
pub struct MockDataSource {
    data: Vec<u8>,
    cursor: usize,
}

impl MockDataSource {
    /// The bytes not read yet.
    pub closed spec fn pending(self) -> Seq<u8> {
        self.data@.subrange(self.cursor as int, self.data@.len() as int)
    }

    pub closed spec fn inv(self) -> bool {
        self.cursor <= self.data@.len()
    }

    pub fn new() -> (r: Self)
        ensures
            r.inv(),
            r.pending() == mock_stream(),
    {
        let total: usize = 128 + 1048576;
        let mut data: Vec<u8> = Vec::new();
        let mut i: usize = 0;
        while i < total
            invariant
                total == 128 + 1048576,
                0 <= i <= total,
                data@.len() == i,
                forall|j: int| 0 <= j < i ==> #[trigger] data@[j] == mock_byte(j),
            decreases total - i,
        {
            data.push(mock_byte_at(i));
            i = i + 1;
        }
        let r = MockDataSource { data, cursor: 0 };
        assert(r.pending() =~= mock_stream());
        r
    }

    /// Copies the next bytes into `buf`, as many as fit, and says how many.
    pub fn read(&mut self, buf: &mut [u8]) -> (r: usize)
        requires
            old(self).inv(),
        ensures
            final(self).inv(),
            r == (if old(self).pending().len() < old(buf)@.len() { old(self).pending().len() } else { old(buf)@.len() as nat }),
            final(buf)@.len() == old(buf)@.len(),
            final(buf)@.subrange(0, r as int) == old(self).pending().subrange(0, r as int),
            final(buf)@.subrange(r as int, old(buf)@.len() as int) == old(buf)@.subrange(r as int, old(buf)@.len() as int),
            final(self).pending() == old(self).pending().subrange(r as int, old(self).pending().len() as int),
    {
        let remaining = self.data.len() - self.cursor;
        let count = if remaining < buf.len() { remaining } else { buf.len() };
        let mut i: usize = 0;
        while i < count
            invariant
                self.cursor + count <= self.data.len(),
                count <= buf@.len(),
                buf@.len() == old(buf)@.len(),
                0 <= i <= count,
                forall|k: int| 0 <= k < i ==> #[trigger] buf@[k] == self.data@[self.cursor + k],
                forall|k: int| count <= k < buf@.len() ==> #[trigger] buf@[k] == old(buf)@[k],
            decreases count - i,
        {
            buf[i] = self.data[self.cursor + i];
            i = i + 1;
        }
        let ghost before = self.pending();
        self.cursor = self.cursor + count;
        assert(buf@.subrange(0, count as int) =~= before.subrange(0, count as int));
        assert(buf@.subrange(count as int, buf@.len() as int) =~= old(buf)@.subrange(count as int, old(buf)@.len() as int));
        assert(self.pending() =~= before.subrange(count as int, before.len() as int));
        count
    }
}

/// Reads a test stream from `source`: its 128-byte header, which must
/// carry the magic, then everything after it, 1 KiB per read, until the
/// source is empty. Gives the header's image size and the bytes after the
/// header. The test stream's checksum is a placeholder and is not
/// checked.
pub fn download_mock(source: &mut MockDataSource) -> (r: Result<(u64, Vec<u8>), FwError>)
    requires
        old(source).inv(),
    ensures
        final(source).inv(),
        match r {
            Ok((size, image)) => {
                &&& old(source).pending().len() >= 128
                &&& old(source).pending().subrange(0, 4) == rdf_magic()
                &&& size == le64(old(source).pending(), 4)
                &&& image@ == old(source).pending().subrange(128, old(source).pending().len() as int)
                &&& final(source).pending().len() == 0
            },
            Err(e) => e == FwError::LoadError && (old(source).pending().len() < 128 || old(
                source,
            ).pending().subrange(0, 4) != rdf_magic()),
        },
{
    let ghost p = source.pending();
    let mut header: Vec<u8> = vec![0u8; RDF_HEADER_SIZE];
    let n = source.read(header.as_mut_slice());
    if n < RDF_HEADER_SIZE {
        return Err(FwError::LoadError);
    }
    assert(header@ =~= header@.subrange(0, 128));
    if !magic_at(header.as_slice(), 0) {
        proof {
            assert(header@.subrange(0, 4) =~= p.subrange(0, 4));
        }
        return Err(FwError::LoadError);
    }
    proof {
        assert(header@.subrange(0, 4) =~= p.subrange(0, 4));
        assert(header@[4] == p[4] && header@[5] == p[5] && header@[6] == p[6] && header@[7] == p[7]);
        assert(header@[8] == p[8] && header@[9] == p[9] && header@[10] == p[10] && header@[11] == p[11]);
    }
    let size = read_u64(header.as_slice(), 4);
    assert(p.subrange(0, 4) == rdf_magic());
    let mut buf: Vec<u8> = vec![0u8; 1024];
    let mut image: Vec<u8> = Vec::new();
    loop
        invariant
            source.inv(),
            p == old(source).pending(),
            p.len() >= 128,
            p.subrange(0, 4) == rdf_magic(),
            size as int == le64(p, 4),
            buf@.len() == 1024,
            128 + image@.len() <= p.len(),
            image@ == p.subrange(128, 128 + image@.len() as int),
            source.pending() == p.subrange(128 + image@.len() as int, p.len() as int),
        decreases source.pending().len(),
    {
        let n = source.read(buf.as_mut_slice());
        if n == 0 {
            assert(source.pending().len() == 0);
            assert(image@ =~= p.subrange(128, p.len() as int));
            return Ok((size, image));
        }
        let ghost before = image@;
        append_bytes(&mut image, &buf.as_slice()[0..n]);
        proof {
            assert(buf@.subrange(0, n as int) =~= p.subrange(128 + before.len() as int, 128 + before.len() + n));
            assert(image@ =~= p.subrange(128, 128 + image@.len() as int));
            assert(source.pending() =~= p.subrange(128 + image@.len() as int, p.len() as int));
        }
    }
}

pub open spec fn is_magic_at(p: Seq<u8>, k: int) -> bool {
    0 <= k && k + 4 <= p.len() && p.subrange(k, k + 4) == rdf_magic()
}

/// The first position from `i` on where the magic starts.
pub open spec fn magic_from(p: Seq<u8>, i: int) -> Option<int>
    decreases p.len() - i,
{
    if i < 0 || i + 4 > p.len() {
        None
    } else if is_magic_at(p, i) {
        Some(i)
    } else {
        magic_from(p, i + 1)
    }
}

/// How many leading bytes of the magic (one to three) end a packet.
pub open spec fn magic_carry(p: Seq<u8>) -> nat {
    if p.len() >= 3 && p.subrange(p.len() - 3, p.len() as int) == rdf_magic().subrange(0, 3) {
        3
    } else if p.len() >= 2 && p.subrange(p.len() - 2, p.len() as int) == rdf_magic().subrange(0, 2) {
        2
    } else if p.len() >= 1 && p[p.len() - 1] == 0x52 {
        1
    } else {
        0
    }
}

/// Whether a packet begins with the rest of a magic whose first `carry`
/// bytes ended the previous packet.
pub open spec fn straddles(carry: nat, p: Seq<u8>) -> bool {
    0 < carry < 4 && p.len() >= 4 - carry && p.subrange(0, 4 - carry) == rdf_magic().subrange(
        carry as int,
        4,
    )
}

/// The receiver's state. `phase` is 0 while scanning, 1 while streaming
/// and 2 once it has finished.
pub struct RxModel {
    pub phase: int,
    pub carry: nat,
    pub size: nat,
    pub expected: Seq<u8>,
    pub image: Seq<u8>,
    pub retries: nat,
}

/// What the caller does next.
pub enum RxOutcome {
    Continue,
    Stall,
    Complete(Seq<u8>),
    Fail(FwError),
}

pub open spec fn rx_initial() -> RxModel {
    RxModel { phase: 0, carry: 0, size: 0, expected: seq![], image: seq![], retries: 0 }
}

pub open spec fn rx_finished(s: RxModel) -> RxModel {
    RxModel { phase: 2, ..s }
}

/// The state once the image has been handed on or dropped.
pub open spec fn rx_done(s: RxModel) -> RxModel {
    RxModel { phase: 2, image: seq![], ..s }
}

/// Ends the download once the image has all its bytes, by its checksum.
pub open spec fn finish_if_complete(s: RxModel) -> (RxModel, RxOutcome) {
    if s.image.len() >= s.size {
        (
            rx_done(s),
            if sha256_of(s.image) == s.expected {
                RxOutcome::Complete(s.image)
            } else {
                RxOutcome::Fail(FwError::CrcError)
            },
        )
    } else {
        (s, RxOutcome::Continue)
    }
}

/// The receiver's step on a packet.
pub open spec fn packet_step(s: RxModel, p: Seq<u8>) -> (RxModel, RxOutcome) {
    if s.phase == 0 {
        if p.len() == 0 {
            (s, RxOutcome::Continue)
        } else if straddles(s.carry, p) {
            (rx_finished(s), RxOutcome::Fail(FwError::ProtocolError))
        } else {
            match magic_from(p, 0) {
                None => (RxModel { carry: magic_carry(p), retries: 0, ..s }, RxOutcome::Continue),
                Some(k) => {
                    if p.len() - k < 128 {
                        (rx_finished(s), RxOutcome::Fail(FwError::ProtocolError))
                    } else {
                        finish_if_complete(
                            RxModel {
                                phase: 1,
                                carry: 0,
                                size: le64(p, k + 4) as nat,
                                expected: p.subrange(k + 12, k + 44),
                                image: p.subrange(k + 128, p.len() as int),
                                retries: 0,
                            },
                        )
                    }
                },
            }
        }
    } else if p.len() == 0 {
        (s, RxOutcome::Continue)
    } else {
        finish_if_complete(RxModel { image: s.image + p, retries: 0, ..s })
    }
}

/// The receiver's step on a failed bulk read. Each failure is retried
/// after a pause, five tries in all; a timeout while scanning only means
/// the host has not started yet and costs no try.
pub open spec fn error_step(s: RxModel, e: FwError) -> (RxModel, RxOutcome) {
    if s.phase == 0 {
        if e == FwError::Timeout {
            (s, RxOutcome::Continue)
        } else if s.retries + 1 >= 5 {
            (rx_finished(s), RxOutcome::Fail(e))
        } else {
            (RxModel { retries: s.retries + 1, ..s }, RxOutcome::Stall)
        }
    } else if s.retries + 1 >= 5 {
        (rx_finished(s), RxOutcome::Fail(FwError::EndOfFile))
    } else {
        (RxModel { retries: s.retries + 1, ..s }, RxOutcome::Stall)
    }
}

/// What feeding packets in order leads to: the first final outcome, or
/// `Continue` if none is reached.
pub open spec fn run_packets(s: RxModel, ps: Seq<Seq<u8>>) -> RxOutcome
    decreases ps.len(),
{
    if ps.len() == 0 {
        RxOutcome::Continue
    } else {
        match packet_step(s, ps[0]).1 {
            RxOutcome::Complete(img) => RxOutcome::Complete(img),
            RxOutcome::Fail(e) => RxOutcome::Fail(e),
            _ => run_packets(packet_step(s, ps[0]).0, ps.drop_first()),
        }
    }
}

pub open spec fn flatten(ps: Seq<Seq<u8>>) -> Seq<u8>
    decreases ps.len(),
{
    if ps.len() == 0 {
        seq![]
    } else {
        ps[0] + flatten(ps.drop_first())
    }
}

/// A zero-length bulk read means "no data, try again": in any phase it
/// leaves the receiver as it was, retry count included, and ends nothing.
pub proof fn lemma_empty_packet_changes_nothing(s: RxModel)
    requires
        s.phase < 2,
    ensures
        packet_step(s, seq![]) == (s, RxOutcome::Continue),
{
}

/// Zero-length reads slipped in anywhere before the next packet do not
/// change where a run of packets leads.
pub proof fn lemma_empty_packets_skipped(s: RxModel, ps: Seq<Seq<u8>>)
    requires
        s.phase < 2,
    ensures
        run_packets(s, seq![Seq::<u8>::empty()] + ps) == run_packets(s, ps),
{
    let l = seq![Seq::<u8>::empty()] + ps;
    assert(l[0] == Seq::<u8>::empty());
    assert(l.drop_first() =~= ps);
    assert(packet_step(s, Seq::<u8>::empty()) == (s, RxOutcome::Continue));
}

/// A stream that frames `b`: the magic, `b`'s length, its SHA-256, 84
/// bytes of subvolume name and reserved space, then `b` itself.
pub open spec fn frames(stream: Seq<u8>, b: Seq<u8>) -> bool {
    &&& stream.len() == 128 + b.len()
    &&& stream.subrange(0, 4) == rdf_magic()
    &&& le64(stream, 4) == b.len()
    &&& stream.subrange(12, 44) == sha256_of(b)
    &&& stream.subrange(128, stream.len() as int) == b
}

proof fn lemma_streaming_completes(s: RxModel, ps: Seq<Seq<u8>>, b: Seq<u8>)
    requires
        s.phase == 1,
        s.size == b.len(),
        s.expected == sha256_of(b),
        s.image + flatten(ps) == b,
        s.image.len() < s.size,
    ensures
        run_packets(s, ps) == RxOutcome::Complete(b),
    decreases ps.len(),
{
    if ps.len() == 0 {
        assert(s.image + flatten(ps) =~= s.image);
    } else {
        let p = ps[0];
        let rest = ps.drop_first();
        assert(flatten(ps) == p + flatten(rest));
        assert(s.image + flatten(ps) =~= (s.image + p) + flatten(rest));
        if p.len() == 0 {
            assert(s.image + p =~= s.image);
            lemma_streaming_completes(s, rest, b);
        } else {
            let s2 = RxModel { image: s.image + p, retries: 0, ..s };
            if s2.image.len() >= s2.size {
                assert(flatten(rest).len() == 0);
                assert(s2.image =~= b);
            } else {
                lemma_streaming_completes(s2, rest, b);
            }
        }
    }
}

/// A lossless transport that delivers a stream framing `b`, with the
/// whole header in the first packet, makes the receiver hand back exactly
/// `b`, its checksum verified.
pub proof fn lemma_rdf_round_trip(b: Seq<u8>, ps: Seq<Seq<u8>>)
    requires
        ps.len() > 0,
        ps[0].len() >= 128,
        frames(flatten(ps), b),
    ensures
        run_packets(rx_initial(), ps) == RxOutcome::Complete(b),
{
    let stream = flatten(ps);
    let p = ps[0];
    let rest = ps.drop_first();
    assert(stream == p + flatten(rest));
    assert(p =~= stream.subrange(0, p.len() as int));
    assert(p.subrange(0, 4) =~= stream.subrange(0, 4));
    assert(is_magic_at(p, 0));
    assert(magic_from(p, 0) == Some(0int));
    assert(le64(p, 4) == le64(stream, 4));
    assert(p.subrange(12, 44) =~= stream.subrange(12, 44));
    let s1 = RxModel {
        phase: 1,
        carry: 0,
        size: le64(p, 4) as nat,
        expected: p.subrange(12, 44),
        image: p.subrange(128, p.len() as int),
        retries: 0,
    };
    assert(packet_step(rx_initial(), p) == finish_if_complete(s1));
    assert(s1.image + flatten(rest) =~= b) by {
        assert(stream.subrange(128, stream.len() as int) =~= s1.image + flatten(rest));
    }
    if s1.image.len() >= s1.size {
        assert(flatten(rest).len() == 0);
        assert(s1.image =~= b);
    } else {
        lemma_streaming_completes(s1, rest, b);
    }
}

} // verus!
