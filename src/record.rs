use vstd::prelude::*;

verus! {

/// Size in bytes of the command-name field of a raw record.
pub const COMM_LEN: usize = 16;

/// Size in bytes of one raw record: `cgroup_id` (8), `syscall_id` (4), `pid` (4), `comm` (16),
/// packed in that order.
pub const RECORD_SIZE: usize = 32;

/// Which way multi-byte integers are laid out in a raw record.
#[derive(Clone, Copy, Debug, PartialEq, Eq, Structural)]
pub enum ByteOrder {
    Little,
    Big,
}

/// One decoded syscall-entry event.
#[derive(Clone, Copy, Debug, PartialEq, Eq)]
pub struct TraceRecord {
    pub cgroup_id: u64,
    pub syscall_id: u32,
    pub pid: u32,
    pub comm: [u8; 16],
}

/// Why a raw buffer could not be decoded.
#[derive(Clone, Copy, Debug, PartialEq, Eq, Structural)]
pub enum DecodeError {
    /// The buffer holds fewer than `RECORD_SIZE` bytes.
    Truncated { len: usize },
}

/// Value of bytes read least significant first.
pub open spec fn le_value(s: Seq<u8>) -> nat
    decreases s.len(),
{
    if s.len() == 0 {
        0
    } else {
        s[0] as nat + 256 * le_value(s.drop_first())
    }
}

/// Value of bytes read most significant first.
pub open spec fn be_value(s: Seq<u8>) -> nat
    decreases s.len(),
{
    if s.len() == 0 {
        0
    } else {
        be_value(s.drop_last()) * 256 + s.last() as nat
    }
}

pub open spec fn uint_value(s: Seq<u8>, order: ByteOrder) -> nat {
    match order {
        ByteOrder::Little => le_value(s),
        ByteOrder::Big => be_value(s),
    }
}

pub open spec fn pow256(n: nat) -> nat
    decreases n,
{
    if n == 0 {
        1
    } else {
        256 * pow256((n - 1) as nat)
    }
}

/// `r` is what the `RECORD_SIZE` bytes at the start of `s` encode in byte order `order`.
pub open spec fn decodes_to(s: Seq<u8>, order: ByteOrder, r: TraceRecord) -> bool {
    &&& r.cgroup_id as nat == uint_value(s.subrange(0, 8), order)
    &&& r.syscall_id as nat == uint_value(s.subrange(8, 12), order)
    &&& r.pid as nat == uint_value(s.subrange(12, 16), order)
    &&& r.comm@ == s.subrange(16, 32)
}

proof fn lemma_pow256_mono(a: nat, b: nat)
    requires
        a <= b,
    ensures
        pow256(a) <= pow256(b),
    decreases b,
{
    if a < b {
        lemma_pow256_mono(a, (b - 1) as nat);
    }
}

proof fn lemma_pow256_8()
    ensures
        pow256(8) == 0x1_0000_0000_0000_0000,
        pow256(4) == 0x1_0000_0000,
{
    reveal_with_fuel(pow256, 9);
}

proof fn lemma_horner_step(v: nat, b: nat, k: nat)
    requires
        v < pow256(k),
        b < 256,
    ensures
        v * 256 + b < pow256(k + 1),
{
    assert(pow256(k + 1) == 256 * pow256(k));
    assert(v * 256 + b < pow256(k + 1)) by (nonlinear_arith)
        requires
            v < pow256(k),
            b < 256,
            pow256(k + 1) == 256 * pow256(k),
    ;
}

/// Reads the `len` bytes of `buf` that start at `start` as an unsigned integer.
fn read_uint(buf: &[u8], start: usize, len: usize, order: ByteOrder) -> (r: u64)
    requires
        len <= 8,
        start + len <= buf@.len(),
    ensures
        r as nat == uint_value(buf@.subrange(start as int, start + len), order),
        (r as nat) < pow256(len as nat),
{
    let ghost s = buf@;
    let n = buf.len();
    proof {
        lemma_pow256_8();
        lemma_pow256_mono(len as nat, 8);
    }
    let mut v: u64 = 0;
    match order {
        ByteOrder::Little => {
            let mut i: usize = len;
            while i > 0
                invariant
                    i <= len,
                    len <= 8,
                    start + len <= n,
                    n == s.len(),
                    s == buf@,
                    v as nat == le_value(s.subrange(start + i, start + len)),
                    (v as nat) < pow256((len - i) as nat),
                    pow256(len as nat) <= pow256(8),
                    pow256(8) == 0x1_0000_0000_0000_0000,
                decreases i,
            {
                let ghost k = (len - i) as nat;
                proof {
                    lemma_horner_step(v as nat, buf[start + i - 1] as nat, k);
                    lemma_pow256_mono(k + 1, len as nat);
                    let t = s.subrange(start + i - 1, start + len);
                    assert(t.drop_first() =~= s.subrange(start + i, start + len));
                }
                v = v * 256 + buf[start + i - 1] as u64;
                i = i - 1;
            }
        },
        ByteOrder::Big => {
            let mut i: usize = 0;
            while i < len
                invariant
                    i <= len,
                    len <= 8,
                    start + len <= n,
                    n == s.len(),
                    s == buf@,
                    v as nat == be_value(s.subrange(start as int, start + i)),
                    (v as nat) < pow256(i as nat),
                    pow256(len as nat) <= pow256(8),
                    pow256(8) == 0x1_0000_0000_0000_0000,
                decreases len - i,
            {
                proof {
                    lemma_horner_step(v as nat, buf[start + i] as nat, i as nat);
                    lemma_pow256_mono((i + 1) as nat, len as nat);
                    let t = s.subrange(start as int, start + i + 1);
                    assert(t.drop_last() =~= s.subrange(start as int, start + i));
                }
                v = v * 256 + buf[start + i] as u64;
                i = i + 1;
            }
        },
    }
    proof {
        assert(s.subrange(start + 0, start + len) =~= s.subrange(start as int, start + len));
    }
    v
}

/// Decodes the fixed-size record at the start of `buf`, its integers laid out in `order`.
pub fn decode(buf: &[u8], order: ByteOrder) -> (r: Result<TraceRecord, DecodeError>)
    ensures
        match r {
            Ok(rec) => buf@.len() >= RECORD_SIZE && decodes_to(buf@, order, rec),
            Err(e) => buf@.len() < RECORD_SIZE && e == (DecodeError::Truncated { len: buf@.len() as usize }),
        },
{
    if buf.len() < RECORD_SIZE {
        return Err(DecodeError::Truncated { len: buf.len() });
    }
    proof {
        lemma_pow256_8();
    }
    let cgroup_id = read_uint(buf, 0, 8, order);
    let syscall_id = read_uint(buf, 8, 4, order) as u32;
    let pid = read_uint(buf, 12, 4, order) as u32;
    let mut comm: [u8; 16] = [0u8; 16];
    let mut i: usize = 0;
    while i < COMM_LEN
        invariant
            i <= COMM_LEN,
            buf@.len() >= RECORD_SIZE,
            comm@.len() == COMM_LEN,
            forall|j: int| 0 <= j < i ==> comm@[j] == buf@[16 + j],
        decreases COMM_LEN - i,
    {
        comm[i] = buf[16 + i];
        i = i + 1;
    }
    let rec = TraceRecord { cgroup_id, syscall_id, pid, comm };
    assert(rec.comm@ =~= buf@.subrange(16, 32));
    Ok(rec)
}

/// Relies on `u32::from_ne_bytes`: the bytes read in the machine's own byte order, which is
/// either least or most significant first.
#[verifier::external_body]
fn native_u32(b: [u8; 4]) -> (r: u32)
    ensures
        r as nat == le_value(b@) || r as nat == be_value(b@),
{
    u32::from_ne_bytes(b)
}

/// The byte order of the machine this runs on.
pub fn native_order() -> ByteOrder {
    let probe = native_u32([1u8, 0u8, 0u8, 0u8]);
    if probe == 1 {
        ByteOrder::Little
    } else {
        ByteOrder::Big
    }
}

/// Decodes a raw record as the kernel wrote it, in the machine's own byte order.
pub fn parse_event_data(x: &[u8]) -> (r: Result<TraceRecord, DecodeError>)
    ensures
        match r {
            Ok(rec) => x@.len() >= RECORD_SIZE && (decodes_to(x@, ByteOrder::Little, rec)
                || decodes_to(x@, ByteOrder::Big, rec)),
            Err(e) => x@.len() < RECORD_SIZE && e == (DecodeError::Truncated { len: x@.len() as usize }),
        },
{
    let order = native_order();
    decode(x, order)
}

/// `k` is where the text in `s` ends: at its first zero byte, or at its end if it has none.
pub open spec fn is_nul_cut(s: Seq<u8>, k: int) -> bool {
    &&& 0 <= k <= s.len()
    &&& forall|j: int| 0 <= j < k ==> s[j] != 0
    &&& (k == s.len() || s[k] == 0)
}

/// The bytes of `s` before its first zero byte, or all of `s` if it has none.
pub open spec fn nul_prefix(s: Seq<u8>) -> Seq<u8> {
    s.take(choose|k: int| is_nul_cut(s, k))
}

pub open spec fn all_ascii(b: Seq<u8>) -> bool {
    forall|i: int| 0 <= i < b.len() ==> b[i] < 128
}

pub open spec fn ascii_text(b: Seq<u8>) -> Seq<char> {
    Seq::new(b.len(), |i: int| b[i] as char)
}

/// What lossy UTF-8 decoding makes of a byte string.
pub uninterp spec fn lossy_text(b: Seq<u8>) -> Seq<char>;

/// Relies on `String::from_utf8_lossy`: the text depends on the bytes alone, ASCII bytes
/// are valid UTF-8 that decodes to the same characters, and a NUL character comes only from a
/// zero byte (invalid sequences become U+FFFD).
#[verifier::external_body]
fn utf8_lossy(b: &[u8]) -> (r: String)
    ensures
        r@ == lossy_text(b@),
        all_ascii(b@) ==> r@ == ascii_text(b@),
        (forall|i: int| 0 <= i < b@.len() ==> b@[i] != 0) ==> (forall|j: int|
            0 <= j < r@.len() ==> r@[j] != '\0'),
{
    String::from_utf8_lossy(b).into_owned()
}

proof fn lemma_nul_cut_unique(s: Seq<u8>, a: int, b: int)
    requires
        is_nul_cut(s, a),
        is_nul_cut(s, b),
    ensures
        a == b,
{
    if a < b {
        assert(s[a] != 0);
    }
    if b < a {
        assert(s[b] != 0);
    }
}

/// The bytes of a command-name field before its first zero byte.
pub fn comm_text_bytes(x: &[u8]) -> (r: Vec<u8>)
    ensures
        r@ == nul_prefix(x@),
        is_nul_cut(x@, r@.len() as int),
{
    let mut out: Vec<u8> = Vec::new();
    let mut i: usize = 0;
    while i < x.len() && x[i] != 0
        invariant
            i <= x@.len(),
            out@ == x@.take(i as int),
            forall|j: int| 0 <= j < i ==> x@[j] != 0,
        decreases x@.len() - i,
    {
        out.push(x[i]);
        i = i + 1;
        assert(out@ =~= x@.take(i as int));
    }
    proof {
        assert(is_nul_cut(x@, i as int));
        let k = choose|k: int| is_nul_cut(x@, k);
        lemma_nul_cut_unique(x@, i as int, k);
    }
    out
}

/// The command name held in a zero-terminated or buffer-filling field, as text.
pub fn get_string(x: &[u8]) -> (r: String)
    ensures
        r@ == lossy_text(nul_prefix(x@)),
        all_ascii(nul_prefix(x@)) ==> r@ == ascii_text(nul_prefix(x@)),
        forall|j: int| 0 <= j < r@.len() ==> r@[j] != '\0',
{
    let bytes = comm_text_bytes(x);
    utf8_lossy(bytes.as_slice())
}

} // verus!
