//! Host side of the module's imports: the WASI preview1 stubs and the
//! `env.kiro_ground_query` ground bridge.
//!
//! The module gets no filesystem: every file it needs comes from its
//! in-memory VFS, so the filesystem imports answer with an error, and
//! `fd_write` is the only stub that reads guest memory.
use crate::abi::KiroGroundOutV1;
use crate::pack::le32_at;
use vstd::bytes::u32_from_le_bytes;
use vstd::prelude::*;
use vstd::slice::{slice_subrange, slice_to_vec};

verus! {

broadcast use vstd::seq::group_seq_axioms;

pub const ERRNO_SUCCESS: i32 = 0;

/// Returned by every descriptor-based filesystem import.
pub const ERRNO_BADF: i32 = 8;

/// Returned by every path-based filesystem import.
pub const ERRNO_NOENT: i32 = 44;

/// Returned by `random_get`.
pub const ERRNO_NOSYS: i32 = 52;

/// The bytes named by the first `n` entries of the iovec array at `iovs` in
/// guest memory `mem`, concatenated; `None` where an entry or the buffer it
/// names lies outside `mem`. Each entry is a little-endian `u32` pointer
/// followed by a `u32` length.
pub open spec fn gather_iovecs(mem: Seq<u8>, iovs: int, n: nat) -> Option<Seq<u8>>
    decreases n,
{
    if n == 0 {
        Some(Seq::empty())
    } else {
        match gather_iovecs(mem, iovs, (n - 1) as nat) {
            None => None,
            Some(prev) => {
                let base = iovs + 8 * (n - 1);
                if base + 8 > mem.len() {
                    None
                } else {
                    let ptr = le32_at(mem, base) as int;
                    let len = le32_at(mem, base + 4) as int;
                    if ptr + len > mem.len() {
                        None
                    } else {
                        Some(prev + mem.subrange(ptr, ptr + len))
                    }
                }
            },
        }
    }
}

/// Guest pointer of iovec entry `k`.
pub open spec fn iov_ptr(mem: Seq<u8>, iovs: int, k: int) -> int {
    le32_at(mem, iovs + 8 * k) as int
}

/// Length of iovec entry `k`.
pub open spec fn iov_len(mem: Seq<u8>, iovs: int, k: int) -> int {
    le32_at(mem, iovs + 8 * k + 4) as int
}

/// Sum of the lengths of the first `n` iovec entries.
pub open spec fn iov_total(mem: Seq<u8>, iovs: int, n: nat) -> int
    decreases n,
{
    if n == 0 {
        0
    } else {
        iov_total(mem, iovs, (n - 1) as nat) + iov_len(mem, iovs, n - 1)
    }
}

proof fn lemma_iov_total_mono(mem: Seq<u8>, iovs: int, k: nat, n: nat)
    requires
        k <= n,
    ensures
        0 <= iov_total(mem, iovs, k) <= iov_total(mem, iovs, n),
    decreases n,
{
    if n > k {
        lemma_iov_total_mono(mem, iovs, k, (n - 1) as nat);
    } else if n > 0 {
        lemma_iov_total_mono(mem, iovs, (n - 1) as nat, (n - 1) as nat);
    }
}

/// Entry `k` of a gather of `n` entries: its buffer lies inside memory and
/// appears in the gathered bytes right after the buffers of the entries
/// before it.
pub open spec fn entry_in_gather(mem: Seq<u8>, iovs: int, n: nat, k: int) -> bool {
    let ptr = iov_ptr(mem, iovs, k);
    let len = iov_len(mem, iovs, k);
    let at = iov_total(mem, iovs, k as nat);
    &&& ptr + len <= mem.len()
    &&& at + len <= iov_total(mem, iovs, n)
    &&& gather_iovecs(mem, iovs, n)->0.subrange(at, at + len) == mem.subrange(ptr, ptr + len)
}

/// The gather of `n` entries is the gather of the first `n - 1` followed by
/// the buffer of entry `n - 1`; the gathered length is the sum of the
/// entries' lengths; and every entry's buffer sits after the buffers of the
/// entries before it, whatever the other entries hold (an empty buffer
/// included).
pub proof fn lemma_gather_law(mem: Seq<u8>, iovs: int, n: nat)
    requires
        gather_iovecs(mem, iovs, n) is Some,
    ensures
        n >= 1 ==> gather_iovecs(mem, iovs, (n - 1) as nat) is Some && gather_iovecs(mem, iovs, n)->0
            == gather_iovecs(mem, iovs, (n - 1) as nat)->0 + mem.subrange(
            iov_ptr(mem, iovs, n - 1),
            iov_ptr(mem, iovs, n - 1) + iov_len(mem, iovs, n - 1),
        ),
        gather_iovecs(mem, iovs, n)->0.len() == iov_total(mem, iovs, n),
        forall|k: int| 0 <= k < n ==> #[trigger] entry_in_gather(mem, iovs, n, k),
    decreases n,
{
    if n >= 1 {
        let m = (n - 1) as nat;
        lemma_gather_law(mem, iovs, m);
        let prev = gather_iovecs(mem, iovs, m)->0;
        let chunk = mem.subrange(
            iov_ptr(mem, iovs, m as int),
            iov_ptr(mem, iovs, m as int) + iov_len(mem, iovs, m as int),
        );
        let all = gather_iovecs(mem, iovs, n)->0;
        assert(all == prev + chunk);
        assert forall|k: int| 0 <= k < n implies #[trigger] entry_in_gather(mem, iovs, n, k) by {
            let a = iov_total(mem, iovs, k as nat);
            let e = a + iov_len(mem, iovs, k);
            lemma_iov_total_mono(mem, iovs, k as nat, m);
            if k < m {
                assert(entry_in_gather(mem, iovs, m, k));
                assert(all.subrange(a, e) =~= prev.subrange(a, e));
            } else {
                assert(all.subrange(a, e) =~= chunk);
            }
        }
    }
}

/// Whether `fd_write` on descriptor `fd` goes to the host log (stdout and
/// stderr do; everything else is swallowed).
pub open spec fn spec_is_console(fd: i32) -> bool {
    fd == 1 || fd == 2
}

/// What the `fd_write` stub does with one call.
pub struct FdWrite {
    /// Whether `bytes` is echoed to the host's stdout.
    pub echo: bool,
    /// The gathered bytes.
    pub bytes: Vec<u8>,
    /// The byte count stored at the guest's `nwritten` pointer (the total,
    /// truncated to 32 bits).
    pub written: u32,
}

/// Gathers the buffers of an `fd_write` call from guest memory. Every
/// iovec entry and every buffer must lie inside `mem`.
pub fn fd_write(mem: &[u8], fd: i32, iovs: usize, iovs_len: usize) -> (r: FdWrite)
    requires
        gather_iovecs(mem@, iovs as int, iovs_len as nat) is Some,
    ensures
        r.bytes@ == gather_iovecs(mem@, iovs as int, iovs_len as nat)->0,
        r.bytes@.len() == iov_total(mem@, iovs as int, iovs_len as nat),
        r.echo == spec_is_console(fd),
        r.written as int == r.bytes@.len() % 0x1_0000_0000,
{
    let mem_len = mem.len();
    let mut out: Vec<u8> = Vec::new();
    let mut i: usize = 0;
    while i < iovs_len
        invariant
            mem_len == mem@.len(),
            i <= iovs_len,
            gather_iovecs(mem@, iovs as int, iovs_len as nat) is Some,
            gather_iovecs(mem@, iovs as int, i as nat) == Some(out@),
        decreases iovs_len - i,
    {
        proof {
            lemma_gather_prefix(mem@, iovs as int, (i + 1) as nat, iovs_len as nat);
        }
        let base = iovs + 8 * i;
        let ptr = u32_from_le_bytes(slice_subrange(mem, base, base + 4)) as usize;
        let len = u32_from_le_bytes(slice_subrange(mem, base + 4, base + 8)) as usize;
        let mut chunk = slice_to_vec(slice_subrange(mem, ptr, ptr + len));
        out.append(&mut chunk);
        i = i + 1;
    }
    proof {
        lemma_gather_law(mem@, iovs as int, iovs_len as nat);
    }
    let total = out.len();
    let written = total as u32;
    assert(written as int == total as int % 0x1_0000_0000) by (bit_vector)
        requires
            written == total as u32,
    ;
    FdWrite { echo: fd == 1 || fd == 2, bytes: out, written }
}

/// Whether every iovec entry of an `fd_write` call, and every buffer one
/// names, lies inside guest memory `mem`.
pub fn gather_ok(mem: &[u8], iovs: usize, iovs_len: usize) -> (r: bool)
    ensures
        r == gather_iovecs(mem@, iovs as int, iovs_len as nat) is Some,
{
    let mem_len = mem.len();
    let mut i: usize = 0;
    while i < iovs_len
        invariant
            mem_len == mem@.len(),
            i <= iovs_len,
            gather_iovecs(mem@, iovs as int, i as nat) is Some,
        decreases iovs_len - i,
    {
        if iovs > mem_len || (mem_len - iovs) / 8 <= i {
            proof {
                lemma_gather_fails_after(mem@, iovs as int, (i + 1) as nat, iovs_len as nat);
            }
            return false;
        }
        let base = iovs + 8 * i;
        let ptr = u32_from_le_bytes(slice_subrange(mem, base, base + 4)) as usize;
        let len = u32_from_le_bytes(slice_subrange(mem, base + 4, base + 8)) as usize;
        if ptr > mem_len || mem_len - ptr < len {
            proof {
                lemma_gather_fails_after(mem@, iovs as int, (i + 1) as nat, iovs_len as nat);
            }
            return false;
        }
        i = i + 1;
    }
    true
}

/// A gather that fails for `n` entries fails for more.
proof fn lemma_gather_fails_after(mem: Seq<u8>, iovs: int, n: nat, m: nat)
    requires
        n <= m,
        gather_iovecs(mem, iovs, n) is None,
    ensures
        gather_iovecs(mem, iovs, m) is None,
    decreases m - n,
{
    if n < m {
        lemma_gather_fails_after(mem, iovs, n + 1, m);
    }
}

/// A gather that succeeds for `m` entries succeeds for any fewer, and the
/// entry after the first `n - 1` lies inside memory.
proof fn lemma_gather_prefix(mem: Seq<u8>, iovs: int, n: nat, m: nat)
    requires
        1 <= n <= m,
        gather_iovecs(mem, iovs, m) is Some,
    ensures
        gather_iovecs(mem, iovs, (n - 1) as nat) is Some,
        gather_iovecs(mem, iovs, n) is Some,
        iovs + 8 * (n - 1) + 8 <= mem.len(),
    decreases m - n,
{
    if n < m {
        lemma_gather_prefix(mem, iovs, n + 1, m);
    }
}

/// Host state behind the ground bridge.
pub struct HostState {
    /// Terrain elevation answered to every ground query, metres (IEEE-754
    /// binary64 bit pattern).
    pub ground_elev_m: u64,
    /// When set, every ground query is answered "no terrain here".
    pub ground_miss: bool,
    /// Number of ground queries answered so far.
    pub ground_calls: u64,
}

/// A terrain hit, as the host computes it (IEEE-754 binary64 bit patterns).
pub struct GroundHit {
    pub agl_m: u64,
    pub contact_ecef_m: [u64; 3],
    pub normal_ecef: [u64; 3],
}

impl HostState {
    /// Flat terrain at 0 m, hits enabled, no query answered yet.
    pub fn new() -> (r: HostState)
        ensures
            r.ground_elev_m == 0,
            !r.ground_miss,
            r.ground_calls == 0,
    {
        HostState { ground_elev_m: 0, ground_miss: false, ground_calls: 0 }
    }

    /// Counts one ground query and tells how to answer it: whether it
    /// misses, and the terrain elevation.
    pub fn begin_ground_query(&mut self) -> (r: (bool, u64))
        requires
            old(self).ground_calls < u64::MAX,
        ensures
            final(self).ground_calls == old(self).ground_calls + 1,
            final(self).ground_miss == old(self).ground_miss,
            final(self).ground_elev_m == old(self).ground_elev_m,
            r == (old(self).ground_miss, old(self).ground_elev_m),
    {
        self.ground_calls = self.ground_calls + 1;
        (self.ground_miss, self.ground_elev_m)
    }
}

/// The answer written back to a ground query: status 1 and an empty
/// payload on a miss, status 0 with the hit's height above terrain,
/// contact point and surface normal otherwise. Velocities stay zero (the
/// terrain is static).
pub fn ground_reply(hit: Option<GroundHit>) -> (r: KiroGroundOutV1)
    ensures
        r.struct_size == 112,
        r.vel_ecef_mps@ == seq![0u64, 0, 0],
        r.angvel_ecef_rps@ == seq![0u64, 0, 0],
        match hit {
            None => {
                &&& r.status == 1
                &&& r.agl_m == 0
                &&& r.contact_ecef_m@ == seq![0u64, 0, 0]
                &&& r.normal_ecef@ == seq![0u64, 0, 0]
            },
            Some(h) => {
                &&& r.status == 0
                &&& r.agl_m == h.agl_m
                &&& r.contact_ecef_m == h.contact_ecef_m
                &&& r.normal_ecef == h.normal_ecef
            },
        },
{
    match hit {
        None => KiroGroundOutV1 {
            struct_size: 112,
            status: 1,
            agl_m: 0,
            contact_ecef_m: [0, 0, 0],
            normal_ecef: [0, 0, 0],
            vel_ecef_mps: [0, 0, 0],
            angvel_ecef_rps: [0, 0, 0],
        },
        Some(h) => KiroGroundOutV1 {
            struct_size: 112,
            status: 0,
            agl_m: h.agl_m,
            contact_ecef_m: h.contact_ecef_m,
            normal_ecef: h.normal_ecef,
            vel_ecef_mps: [0, 0, 0],
            angvel_ecef_rps: [0, 0, 0],
        },
    }
}

} // verus!
