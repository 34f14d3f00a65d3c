//! The `.jsbpack` aircraft data-pack container (v1).
//!
//! A pack is optionally gzip-compressed. Uncompressed it reads:
//! `"JSBP"`, four reserved bytes, a little-endian `u32` manifest length, the
//! manifest, a `u32` file count, then per file a `u16` path length, the
//! UTF-8 path and a `u32` data length, and finally every file's data in
//! index order.
use std::io::Read;
use vstd::bytes::{
    lemma_auto_spec_u16_to_from_le_bytes, lemma_auto_spec_u32_to_from_le_bytes,
    spec_u16_from_le_bytes, spec_u16_to_le_bytes, spec_u32_from_le_bytes, spec_u32_to_le_bytes,
    u16_from_le_bytes, u32_from_le_bytes,
};
use vstd::prelude::*;
use vstd::slice::{slice_subrange, slice_to_vec};
use vstd::utf8::{decode_utf8, encode_utf8, valid_utf8};

verus! {

broadcast use vstd::seq::group_seq_axioms;

/// Why a pack could not be read.
#[derive(Clone, Copy, Debug, PartialEq, Eq, Structural)]
pub enum PackError {
    /// The container does not start with `"JSBP"`.
    BadMagic,
    /// A file path in the index is not valid UTF-8.
    BadPath,
    /// A length field points past the end of the container.
    Truncated,
    /// The input starts like gzip but does not inflate.
    Inflate,
}

/// One file of a pack.
pub struct PackFile {
    pub path: String,
    pub data: Vec<u8>,
}

impl View for PackFile {
    type V = (Seq<char>, Seq<u8>);

    open spec fn view(&self) -> (Seq<char>, Seq<u8>) {
        (self.path@, self.data@)
    }
}

/// An index entry: a file's path and the length of its data.
struct IndexEntry {
    path: String,
    len: u32,
}

pub open spec fn pack_magic() -> Seq<u8> {
    seq![0x4au8, 0x53u8, 0x42u8, 0x50u8]
}

/// The gzip signature `1f 8b`.
pub open spec fn is_gzip(b: Seq<u8>) -> bool {
    b.len() >= 2 && b[0] == 0x1f && b[1] == 0x8b
}

pub open spec fn le16_at(b: Seq<u8>, off: int) -> nat {
    spec_u16_from_le_bytes(b.subrange(off, off + 2)) as nat
}

pub open spec fn le32_at(b: Seq<u8>, off: int) -> nat {
    spec_u32_from_le_bytes(b.subrange(off, off + 4)) as nat
}

/// Reads `n` more index entries starting at byte `off`, after the entries
/// `acc` already read. Gives the entries and the offset just past them.
pub open spec fn scan_index(raw: Seq<u8>, off: int, n: nat, acc: Seq<(Seq<char>, nat)>) -> Result<
    (Seq<(Seq<char>, nat)>, int),
    PackError,
>
    decreases n,
{
    if n == 0 {
        Ok((acc, off))
    } else if off + 2 > raw.len() {
        Err(PackError::Truncated)
    } else {
        let p = off + 2;
        let plen = le16_at(raw, off);
        if p + plen > raw.len() {
            Err(PackError::Truncated)
        } else if !valid_utf8(raw.subrange(p, p + plen)) {
            Err(PackError::BadPath)
        } else if p + plen + 4 > raw.len() {
            Err(PackError::Truncated)
        } else {
            let entry = (decode_utf8(raw.subrange(p, p + plen)), le32_at(raw, p + plen));
            scan_index(raw, p + plen + 4, (n - 1) as nat, acc.push(entry))
        }
    }
}

/// Cuts the data of the indexed files `idx` out of `raw`, starting at byte
/// `off`, after the files `acc` already cut.
pub open spec fn scan_payloads(
    raw: Seq<u8>,
    idx: Seq<(Seq<char>, nat)>,
    off: int,
    acc: Seq<(Seq<char>, Seq<u8>)>,
) -> Result<Seq<(Seq<char>, Seq<u8>)>, PackError>
    decreases idx.len(),
{
    if idx.len() == 0 {
        Ok(acc)
    } else if off + idx[0].1 > raw.len() {
        Err(PackError::Truncated)
    } else {
        let l = idx[0].1;
        let file = (idx[0].0, raw.subrange(off, off + l));
        scan_payloads(raw, idx.drop_first(), off + l, acc.push(file))
    }
}

/// The files of an uncompressed container, in index order.
pub open spec fn spec_parse_pack(raw: Seq<u8>) -> Result<Seq<(Seq<char>, Seq<u8>)>, PackError> {
    if raw.len() < 4 {
        Err(PackError::Truncated)
    } else if raw.subrange(0, 4) != pack_magic() {
        Err(PackError::BadMagic)
    } else if raw.len() < 12 {
        Err(PackError::Truncated)
    } else {
        let off = 12 + le32_at(raw, 8) as int;
        if off + 4 > raw.len() {
            Err(PackError::Truncated)
        } else {
            payloads_after(raw, scan_index(raw, off + 4, le32_at(raw, off), Seq::empty()))
        }
    }
}

/// The files cut out of `raw` once its index has been scanned with
/// outcome `index`.
pub open spec fn payloads_after(
    raw: Seq<u8>,
    index: Result<(Seq<(Seq<char>, nat)>, int), PackError>,
) -> Result<Seq<(Seq<char>, Seq<u8>)>, PackError> {
    match index {
        Err(e) => Err(e),
        Ok((idx, end)) => scan_payloads(raw, idx, end, Seq::empty()),
    }
}

/// What the gzip decoder yields for `input`: the inflated first member, or
/// `None` where it reports an error.
pub uninterp spec fn gzip_inflate(input: Seq<u8>) -> Option<Seq<u8>>;

/// The files of a pack file's contents, inflating it first if it is gzip.
pub open spec fn spec_decode_pack(input: Seq<u8>) -> Result<Seq<(Seq<char>, Seq<u8>)>, PackError> {
    if is_gzip(input) {
        match gzip_inflate(input) {
            None => Err(PackError::Inflate),
            Some(raw) => spec_parse_pack(raw),
        }
    } else {
        spec_parse_pack(input)
    }
}

pub open spec fn files_view(v: Seq<PackFile>) -> Seq<(Seq<char>, Seq<u8>)> {
    v.map_values(|f: PackFile| f@)
}

/// `r` is the executable form of the spec result `s`.
pub open spec fn result_matches(
    r: Result<Vec<PackFile>, PackError>,
    s: Result<Seq<(Seq<char>, Seq<u8>)>, PackError>,
) -> bool {
    match r {
        Ok(v) => s == Ok::<Seq<(Seq<char>, Seq<u8>)>, PackError>(files_view(v@)),
        Err(e) => s == Err::<Seq<(Seq<char>, Seq<u8>)>, PackError>(e),
    }
}

spec fn index_view(v: Seq<IndexEntry>) -> Seq<(Seq<char>, nat)> {
    v.map_values(|e: IndexEntry| (e.path@, e.len as nat))
}

/// Inflates gzip data with `flate2::read::GzDecoder` (`read_to_end`).
///
/// Trusted: the bytes returned are what the decoder yields for `input`, and
/// `None` is returned exactly when it reports an error; both are named by
/// `gzip_inflate`, which says nothing more of the gzip format.
#[verifier::external_body]
fn inflate_gzip(input: &[u8]) -> (r: Option<Vec<u8>>)
    ensures
        match r {
            Some(v) => gzip_inflate(input@) == Some(v@),
            None => gzip_inflate(input@) is None,
        },
{
    let mut buf = Vec::new();
    match flate2::read::GzDecoder::new(input).read_to_end(&mut buf) {
        Ok(_) => Some(buf),
        Err(_) => None,
    }
}

/// Decodes UTF-8 with `String::from_utf8`.
///
/// Trusted: std accepts exactly the well-formed UTF-8 sequences (no overlong
/// forms, no surrogates, nothing above U+10FFFF), which is vstd's
/// `valid_utf8`, and the string holds the decoded characters.
#[verifier::external_body]
fn utf8_string(bytes: &[u8]) -> (r: Option<String>)
    ensures
        r is Some <==> valid_utf8(bytes@),
        r matches Some(s) ==> s@ == decode_utf8(bytes@),
{
    String::from_utf8(bytes.to_vec()).ok()
}

/// Parses an uncompressed container; `Truncated` where a length field
/// points past the end.
fn scan_pack(raw: &[u8]) -> (r: Result<Vec<PackFile>, PackError>)
    ensures
        result_matches(r, spec_parse_pack(raw@)),
{
    let raw_len = raw.len();
    if raw_len < 4 {
        return Err(PackError::Truncated);
    }
    if !(raw[0] == 0x4a && raw[1] == 0x53 && raw[2] == 0x42 && raw[3] == 0x50) {
        proof {
            if raw@.subrange(0, 4) == pack_magic() {
                assert(raw@.subrange(0, 4)[0] == raw@[0]);
                assert(raw@.subrange(0, 4)[1] == raw@[1]);
                assert(raw@.subrange(0, 4)[2] == raw@[2]);
                assert(raw@.subrange(0, 4)[3] == raw@[3]);
            }
        }
        return Err(PackError::BadMagic);
    }
    assert(raw@.subrange(0, 4) =~= pack_magic());
    if raw_len < 12 {
        return Err(PackError::Truncated);
    }
    let manifest_len = u32_from_le_bytes(slice_subrange(raw, 8, 12)) as usize;
    if raw_len - 12 < manifest_len || raw_len - 12 - manifest_len < 4 {
        return Err(PackError::Truncated);
    }
    let count_at = 12 + manifest_len;
    let count = u32_from_le_bytes(slice_subrange(raw, count_at, count_at + 4));
    let ghost start = count_at + 4;
    let mut off: usize = count_at + 4;
    let mut idx: Vec<IndexEntry> = Vec::new();
    let mut k: u32 = 0;
    assert(index_view(idx@) =~= Seq::<(Seq<char>, nat)>::empty());
    assert(spec_parse_pack(raw@) == payloads_after(
        raw@,
        scan_index(raw@, start, count as nat, Seq::empty()),
    ));
    while k < count
        invariant
            raw_len == raw@.len(),
            spec_parse_pack(raw@) == payloads_after(
                raw@,
                scan_index(raw@, start, count as nat, Seq::empty()),
            ),
            off <= raw_len,
            k <= count,
            scan_index(raw@, start, count as nat, Seq::empty()) == scan_index(
                raw@,
                off as int,
                (count - k) as nat,
                index_view(idx@),
            ),
        decreases count - k,
    {
        if raw_len - off < 2 {
            return Err(PackError::Truncated);
        }
        let plen = u16_from_le_bytes(slice_subrange(raw, off, off + 2)) as usize;
        let p = off + 2;
        if raw_len - p < plen {
            return Err(PackError::Truncated);
        }
        let path = match utf8_string(slice_subrange(raw, p, p + plen)) {
            Some(s) => s,
            None => {
                return Err(PackError::BadPath);
            },
        };
        let q = p + plen;
        if raw_len - q < 4 {
            return Err(PackError::Truncated);
        }
        let len = u32_from_le_bytes(slice_subrange(raw, q, q + 4));
        let ghost before = idx@;
        idx.push(IndexEntry { path, len });
        assert(index_view(idx@) =~= index_view(before).push(
            (decode_utf8(raw@.subrange(p as int, p + plen)), le32_at(raw@, q as int)),
        ));
        off = q + 4;
        k = k + 1;
    }
    let mut files: Vec<PackFile> = Vec::new();
    let mut i: usize = 0;
    let ghost all = index_view(idx@);
    let ghost end = off as int;
    assert(all.skip(0) =~= all);
    assert(files_view(files@) =~= Seq::<(Seq<char>, Seq<u8>)>::empty());
    assert(spec_parse_pack(raw@) == scan_payloads(raw@, all, end, Seq::empty()));
    while i < idx.len()
        invariant
            raw_len == raw@.len(),
            spec_parse_pack(raw@) == scan_payloads(raw@, all, end, Seq::empty()),
            off <= raw_len,
            i <= idx@.len(),
            all == index_view(idx@),
            scan_payloads(raw@, all, end, Seq::empty()) == scan_payloads(
                raw@,
                all.skip(i as int),
                off as int,
                files_view(files@),
            ),
        decreases idx@.len() - i,
    {
        let len = idx[i].len as usize;
        assert(all.skip(i as int)[0] == all[i as int]);
        if raw_len - off < len {
            return Err(PackError::Truncated);
        }
        let data = slice_to_vec(slice_subrange(raw, off, off + len));
        let path = idx[i].path.clone();
        let ghost before = files@;
        files.push(PackFile { path, data });
        assert(files_view(files@) =~= files_view(before).push(
            (all[i as int].0, raw@.subrange(off as int, off + len)),
        ));
        assert(all.skip(i as int).drop_first() =~= all.skip(i as int + 1));
        off = off + len;
        i = i + 1;
    }
    assert(all.skip(i as int).len() == 0);
    Ok(files)
}

/// Parses an uncompressed `.jsbpack` container into its files, in index
/// order. The container must not end before a length field says it does
/// (where reading it would run past the end).
pub fn parse_pack(raw: &[u8]) -> (r: Result<Vec<PackFile>, PackError>)
    requires
        spec_parse_pack(raw@) != Err::<Seq<(Seq<char>, Seq<u8>)>, PackError>(PackError::Truncated),
    ensures
        result_matches(r, spec_parse_pack(raw@)),
{
    scan_pack(raw)
}

/// Reads the files of a pack from the pack file's contents: gzip input
/// (`1f 8b`) is inflated first. `Truncated` is returned where a length field
/// points past the end of the container.
pub fn decode_pack(input: &[u8]) -> (r: Result<Vec<PackFile>, PackError>)
    ensures
        result_matches(r, spec_decode_pack(input@)),
{
    if input.len() >= 2 && input[0] == 0x1f && input[1] == 0x8b {
        match inflate_gzip(input) {
            None => Err(PackError::Inflate),
            Some(raw) => scan_pack(raw.as_slice()),
        }
    } else {
        scan_pack(input)
    }
}

} // verus!

verus! {

/// Index entry of one file as the packer writes it.
pub open spec fn index_entry_bytes(path: Seq<char>, data_len: nat) -> Seq<u8> {
    spec_u16_to_le_bytes(encode_utf8(path).len() as u16) + encode_utf8(path) + spec_u32_to_le_bytes(
        data_len as u32,
    )
}

/// The index of `files` as the packer writes it.
pub open spec fn index_bytes(files: Seq<(Seq<char>, Seq<u8>)>) -> Seq<u8>
    decreases files.len(),
{
    if files.len() == 0 {
        Seq::empty()
    } else {
        index_entry_bytes(files[0].0, files[0].1.len()) + index_bytes(files.drop_first())
    }
}

/// The data of `files`, back to back.
pub open spec fn data_bytes(files: Seq<(Seq<char>, Seq<u8>)>) -> Seq<u8>
    decreases files.len(),
{
    if files.len() == 0 {
        Seq::empty()
    } else {
        files[0].1 + data_bytes(files.drop_first())
    }
}

/// An uncompressed container holding `manifest` and `files`, with the four
/// reserved bytes `reserved`.
pub open spec fn pack_image(
    reserved: Seq<u8>,
    manifest: Seq<u8>,
    files: Seq<(Seq<char>, Seq<u8>)>,
) -> Seq<u8> {
    pack_magic() + reserved + spec_u32_to_le_bytes(manifest.len() as u32) + manifest
        + spec_u32_to_le_bytes(files.len() as u32) + index_bytes(files) + data_bytes(files)
}

/// Every length of the container fits its field.
pub open spec fn packable(manifest: Seq<u8>, files: Seq<(Seq<char>, Seq<u8>)>) -> bool {
    &&& manifest.len() <= u32::MAX
    &&& files.len() <= u32::MAX
    &&& forall|i: int|
        0 <= i < files.len() ==> encode_utf8(#[trigger] files[i].0).len() <= u16::MAX
            && files[i].1.len() <= u32::MAX
}

spec fn index_of(files: Seq<(Seq<char>, Seq<u8>)>) -> Seq<(Seq<char>, nat)> {
    files.map_values(|f: (Seq<char>, Seq<u8>)| (f.0, f.1.len()))
}

proof fn lemma_infix(p: Seq<u8>, x: Seq<u8>, s: Seq<u8>)
    ensures
        (p + x + s).subrange(p.len() as int, p.len() + x.len() as int) == x,
{
    assert((p + x + s).subrange(p.len() as int, p.len() + x.len() as int) =~= x);
}

proof fn lemma_window_split(raw: Seq<u8>, off: int, a: Seq<u8>, b: Seq<u8>)
    requires
        0 <= off,
        off + a.len() + b.len() <= raw.len(),
        raw.subrange(off, off + a.len() + b.len()) == a + b,
    ensures
        raw.subrange(off, off + a.len()) == a,
        raw.subrange(off + a.len(), off + a.len() + b.len()) == b,
{
    let w = raw.subrange(off, off + a.len() + b.len());
    assert forall|i: int| 0 <= i < a.len() implies raw.subrange(off, off + a.len())[i] == a[i] by {
        assert(w[i] == (a + b)[i]);
    }
    assert(raw.subrange(off, off + a.len()) =~= a);
    assert forall|i: int| 0 <= i < b.len() implies raw.subrange(
        off + a.len(),
        off + a.len() + b.len(),
    )[i] == b[i] by {
        assert(w[a.len() + i] == (a + b)[a.len() + i]);
    }
    assert(raw.subrange(off + a.len(), off + a.len() + b.len()) =~= b);
}

proof fn lemma_scan_index(
    raw: Seq<u8>,
    off: int,
    files: Seq<(Seq<char>, Seq<u8>)>,
    acc: Seq<(Seq<char>, nat)>,
)
    requires
        0 <= off,
        off + index_bytes(files).len() <= raw.len(),
        raw.subrange(off, off + index_bytes(files).len()) == index_bytes(files),
        forall|i: int|
            0 <= i < files.len() ==> encode_utf8(#[trigger] files[i].0).len() <= u16::MAX
                && files[i].1.len() <= u32::MAX,
    ensures
        scan_index(raw, off, files.len(), acc) == Ok::<(Seq<(Seq<char>, nat)>, int), PackError>(
            (acc + index_of(files), off + index_bytes(files).len()),
        ),
    decreases files.len(),
{
    broadcast use vstd::utf8::group_utf8_lib;

    if files.len() == 0 {
        assert(acc + index_of(files) =~= acc);
    } else {
        let path = files[0].0;
        let dl = files[0].1.len();
        let pb = encode_utf8(path);
        let rest = files.drop_first();
        assert(encode_utf8(files[0].0).len() <= u16::MAX && files[0].1.len() <= u32::MAX);
        let h = spec_u16_to_le_bytes(pb.len() as u16);
        let t = spec_u32_to_le_bytes(dl as u32);
        lemma_auto_spec_u16_to_from_le_bytes();
        lemma_auto_spec_u32_to_from_le_bytes();
        assert(h.len() == 2 && t.len() == 4);
        let ib = index_bytes(files);
        let rb = index_bytes(rest);
        assert(ib == index_entry_bytes(path, dl) + rb);
        assert(ib =~= h + (pb + (t + rb)));
        lemma_window_split(raw, off, h, pb + (t + rb));
        lemma_window_split(raw, off + 2, pb, t + rb);
        lemma_window_split(raw, off + 2 + pb.len(), t, rb);
        assert(le16_at(raw, off) == pb.len());
        assert(le32_at(raw, off + 2 + pb.len()) == dl);
        assert forall|i: int| 0 <= i < rest.len() implies encode_utf8(#[trigger] rest[i].0).len()
            <= u16::MAX && rest[i].1.len() <= u32::MAX by {
            assert(rest[i] == files[i + 1]);
        }
        let acc2 = acc.push((path, dl));
        lemma_scan_index(raw, off + 2 + pb.len() + 4, rest, acc2);
        assert(acc2 + index_of(rest) =~= acc + index_of(files));
    }
}

proof fn lemma_scan_payloads(
    raw: Seq<u8>,
    off: int,
    files: Seq<(Seq<char>, Seq<u8>)>,
    acc: Seq<(Seq<char>, Seq<u8>)>,
)
    requires
        0 <= off,
        off + data_bytes(files).len() <= raw.len(),
        raw.subrange(off, off + data_bytes(files).len()) == data_bytes(files),
    ensures
        scan_payloads(raw, index_of(files), off, acc) == Ok::<
            Seq<(Seq<char>, Seq<u8>)>,
            PackError,
        >(acc + files),
    decreases files.len(),
{
    let idx = index_of(files);
    if files.len() == 0 {
        assert(acc + files =~= acc);
    } else {
        let d = files[0].1;
        let rest = files.drop_first();
        assert(data_bytes(files) == d + data_bytes(rest));
        lemma_window_split(raw, off, d, data_bytes(rest));
        assert(idx[0] == (files[0].0, d.len()));
        assert(idx.drop_first() =~= index_of(rest));
        let acc2 = acc.push((files[0].0, d));
        lemma_scan_payloads(raw, off + d.len(), rest, acc2);
        assert(acc2 + rest =~= acc + files);
        assert(files[0] == (files[0].0, d));
    }
}

/// The container reads back as the files the packer wrote, in order, with
/// their paths and data, whatever the manifest and the reserved bytes hold;
/// such a container is not taken for gzip.
pub proof fn lemma_pack_roundtrip(
    reserved: Seq<u8>,
    manifest: Seq<u8>,
    files: Seq<(Seq<char>, Seq<u8>)>,
)
    requires
        reserved.len() == 4,
        packable(manifest, files),
    ensures
        spec_parse_pack(pack_image(reserved, manifest, files)) == Ok::<
            Seq<(Seq<char>, Seq<u8>)>,
            PackError,
        >(files),
        spec_decode_pack(pack_image(reserved, manifest, files)) == Ok::<
            Seq<(Seq<char>, Seq<u8>)>,
            PackError,
        >(files),
{
    lemma_auto_spec_u32_to_from_le_bytes();
    let raw = pack_image(reserved, manifest, files);
    let ml = spec_u32_to_le_bytes(manifest.len() as u32);
    let cnt = spec_u32_to_le_bytes(files.len() as u32);
    let ib = index_bytes(files);
    let db = data_bytes(files);
    assert(ml.len() == 4 && cnt.len() == 4);
    let head = pack_magic() + reserved;
    assert(head.len() == 8);
    // magic
    lemma_infix(Seq::empty(), pack_magic(), reserved + ml + manifest + cnt + ib + db);
    assert(raw =~= Seq::<u8>::empty() + pack_magic() + (reserved + ml + manifest + cnt + ib + db));
    // manifest length
    lemma_infix(head, ml, manifest + cnt + ib + db);
    assert(raw =~= head + ml + (manifest + cnt + ib + db));
    assert(le32_at(raw, 8) == manifest.len());
    let off: int = 12 + manifest.len() as int;
    // file count
    let pre = head + ml + manifest;
    assert(pre.len() == off);
    lemma_infix(pre, cnt, ib + db);
    assert(raw =~= pre + cnt + (ib + db));
    assert(le32_at(raw, off) == files.len());
    // index
    let pre2 = pre + cnt;
    lemma_infix(pre2, ib, db);
    assert(raw =~= pre2 + ib + db);
    lemma_scan_index(raw, off + 4, files, Seq::empty());
    assert(Seq::<(Seq<char>, nat)>::empty() + index_of(files) =~= index_of(files));
    // data
    let pre3 = pre2 + ib;
    lemma_infix(pre3, db, Seq::empty());
    assert(raw =~= pre3 + db + Seq::<u8>::empty());
    lemma_scan_payloads(raw, off + 4 + ib.len(), files, Seq::empty());
    assert(Seq::<(Seq<char>, Seq<u8>)>::empty() + files =~= files);
    assert(raw[0] == 0x4a);
}

} // verus!

verus! {

proof fn lemma_scan_index_len(raw: Seq<u8>, off: int, n: nat, acc: Seq<(Seq<char>, nat)>)
    ensures
        scan_index(raw, off, n, acc) matches Ok((idx, end)) ==> idx.len() == acc.len() + n && off <= end,
    decreases n,
{
    if n > 0 && off + 2 <= raw.len() {
        let p = off + 2;
        let plen = le16_at(raw, off);
        if p + plen <= raw.len() && valid_utf8(raw.subrange(p, p + plen)) && p + plen + 4
            <= raw.len() {
            let entry = (decode_utf8(raw.subrange(p, p + plen)), le32_at(raw, p + plen));
            lemma_scan_index_len(raw, p + plen + 4, (n - 1) as nat, acc.push(entry));
        }
    }
}

proof fn lemma_scan_payloads_len(
    raw: Seq<u8>,
    idx: Seq<(Seq<char>, nat)>,
    off: int,
    acc: Seq<(Seq<char>, Seq<u8>)>,
)
    ensures
        scan_payloads(raw, idx, off, acc) matches Ok(files) ==> files.len() == acc.len() + idx.len(),
    decreases idx.len(),
{
    if idx.len() > 0 && off + idx[0].1 <= raw.len() {
        let l = idx[0].1;
        let file = (idx[0].0, raw.subrange(off, off + l));
        lemma_scan_payloads_len(raw, idx.drop_first(), off + l, acc.push(file));
    }
}

/// A container shorter than its magic is truncated; one that does not start
/// with `"JSBP"` is refused as bad magic; a container that parses starts
/// with `"JSBP"` and yields as many files as its count field says.
pub proof fn lemma_pack_header(raw: Seq<u8>)
    ensures
        raw.len() < 4 ==> spec_parse_pack(raw) == Err::<Seq<(Seq<char>, Seq<u8>)>, PackError>(
            PackError::Truncated,
        ),
        raw.len() >= 4 && !(raw[0] == 0x4a && raw[1] == 0x53 && raw[2] == 0x42 && raw[3] == 0x50)
            ==> spec_parse_pack(raw) == Err::<Seq<(Seq<char>, Seq<u8>)>, PackError>(
            PackError::BadMagic,
        ),
        spec_parse_pack(raw) matches Ok(files) ==> {
            &&& raw.len() >= 16
            &&& raw[0] == 0x4a && raw[1] == 0x53 && raw[2] == 0x42 && raw[3] == 0x50
            &&& files.len() == le32_at(raw, 12 + le32_at(raw, 8) as int)
        },
{
    if raw.len() >= 4 {
        if raw[0] == 0x4a && raw[1] == 0x53 && raw[2] == 0x42 && raw[3] == 0x50 {
            assert(raw.subrange(0, 4) =~= pack_magic());
        } else {
            assert(raw.subrange(0, 4)[0] == raw[0]);
            assert(raw.subrange(0, 4)[1] == raw[1]);
            assert(raw.subrange(0, 4)[2] == raw[2]);
            assert(raw.subrange(0, 4)[3] == raw[3]);
        }
        if raw.len() >= 12 {
            let off = 12 + le32_at(raw, 8) as int;
            if off + 4 <= raw.len() {
                let count = le32_at(raw, off);
                lemma_scan_index_len(raw, off + 4, count, Seq::empty());
                match scan_index(raw, off + 4, count, Seq::empty()) {
                    Ok((idx, end)) => {
                        lemma_scan_payloads_len(raw, idx, end, Seq::empty());
                    },
                    Err(_) => {},
                }
            }
        }
    }
}

} // verus!
