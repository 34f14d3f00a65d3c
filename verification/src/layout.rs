//! Little-endian layout of flat `#[repr(C)]` records.
//!
//! Every record exchanged with the flight-model module is a run of naturally
//! aligned 32-bit and 64-bit words with no implicit padding, so its byte
//! image is the concatenation of the little-endian encodings of its words.
use vstd::bytes::*;
use vstd::slice::slice_subrange;
use vstd::prelude::*;

verus! {

broadcast use vstd::seq::group_seq_axioms;

/// Width of one word of a record.
#[derive(Clone, Copy, Debug, PartialEq, Eq, Structural)]
pub enum Width {
    W4,
    W8,
}

/// One word of a record, as it is stored in memory.
#[derive(Clone, Copy, Debug, PartialEq, Eq, Structural)]
pub enum Word {
    U32(u32),
    U64(u64),
}

pub open spec fn width_len(w: Width) -> nat {
    match w {
        Width::W4 => 4,
        Width::W8 => 8,
    }
}

pub open spec fn width_of(f: Word) -> Width {
    match f {
        Word::U32(_) => Width::W4,
        Word::U64(_) => Width::W8,
    }
}

/// The 32-bit value of a word (0 for a 64-bit word).
pub open spec fn word_u32(f: Word) -> u32 {
    match f {
        Word::U32(x) => x,
        Word::U64(_) => 0,
    }
}

/// The 64-bit value of a word (0 for a 32-bit word).
pub open spec fn word_u64(f: Word) -> u64 {
    match f {
        Word::U32(_) => 0,
        Word::U64(x) => x,
    }
}

/// The layout (sequence of widths) of a sequence of words.
pub open spec fn layout_of(fs: Seq<Word>) -> Seq<Width> {
    fs.map_values(|f: Word| width_of(f))
}

/// Total byte size of a layout.
pub open spec fn layout_size(ws: Seq<Width>) -> nat
    decreases ws.len(),
{
    if ws.len() == 0 {
        0
    } else {
        layout_size(ws.drop_last()) + width_len(ws.last())
    }
}

/// Little-endian bytes of one word.
pub open spec fn word_bytes(f: Word) -> Seq<u8> {
    match f {
        Word::U32(x) => spec_u32_to_le_bytes(x),
        Word::U64(x) => spec_u64_to_le_bytes(x),
    }
}

/// Byte image of a sequence of words laid out back to back.
pub open spec fn encode_words(fs: Seq<Word>) -> Seq<u8>
    decreases fs.len(),
{
    if fs.len() == 0 {
        Seq::empty()
    } else {
        encode_words(fs.drop_last()) + word_bytes(fs.last())
    }
}

/// The word of width `w` stored in the bytes `s`.
pub open spec fn decode_word(w: Width, s: Seq<u8>) -> Word {
    match w {
        Width::W4 => Word::U32(spec_u32_from_le_bytes(s)),
        Width::W8 => Word::U64(spec_u64_from_le_bytes(s)),
    }
}

/// The words of layout `ws` read from the front of `b`.
pub open spec fn decode_words(ws: Seq<Width>, b: Seq<u8>) -> Seq<Word>
    decreases ws.len(),
{
    if ws.len() == 0 {
        Seq::empty()
    } else {
        let pre = ws.drop_last();
        let off = layout_size(pre) as int;
        decode_words(pre, b).push(
            decode_word(ws.last(), b.subrange(off, off + width_len(ws.last()))),
        )
    }
}

pub proof fn lemma_word_bytes(f: Word)
    ensures
        word_bytes(f).len() == width_len(width_of(f)),
        decode_word(width_of(f), word_bytes(f)) == f,
{
    lemma_auto_spec_u32_to_from_le_bytes();
    lemma_auto_spec_u64_to_from_le_bytes();
    match f {
        Word::U32(x) => {
            assert(spec_u32_to_le_bytes(x).len() == 4);
        },
        Word::U64(x) => {
            assert(spec_u64_to_le_bytes(x).len() == 8);
        },
    }
}

pub proof fn lemma_decode_word(w: Width, s: Seq<u8>)
    requires
        s.len() == width_len(w),
    ensures
        width_of(decode_word(w, s)) == w,
        word_bytes(decode_word(w, s)) == s,
{
    lemma_auto_spec_u32_to_from_le_bytes();
    lemma_auto_spec_u64_to_from_le_bytes();
    match w {
        Width::W4 => {
            assert(spec_u32_to_le_bytes(spec_u32_from_le_bytes(s)) == s);
        },
        Width::W8 => {
            assert(spec_u64_to_le_bytes(spec_u64_from_le_bytes(s)) == s);
        },
    }
}

pub proof fn lemma_layout_of_push(fs: Seq<Word>, f: Word)
    ensures
        layout_of(fs.push(f)) == layout_of(fs).push(width_of(f)),
        layout_of(fs).len() == fs.len(),
{
    assert(layout_of(fs.push(f)) =~= layout_of(fs).push(width_of(f)));
}

/// The byte image of a sequence of words is as long as its layout says.
pub proof fn lemma_encode_len(fs: Seq<Word>)
    ensures
        encode_words(fs).len() == layout_size(layout_of(fs)),
    decreases fs.len(),
{
    if fs.len() > 0 {
        let pre = fs.drop_last();
        lemma_encode_len(pre);
        lemma_layout_of_push(pre, fs.last());
        assert(pre.push(fs.last()) =~= fs);
        assert(layout_of(fs).drop_last() =~= layout_of(pre));
        lemma_word_bytes(fs.last());
    }
}

/// Appending a word to a layout grows it by the word's width.
pub broadcast proof fn lemma_layout_size_push(ws: Seq<Width>, w: Width)
    ensures
        #[trigger] layout_size(ws.push(w)) == layout_size(ws) + width_len(w),
{
    assert(ws.push(w).drop_last() =~= ws);
}

/// No word is wider than eight bytes.
pub proof fn lemma_layout_size_bound(ws: Seq<Width>)
    ensures
        layout_size(ws) <= 8 * ws.len(),
    decreases ws.len(),
{
    if ws.len() > 0 {
        lemma_layout_size_bound(ws.drop_last());
    }
}

/// A prefix of a layout is no larger than the layout.
pub proof fn lemma_layout_size_prefix(ws: Seq<Width>, i: int)
    requires
        0 <= i <= ws.len(),
    ensures
        layout_size(ws.take(i)) <= layout_size(ws),
        i < ws.len() ==> layout_size(ws.take(i + 1)) == layout_size(ws.take(i)) + width_len(ws[i]),
    decreases ws.len(),
{
    if i < ws.len() {
        assert(ws.take(i + 1).drop_last() =~= ws.take(i));
    }
    if i == ws.len() {
        assert(ws.take(i) =~= ws);
    } else {
        let pre = ws.drop_last();
        lemma_layout_size_prefix(pre, i);
        assert(pre.take(i) =~= ws.take(i));
    }
}

/// Reading words back from a byte image gives the words that were written,
/// whatever follows the image.
pub proof fn lemma_decode_encode_words(fs: Seq<Word>, rest: Seq<u8>)
    ensures
        decode_words(layout_of(fs), encode_words(fs) + rest) == fs,
    decreases fs.len(),
{
    if fs.len() == 0 {
        assert(decode_words(layout_of(fs), encode_words(fs) + rest) =~= fs);
    } else {
        let pre = fs.drop_last();
        let l = fs.last();
        assert(pre.push(l) =~= fs);
        lemma_layout_of_push(pre, l);
        let ws = layout_of(fs);
        assert(ws.drop_last() =~= layout_of(pre));
        let rest2 = word_bytes(l) + rest;
        lemma_decode_encode_words(pre, rest2);
        assert(encode_words(fs) + rest =~= encode_words(pre) + rest2);
        lemma_encode_len(pre);
        lemma_word_bytes(l);
        let off = layout_size(layout_of(pre)) as int;
        assert((encode_words(pre) + rest2).subrange(off, off + width_len(width_of(l)))
            =~= word_bytes(l));
    }
}

/// Reading words from bytes and writing them back gives the bytes that were
/// read; the words read have the layout asked for.
pub proof fn lemma_encode_decode_words(ws: Seq<Width>, b: Seq<u8>)
    requires
        layout_size(ws) <= b.len(),
    ensures
        layout_of(decode_words(ws, b)) == ws,
        encode_words(decode_words(ws, b)) == b.take(layout_size(ws) as int),
    decreases ws.len(),
{
    if ws.len() == 0 {
        assert(layout_of(decode_words(ws, b)) =~= ws);
        assert(b.take(0) =~= Seq::<u8>::empty());
    } else {
        let pre = ws.drop_last();
        let w = ws.last();
        lemma_encode_decode_words(pre, b);
        let off = layout_size(pre) as int;
        let s = b.subrange(off, off + width_len(w));
        lemma_decode_word(w, s);
        let d = decode_words(ws, b);
        assert(d.drop_last() =~= decode_words(pre, b));
        assert(decode_words(pre, b).push(decode_word(w, s)) =~= d);
        lemma_layout_of_push(decode_words(pre, b), decode_word(w, s));
        assert(pre.push(w) =~= ws);
        assert(b.take(off) + s =~= b.take(off + width_len(w)));
    }
}

/// Byte offset of word `i` in a record of layout `ws`.
pub open spec fn word_offset(ws: Seq<Width>, i: int) -> int {
    layout_size(ws.take(i)) as int
}

/// Word `i` of a byte image sits at its offset: the bytes there are the
/// word's little-endian encoding.
pub proof fn lemma_encode_word_at(fs: Seq<Word>, i: int)
    requires
        0 <= i < fs.len(),
    ensures
        word_offset(layout_of(fs), i) + width_len(width_of(fs[i])) <= encode_words(fs).len(),
        encode_words(fs).subrange(
            word_offset(layout_of(fs), i),
            word_offset(layout_of(fs), i) + width_len(width_of(fs[i])),
        ) == word_bytes(fs[i]),
    decreases fs.len(),
{
    let pre = fs.drop_last();
    let l = fs.last();
    assert(pre.push(l) =~= fs);
    lemma_layout_of_push(pre, l);
    lemma_encode_len(pre);
    lemma_encode_len(fs);
    lemma_word_bytes(fs[i]);
    let ws = layout_of(fs);
    assert(ws.drop_last() =~= layout_of(pre));
    assert(encode_words(fs) == encode_words(pre) + word_bytes(l));
    if i == fs.len() - 1 {
        assert(ws.take(i) =~= layout_of(pre));
        assert(encode_words(fs).subrange(
            word_offset(ws, i),
            word_offset(ws, i) + width_len(width_of(fs[i])),
        ) =~= word_bytes(l));
    } else {
        lemma_encode_word_at(pre, i);
        assert(layout_of(pre).take(i) =~= ws.take(i));
        assert(pre[i] == fs[i]);
        let a = word_offset(ws, i);
        let e = a + width_len(width_of(fs[i]));
        assert(encode_words(fs).subrange(a, e) =~= encode_words(pre).subrange(a, e));
    }
}

proof fn lemma_decode_len(ws: Seq<Width>, b: Seq<u8>)
    ensures
        decode_words(ws, b).len() == ws.len(),
    decreases ws.len(),
{
    if ws.len() > 0 {
        lemma_decode_len(ws.drop_last(), b);
    }
}

/// Word `i` read from bytes `b` is the word of width `ws[i]` stored at its
/// offset.
pub proof fn lemma_decode_word_at(ws: Seq<Width>, b: Seq<u8>, i: int)
    requires
        0 <= i < ws.len(),
    ensures
        decode_words(ws, b).len() == ws.len(),
        decode_words(ws, b)[i] == decode_word(
            ws[i],
            b.subrange(word_offset(ws, i), word_offset(ws, i) + width_len(ws[i])),
        ),
    decreases ws.len(),
{
    let pre = ws.drop_last();
    lemma_decode_len(ws, b);
    lemma_decode_len(pre, b);
    if i == ws.len() - 1 {
        assert(ws.take(i) =~= pre);
    } else {
        lemma_decode_word_at(pre, b, i);
        assert(pre.take(i) =~= ws.take(i));
    }
}

/// Offsets grow by the width of each word, from 0.
pub proof fn lemma_word_offset_step(ws: Seq<Width>, i: int)
    requires
        0 <= i < ws.len(),
    ensures
        word_offset(ws, 0) == 0,
        word_offset(ws, i + 1) == word_offset(ws, i) + width_len(ws[i]),
{
    assert(ws.take(0) =~= Seq::<Width>::empty());
    lemma_layout_size_prefix(ws, i);
}

/// Byte size of a layout, computed.
pub fn layout_bytes(ws: &Vec<Width>) -> (n: usize)
    requires
        layout_size(ws@) <= usize::MAX,
    ensures
        n == layout_size(ws@),
{
    let mut n: usize = 0;
    let mut i: usize = 0;
    while i < ws.len()
        invariant
            i <= ws@.len(),
            n == layout_size(ws@.take(i as int)),
            layout_size(ws@) <= usize::MAX,
        decreases ws@.len() - i,
    {
        proof {
            lemma_layout_size_prefix(ws@, i as int);
            lemma_layout_size_prefix(ws@, i as int + 1);
        }
        match ws[i] {
            Width::W4 => n = n + 4,
            Width::W8 => n = n + 8,
        }
        i = i + 1;
    }
    assert(ws@.take(i as int) =~= ws@);
    n
}

/// Writes the words back to back, little-endian.
pub fn write_words(fs: &Vec<Word>) -> (out: Vec<u8>)
    ensures
        out@ == encode_words(fs@),
{
    let mut out: Vec<u8> = Vec::new();
    let mut i: usize = 0;
    while i < fs.len()
        invariant
            i <= fs@.len(),
            out@ == encode_words(fs@.take(i as int)),
        decreases fs@.len() - i,
    {
        let mut bytes = match fs[i] {
            Word::U32(x) => u32_to_le_bytes(x),
            Word::U64(x) => u64_to_le_bytes(x),
        };
        assert(bytes@ == word_bytes(fs@[i as int]));
        out.append(&mut bytes);
        assert(fs@.take(i as int + 1).drop_last() =~= fs@.take(i as int));
        i = i + 1;
    }
    assert(fs@.take(i as int) =~= fs@);
    out
}

/// Reads the words of layout `ws` from the front of `b`.
pub fn read_words(ws: &Vec<Width>, b: &[u8]) -> (fs: Vec<Word>)
    requires
        layout_size(ws@) <= b@.len(),
    ensures
        fs@ == decode_words(ws@, b@),
{
    let mut fs: Vec<Word> = Vec::new();
    let mut i: usize = 0;
    let mut off: usize = 0;
    let blen = b.len();
    while i < ws.len()
        invariant
            blen == b@.len(),
            i <= ws@.len(),
            off == layout_size(ws@.take(i as int)),
            layout_size(ws@) <= b@.len(),
            fs@ == decode_words(ws@.take(i as int), b@),
        decreases ws@.len() - i,
    {
        proof {
            lemma_layout_size_prefix(ws@, i as int);
            lemma_layout_size_prefix(ws@, i as int + 1);
            lemma_layout_size_prefix(ws@, ws@.len() as int);
            assert(ws@.take(ws@.len() as int) =~= ws@);
            assert(ws@.take(i as int + 1).drop_last() =~= ws@.take(i as int));
            assert(off + width_len(ws@[i as int]) <= b@.len());
        }
        let w = ws[i];
        match w {
            Width::W4 => {
                let x = u32_from_le_bytes(slice_subrange(b, off, off + 4));
                fs.push(Word::U32(x));
                off = off + 4;
            },
            Width::W8 => {
                let x = u64_from_le_bytes(slice_subrange(b, off, off + 8));
                fs.push(Word::U64(x));
                off = off + 8;
            },
        }
        i = i + 1;
    }
    assert(ws@.take(i as int) =~= ws@);
    fs
}

impl Word {
    /// The 32-bit value held (0 for a 64-bit word).
    pub fn get_u32(&self) -> (r: u32)
        ensures
            r == word_u32(*self),
    {
        match self {
            Word::U32(x) => *x,
            Word::U64(_) => 0,
        }
    }

    /// The 64-bit value held (0 for a 32-bit word).
    pub fn get_u64(&self) -> (r: u64)
        ensures
            r == word_u64(*self),
    {
        match self {
            Word::U32(_) => 0,
            Word::U64(x) => *x,
        }
    }
}

} // verus!
