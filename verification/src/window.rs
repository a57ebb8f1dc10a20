//! A partial view of a stream: its length and some of its bytes. Reading
//! goes through a window so that only the bytes a format needs have to be
//! fetched; where a needed byte is missing, the reader says which bytes to
//! fetch.
use crate::bytes::{can_read, load_u16, load_u32, u16_at, u32_at, Endian};
use vstd::prelude::*;

verus! {

/// Bytes of the stream starting at `offset`.
#[derive(Debug, Clone)]
pub struct Segment {
    pub offset: u64,
    pub bytes: Vec<u8>,
}

/// The length of a stream and some segments of it.
#[derive(Debug, Clone)]
pub struct Window {
    pub len: u64,
    pub segments: Vec<Segment>,
}

/// Whether the stream `d` has the length and the bytes the window shows.
pub open spec fn agrees(w: &Window, d: Seq<u8>) -> bool {
    &&& d.len() == w.len
    &&& forall|k: int, j: int|
        0 <= k < w.segments@.len() && 0 <= j < w.segments@[k].bytes@.len() ==> w.segments@[k].offset
            + j < d.len() && d[w.segments@[k].offset + j] == #[trigger] w.segments@[k].bytes@[j]
}

/// Whether the window's first segment holds the whole stream.
pub open spec fn complete(w: &Window) -> bool {
    w.segments@.len() > 0 && w.segments@[0].offset == 0 && w.segments@[0].bytes@.len() == w.len
}

/// Whether one segment of the window holds all `n` bytes at `q`.
pub open spec fn held(w: &Window, q: int, n: int) -> bool {
    exists|k: int|
        0 <= k < w.segments@.len() && w.segments@[k].offset <= q && q + n <= w.segments@[k].offset
            + #[trigger] w.segments@[k].bytes@.len()
}

/// A read through a window: the value, or the bytes to fetch first.
#[derive(Debug, PartialEq, Eq)]
pub enum Fetched<T> {
    Got(T),
    /// `len` bytes at `pos`, all within the stream, are not in the window.
    Need(u64, u64),
}

/// The window showing all of `data`.
pub fn whole(data: &[u8]) -> (w: Window)
    ensures
        agrees(&w, data@),
        complete(&w),
{
    let bytes = vstd::slice::slice_to_vec(data);
    let mut segments: Vec<Segment> = Vec::new();
    segments.push(Segment { offset: 0, bytes });
    Window { len: data.len() as u64, segments }
}

/// A segment that holds the `n` bytes at `pos`: its index and the offset of
/// `pos` in it.
fn find_segment(w: &Window, pos: u64, n: u64) -> (r: Option<(usize, usize)>)
    requires
        pos + n <= w.len,
    ensures
        r matches Some((k, o)) ==> k < w.segments@.len() && o + n <= w.segments@[k as int].bytes@.len()
            && w.segments@[k as int].offset + o == pos,
        r is None ==> !held(w, pos as int, n as int),
        complete(w) ==> r is Some,
{
    let mut k: usize = 0;
    while k < w.segments.len()
        invariant
            pos + n <= w.len,
            k <= w.segments@.len(),
            complete(w) ==> k == 0,
            forall|j: int|
                0 <= j < k ==> !(w.segments@[j].offset <= pos && pos + n <= w.segments@[j].offset
                    + #[trigger] w.segments@[j].bytes@.len()),
        decreases w.segments@.len() - k,
    {
        let seg = &w.segments[k];
        let blen = seg.bytes.len() as u64;
        if seg.offset <= pos && n <= blen && pos - seg.offset <= blen - n {
            return Some((k, (pos - seg.offset) as usize));
        }
        k += 1;
    }
    None
}

/// The `n` bytes at `pos`, which lie within the stream.
pub fn fetch_bytes(w: &Window, pos: u64, n: u64) -> (r: Fetched<Vec<u8>>)
    requires
        pos + n <= w.len,
        n > 0,
    ensures
        r matches Fetched::Got(b) ==> b@.len() == n && forall|d: Seq<u8>|
            #[trigger] agrees(w, d) ==> b@ == d.subrange(pos as int, pos + n),
        r matches Fetched::Need(p, m) ==> p == pos && m == n && !held(w, p as int, m as int),
        complete(w) ==> r is Got,
{
    match find_segment(w, pos, n) {
        None => Fetched::Need(pos, n),
        Some((k, o)) => {
            let seg = &w.segments[k].bytes;
            let seg_len = seg.len();
            assert(seg@ == w.segments@[k as int].bytes@);
            assert(n <= seg_len);
            let count: usize = n as usize;
            let mut b: Vec<u8> = Vec::new();
            let mut i: usize = 0;
            while i < count
                invariant
                    k < w.segments@.len(),
                    seg == w.segments@[k as int].bytes,
                    count == n,
                    seg_len == seg@.len(),
                    o + n <= seg@.len(),
                    w.segments@[k as int].offset + o == pos,
                    i <= n,
                    b@.len() == i,
                    forall|j: int| 0 <= j < i ==> b@[j] == seg@[o + j],
                decreases n - i,
            {
                b.push(seg[o + i]);
                i += 1;
            }
            proof {
                assert forall|d: Seq<u8>| #[trigger] agrees(w, d) implies b@ == d.subrange(
                    pos as int,
                    pos + n,
                ) by {
                    assert forall|j: int| 0 <= j < n implies #[trigger] b@[j] == d[pos + j] by {
                        assert(b@[j] == seg@[o + j]);
                        assert(d[w.segments@[k as int].offset + (o + j)]
                            == w.segments@[k as int].bytes@[o + j]);
                    }
                    assert(b@ =~= d.subrange(pos as int, pos + n));
                }
            }
            Fetched::Got(b)
        },
    }
}

/// Whether `n` bytes at `pos` lie within the stream.
pub fn within(w: &Window, pos: u64, n: u64) -> (r: bool)
    ensures
        r == (pos + n <= w.len),
        forall|d: Seq<u8>| agrees(w, d) ==> (r == can_read(d, pos as int, n as int)),
{
    pos <= w.len && n <= w.len - pos
}

/// The byte at `pos`, which lies within the stream.
pub fn fetch_u8(w: &Window, pos: u64) -> (r: Fetched<u8>)
    requires
        pos + 1 <= w.len,
    ensures
        r matches Fetched::Got(v) ==> forall|d: Seq<u8>| #[trigger] agrees(w, d) ==> v == d[pos as int],
        r matches Fetched::Need(p, n) ==> p == pos && n == 1 && !held(w, p as int, n as int),
        complete(w) ==> r is Got,
{
    match find_segment(w, pos, 1) {
        None => Fetched::Need(pos, 1),
        Some((k, o)) => {
            let v = w.segments[k].bytes[o];
            proof {
                assert forall|d: Seq<u8>| #[trigger] agrees(w, d) implies v == d[pos as int] by {
                    assert(d[pos + 0] == w.segments@[k as int].bytes@[o + 0]);
                }
            }
            Fetched::Got(v)
        },
    }
}

/// The 16-bit value at `pos`, which lies within the stream.
pub fn fetch_u16(e: Endian, w: &Window, pos: u64) -> (r: Fetched<u16>)
    requires
        pos + 2 <= w.len,
    ensures
        r matches Fetched::Got(v) ==> forall|d: Seq<u8>|
            #[trigger] agrees(w, d) ==> v == u16_at(e, d, pos as int),
        r matches Fetched::Need(p, n) ==> p == pos && n == 2 && !held(w, p as int, n as int),
        complete(w) ==> r is Got,
{
    match find_segment(w, pos, 2) {
        None => Fetched::Need(pos, 2),
        Some((k, o)) => {
            let v = load_u16(e, w.segments[k].bytes.as_slice(), o as u64);
            proof {
                assert forall|d: Seq<u8>| #[trigger] agrees(w, d) implies v == u16_at(
                    e,
                    d,
                    pos as int,
                ) by {
                    assert(d[pos + 0] == w.segments@[k as int].bytes@[o + 0]);
                    assert(d[pos + 1] == w.segments@[k as int].bytes@[o + 1]);
                }
            }
            Fetched::Got(v)
        },
    }
}

/// The 32-bit value at `pos`, which lies within the stream.
pub fn fetch_u32(e: Endian, w: &Window, pos: u64) -> (r: Fetched<u32>)
    requires
        pos + 4 <= w.len,
    ensures
        r matches Fetched::Got(v) ==> forall|d: Seq<u8>|
            #[trigger] agrees(w, d) ==> v == u32_at(e, d, pos as int),
        r matches Fetched::Need(p, n) ==> p == pos && n == 4 && !held(w, p as int, n as int),
        complete(w) ==> r is Got,
{
    match find_segment(w, pos, 4) {
        None => Fetched::Need(pos, 4),
        Some((k, o)) => {
            let v = load_u32(e, w.segments[k].bytes.as_slice(), o as u64);
            proof {
                assert forall|d: Seq<u8>| #[trigger] agrees(w, d) implies v == u32_at(
                    e,
                    d,
                    pos as int,
                ) by {
                    assert(d[pos + 0] == w.segments@[k as int].bytes@[o + 0]);
                    assert(d[pos + 1] == w.segments@[k as int].bytes@[o + 1]);
                    assert(d[pos + 2] == w.segments@[k as int].bytes@[o + 2]);
                    assert(d[pos + 3] == w.segments@[k as int].bytes@[o + 3]);
                }
            }
            Fetched::Got(v)
        },
    }
}

/// Whether the stream holds the bytes `m` at `pos`, which lie within it.
pub fn fetch_has(w: &Window, pos: u64, m: &[u8]) -> (r: Fetched<bool>)
    requires
        pos + m@.len() <= w.len,
    ensures
        r matches Fetched::Got(v) ==> forall|d: Seq<u8>|
            #[trigger] agrees(w, d) ==> v == crate::bytes::has_at(d, pos as int, m@),
        r matches Fetched::Need(p, n) ==> p == pos && n == m@.len() && n > 0 && !held(w, p as int, n as int),
        complete(w) ==> r is Got,
{
    let n = m.len() as u64;
    if n == 0 {
        proof {
            assert forall|d: Seq<u8>| #[trigger] agrees(w, d) implies crate::bytes::has_at(
                d,
                pos as int,
                m@,
            ) by {
                assert(d.subrange(pos as int, pos as int) =~= m@);
            }
        }
        return Fetched::Got(true);
    }
    match find_segment(w, pos, n) {
        None => Fetched::Need(pos, n),
        Some((k, o)) => {
            let v = crate::bytes::bytes_at(w.segments[k].bytes.as_slice(), o, m);
            proof {
                assert forall|d: Seq<u8>| #[trigger] agrees(w, d) implies v == crate::bytes::has_at(
                    d,
                    pos as int,
                    m@,
                ) by {
                    assert forall|i: int| 0 <= i < n implies #[trigger] d[pos + i]
                        == w.segments@[k as int].bytes@[o + i] by {
                    }
                    assert(d.subrange(pos as int, pos + n) =~= w.segments@[k as int].bytes@.subrange(
                        o as int,
                        o + n,
                    ));
                }
            }
            Fetched::Got(v)
        },
    }
}

} // verus!
