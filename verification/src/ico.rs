//! ICO: a directory of images, each with a one-byte width and height; the
//! size reported is that of the biggest image.
use crate::bytes::{can_read, load_u16, u16_at, Endian};
use crate::window::{agrees, complete, held, fetch_u8, within, Fetched, Window};
use crate::format::{ImError, ImFormat, ImInfo, ImResult};
use vstd::prelude::*;

verus! {

/// The width and height bytes of directory entry `i`.
pub open spec fn ico_entry(d: Seq<u8>, i: int) -> (u8, u8) {
    (d[6 + 16 * i], d[6 + 16 * i + 1])
}

/// The size kept after the first `k` entries: an entry replaces the size kept
/// so far when it is at least as wide and at least as high.
pub open spec fn ico_best(d: Seq<u8>, k: nat) -> (u8, u8)
    decreases k,
{
    if k == 0 {
        (0, 0)
    } else {
        let (w, h) = ico_best(d, (k - 1) as nat);
        let (ew, eh) = ico_entry(d, k - 1);
        if ew >= w && eh >= h {
            (ew, eh)
        } else {
            (w, h)
        }
    }
}

/// The number of directory entries, from the header `p`.
pub open spec fn ico_count(p: Seq<u8>) -> nat {
    u16_at(Endian::Little, p, 4) as nat
}

/// The outcome of reading an ICO file `d` whose first bytes are `p`.
pub open spec fn ico_result(d: Seq<u8>, p: Seq<u8>) -> ImResult<ImInfo> {
    let count = ico_count(p);
    if count > 0 && !can_read(d, 6, 16 * count as int) {
        Err(ImError::ParserError(ImFormat::ICO))
    } else {
        Ok(
            ImInfo {
                width: ico_best(d, count).0 as u64,
                height: ico_best(d, count).1 as u64,
                format: ImFormat::ICO,
            },
        )
    }
}

/// Reads the size of the biggest image of an ICO file, through the window
/// `w`: the result holds of every stream the window agrees with.
pub fn parse_ico(w: &Window, pre: &[u8]) -> (r: Fetched<ImResult<ImInfo>>)
    requires
        w.len <= i64::MAX,
        pre.len() >= 6,
    ensures
        r matches Fetched::Got(x) ==> forall|d: Seq<u8>|
            #[trigger] agrees(w, d) ==> x == ico_result(d, pre@),
        r matches Fetched::Need(p, n) ==> n > 0 && p + n <= w.len && !held(
            w,
            p as int,
            n as int,
        ),
        complete(w) ==> r is Got,
{
    let count = load_u16(Endian::Little, pre, 4) as u64;
    let mut width: u8 = 0;
    let mut height: u8 = 0;
    let mut i: u64 = 0;
    while i < count
        invariant
            w.len <= i64::MAX,
            count == ico_count(pre@),
            i <= count,
            forall|d: Seq<u8>|
                #[trigger] agrees(w, d) ==> (i > 0 ==> can_read(d, 6, 16 * i)) && (width, height)
                    == ico_best(d, i as nat),
        decreases count - i,
    {
        let at = 6 + 16 * i;
        if !within(w, at, 16) {
            proof {
                assert forall|d: Seq<u8>| #[trigger] agrees(w, d) implies !can_read(
                    d,
                    6,
                    16 * count as int,
                ) by {}
            }
            return Fetched::Got(Err(ImError::ParserError(ImFormat::ICO)));
        }
        let ew = match fetch_u8(w, at) {
            Fetched::Got(v) => v,
            Fetched::Need(p, n) => {
                return Fetched::Need(p, n);
            },
        };
        let eh = match fetch_u8(w, at + 1) {
            Fetched::Got(v) => v,
            Fetched::Need(p, n) => {
                return Fetched::Need(p, n);
            },
        };
        if ew >= width && eh >= height {
            width = ew;
            height = eh;
        }
        i = i + 1;
    }
    Fetched::Got(Ok(ImInfo { width: width as u64, height: height as u64, format: ImFormat::ICO }))
}

} // verus!
