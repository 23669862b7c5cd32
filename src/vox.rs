//! Framing of `.vox` bytes, and the call that parses them.
//!
//! A `.vox` file is `VOX `, a version word, then a `MAIN` chunk whose children
//! are the model chunks. Each chunk header is an id and two little-endian
//! 32-bit lengths: its content, then its children.

use vstd::prelude::*;

verus! {

/// The little-endian 32-bit word at `at`.
pub open spec fn le_u32(b: Seq<u8>, at: int) -> int {
    b[at] as int + b[at + 1] as int * 256 + b[at + 2] as int * 65536 + b[at + 3] as int * 16777216
}

/// Bytes spanned by the chunk whose header is at `at`.
pub open spec fn chunk_span(b: Seq<u8>, at: int) -> int {
    12 + le_u32(b, at + 4) + le_u32(b, at + 8)
}

/// The chunks from `o` up to `end` each end within the bytes, up to the first
/// header that is cut short.
pub open spec fn children_fit(b: Seq<u8>, o: int, end: int) -> bool
    decreases b.len() - o
    via children_fit_decreases
{
    if o >= end || o < 0 || o + 12 > b.len() {
        true
    } else {
        o + chunk_span(b, o) <= b.len() && children_fit(b, o + chunk_span(b, o), end)
    }
}

#[via_fn]
proof fn children_fit_decreases(b: Seq<u8>, o: int, end: int) {
    if !(o >= end || o < 0 || o + 12 > b.len()) {
        lemma_span_positive(b, o);
    }
}

proof fn lemma_span_positive(b: Seq<u8>, at: int)
    requires
        0 <= at,
        at + 12 <= b.len(),
    ensures
        chunk_span(b, at) >= 12,
{
}

/// The `MAIN` chunk, when its header is complete, and each of its children
/// end within the bytes, and the bytes fit 32-bit offsets.
pub open spec fn vox_frames_fit(b: Seq<u8>) -> bool {
    &&& b.len() <= u32::MAX
    &&& b.len() >= 20 ==> {
        &&& 8 + chunk_span(b, 8) <= b.len()
        &&& children_fit(b, 20 + le_u32(b, 12), 8 + chunk_span(b, 8))
    }
}

fn read_le_u32(b: &[u8], at: usize) -> (r: u64)
    requires
        at + 4 <= b@.len(),
    ensures
        r == le_u32(b@, at as int),
{
    b[at] as u64 + b[at + 1] as u64 * 256 + b[at + 2] as u64 * 65536 + b[at + 3] as u64 * 16777216
}

/// Whether the chunk lengths of `.vox` bytes stay within them.
pub fn vox_frames_checked(b: &[u8]) -> (r: bool)
    ensures
        r == vox_frames_fit(b@),
{
    let len = b.len();
    if len > u32::MAX as usize {
        return false;
    }
    if len < 20 {
        return true;
    }
    let main_end: u64 = 20 + read_le_u32(b, 12) + read_le_u32(b, 16);
    if main_end > len as u64 {
        return false;
    }
    let mut o: u64 = 20 + read_le_u32(b, 12);
    while o < main_end
        invariant
            len == b@.len(),
            len <= u32::MAX,
            main_end <= len,
            o <= len,
            vox_frames_fit(b@) == children_fit(b@, o as int, main_end as int),
        decreases len - o,
    {
        if o + 12 > len as u64 {
            return true;
        }
        let span: u64 = 12 + read_le_u32(b, (o + 4) as usize) + read_le_u32(b, (o + 8) as usize);
        proof {
            lemma_span_positive(b@, o as int);
        }
        if o + span > len as u64 {
            return false;
        }
        o = o + span;
    }
    true
}

/// The models that `vox_format::from_slice` reads from `.vox` bytes: for each
/// model its voxels as `(x, y, z, color index)`, each coordinate byte taken
/// unsigned. `None` where the bytes are not a readable `.vox` file.
pub uninterp spec fn vox_models(bytes: Seq<u8>) -> Option<Seq<Seq<(u8, u8, u8, u8)>>>;

/// Relies on `vox_format::from_slice`: it parses `.vox` bytes into models, each
/// a list of voxels, and the result depends on the bytes alone. It adds chunk
/// offsets and lengths in 32 bits, so it is called only on bytes whose chunk
/// lengths stay within them.
#[verifier::external_body]
pub(crate) fn read_vox(bytes: &[u8]) -> (r: Option<Vec<Vec<(u8, u8, u8, u8)>>>)
    requires
        vox_frames_fit(bytes@),
    ensures
        match vox_models(bytes@) {
            None => r is None,
            Some(ms) => r matches Some(v) && v@.len() == ms.len() && forall|i: int|
                0 <= i < ms.len() ==> #[trigger] v@[i]@ == ms[i],
        },
{
    vox_format::from_slice(bytes).ok().map(|d| d.models.into_iter().map(|m| m.voxels.into_iter().map(|v| (v.point.x as u8, v.point.y as u8, v.point.z as u8, v.color_index.0)).collect()).collect())
}

} // verus!
