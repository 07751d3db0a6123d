use vstd::prelude::*;

verus! {

/// Largest source the delta compressor will index; it refuses (by panicking)
/// a larger one, so callers here reject such a source first.
pub const MAX_SOURCE_LEN: usize = 0x7fff_ffff;

/// The patch the delta compressor produces for a source and a target. With a
/// fixed configuration it is a function of the two byte strings alone.
pub uninterp spec fn bsdiff_of(source: Seq<u8>, target: Seq<u8>) -> Seq<u8>;

/// What applying a patch to a source reconstructs, or nothing when the patch
/// is malformed or does not fit the source. A function of the two byte
/// strings alone.
pub uninterp spec fn bspatch_res(source: Seq<u8>, patch: Seq<u8>) -> Option<Seq<u8>>;

/// The little-endian value of the eight bytes at `off`, as the patch format
/// stores its size fields.
pub open spec fn le64_at(p: Seq<u8>, off: int) -> int {
    p[off] + 256 * (p[off + 1] + 256 * (p[off + 2] + 256 * (p[off + 3] + 256 * (p[off + 4] + 256
        * (p[off + 5] + 256 * (p[off + 6] + 256 * p[off + 7]))))))
}

/// A well-formed patch header, which the patch engine parses without fault:
/// the eight magic bytes `BSDIFF40`, three size fields whose sign bits are
/// clear, and control and delta sections that fit inside the patch. On a
/// header outside this shape the engine's size arithmetic can abort the
/// process instead of reporting failure, so callers here test it first.
pub open spec fn patch_wf(p: Seq<u8>) -> bool {
    &&& p.len() >= 32
    &&& p[0] == 66 && p[1] == 83 && p[2] == 68 && p[3] == 73 && p[4] == 70 && p[5] == 70 && p[6]
        == 52 && p[7] == 48
    &&& p[15] < 128 && p[23] < 128 && p[31] < 128
    &&& 32 + le64_at(p, 8) + le64_at(p, 16) <= p.len()
}

/// The little-endian value of the eight bytes at `off`.
fn read_le64(p: &[u8], off: usize) -> (r: u64)
    requires
        off + 8 <= p@.len(),
        p@[off + 7] < 128,
    ensures
        r == le64_at(p@, off as int),
{
    let b0 = p[off] as u64;
    let b1 = p[off + 1] as u64;
    let b2 = p[off + 2] as u64;
    let b3 = p[off + 3] as u64;
    let b4 = p[off + 4] as u64;
    let b5 = p[off + 5] as u64;
    let b6 = p[off + 6] as u64;
    let b7 = p[off + 7] as u64;
    b0 + 256 * (b1 + 256 * (b2 + 256 * (b3 + 256 * (b4 + 256 * (b5 + 256 * (b6 + 256 * b7))))))
}

/// Whether a byte string carries a well-formed patch header.
pub(crate) fn check_patch(p: &[u8]) -> (r: bool)
    ensures
        r == patch_wf(p@),
{
    if p.len() < 32 {
        return false;
    }
    if p[0] != 66 || p[1] != 83 || p[2] != 68 || p[3] != 73 || p[4] != 70 || p[5] != 70 || p[6]
        != 52 || p[7] != 48 {
        return false;
    }
    if p[15] >= 128 || p[23] >= 128 || p[31] >= 128 {
        return false;
    }
    let csize = read_le64(p, 8);
    let dsize = read_le64(p, 16);
    let len = p.len() as u64;
    if csize > len - 32 {
        return false;
    }
    if dsize > len - 32 - csize {
        return false;
    }
    true
}

/// Relies on qbsdiff::Bsdiff: with parallelism off and the default settings
/// the produced patch depends on the source and target bytes alone, it
/// carries a well-formed header (the magic, its true section sizes, the
/// target's size), and applying it to the source (qbsdiff::Bspatch)
/// reconstructs the target exactly.
#[verifier::external_body]
pub(crate) fn bsdiff(source: &[u8], target: &[u8]) -> (r: Option<Vec<u8>>)
    requires
        source@.len() <= MAX_SOURCE_LEN,
    ensures
        r matches Some(p) ==> p@ == bsdiff_of(source@, target@),
        r matches Some(p) ==> patch_wf(p@),
        r matches Some(p) ==> bspatch_res(source@, p@) == Some(target@),
{
    let mut patch = Vec::new();
    let result = qbsdiff::Bsdiff::new(source, target).parallel_scheme(
        qbsdiff::ParallelScheme::Never,
    ).compare(std::io::Cursor::new(&mut patch));
    match result {
        Ok(_) => Some(patch),
        Err(_) => None,
    }
}

/// Relies on qbsdiff::Bspatch: on a patch whose header is well-formed the
/// engine reads and seeks fail soft, so the reconstruction, and whether it
/// succeeds, depend on the source and patch bytes alone, and a mismatched or
/// corrupt body reports failure rather than continuing. A header outside
/// `patch_wf` can abort the engine's size arithmetic, so it is excluded here
/// and rejected by callers first.
#[verifier::external_body]
pub(crate) fn bspatch(source: &[u8], patch: &[u8]) -> (r: Option<Vec<u8>>)
    requires
        patch_wf(patch@),
    ensures
        r matches Some(v) ==> bspatch_res(source@, patch@) == Some(v@),
        r is None ==> bspatch_res(source@, patch@) is None,
{
    let patcher = match qbsdiff::Bspatch::new(patch) {
        Ok(p) => p,
        Err(_) => return None,
    };
    let mut target = Vec::new();
    match patcher.apply(source, std::io::Cursor::new(&mut target)) {
        Ok(_) => Some(target),
        Err(_) => None,
    }
}

} // verus!
