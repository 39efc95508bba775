//! The pixel-level QR scan primitive: image decoding, luminance conversion
//! and grid detection, behind one trusted wrapper.

use vstd::prelude::*;

verus! {

/// What the pixel pipeline yields for an image byte buffer: when the bytes
/// are a decodable image, one entry per detected QR grid, each holding the
/// decoded text or nothing when that grid fails to decode; otherwise the
/// image error's display text. Every stage is a pure computation, so both
/// are functions of the bytes alone.
pub uninterp spec fn qr_scan_of(b: Seq<u8>) -> Result<Seq<Option<Seq<char>>>, Seq<char>>;

/// Relies on image::load_from_memory, DynamicImage::to_luma8 and rqrr's
/// PreparedImage::prepare / detect_grids / Grid::decode: deterministic
/// computations on the buffer, composed in pipeline order.
#[verifier::external_body]
pub(crate) fn scan_qr_image(bytes: &Vec<u8>) -> (r: Result<Vec<Option<String>>, String>)
    ensures
        r is Ok <==> qr_scan_of(bytes@) is Ok,
        r matches Ok(v) ==> qr_scan_of(bytes@) matches Ok(g) && v.deep_view() == g,
        r matches Err(m) ==> qr_scan_of(bytes@) matches Err(t) && m@ == t,
{
    let img = match image::load_from_memory(bytes) {
        Ok(i) => i,
        Err(e) => return Err(format!("{}", e)),
    };
    let mut prepared = rqrr::PreparedImage::prepare(img.to_luma8());
    let grids = prepared.detect_grids();
    let mut out = Vec::new();
    for g in &grids {
        out.push(g.decode().ok().map(|(_, text)| text));
    }
    Ok(out)
}

} // verus!
