//! Pixel-format conversions shared by decoders that don't natively emit RGBA8.

use vstd::prelude::*;

verus! {

/// Byte `j` of the RGBA8 image obtained from tightly packed RGB triples:
/// the colour bytes are copied, every fourth byte is an opaque alpha.
pub open spec fn rgba_byte_from_rgb(rgb: Seq<u8>, j: int) -> u8 {
    if j % 4 == 3 {
        255u8
    } else {
        rgb[(j / 4) * 3 + j % 4]
    }
}

/// The RGBA8 image for the complete RGB triples of `rgb` (a trailing
/// partial triple is dropped).
pub open spec fn rgba_from_rgb(rgb: Seq<u8>) -> Seq<u8> {
    Seq::new(((rgb.len() / 3) * 4) as nat, |j: int| rgba_byte_from_rgb(rgb, j))
}

pub proof fn lemma_quad_index(i: int, k: int)
    requires
        0 <= i,
        0 <= k < 4,
    ensures
        (4 * i + k) / 4 == i,
        (4 * i + k) % 4 == k,
{
    vstd::arithmetic::div_mod::lemma_fundamental_div_mod_converse(4 * i + k, 4, i, k);
}

/// Widens tightly-packed RGB triples to RGBA8, filling alpha as opaque.
pub fn rgb_to_rgba(rgb: &[u8]) -> (out: Vec<u8>)
    ensures
        out@ == rgba_from_rgb(rgb@),
{
    let len = rgb.len();
    let triples = len / 3;
    let capacity: usize = match triples.checked_mul(4) {
        Some(bytes) => bytes,
        None => 0,
    };
    let mut out: Vec<u8> = Vec::with_capacity(capacity);
    let mut i: usize = 0;
    while i < triples
        invariant
            len == rgb@.len(),
            triples == len / 3,
            3 * triples <= len,
            i <= triples,
            out@.len() == 4 * i,
            forall|j: int| 0 <= j < out@.len() ==> out@[j] == rgba_byte_from_rgb(rgb@, j),
        decreases triples - i,
    {
        let base = 3 * i;
        out.push(rgb[base]);
        out.push(rgb[base + 1]);
        out.push(rgb[base + 2]);
        out.push(255u8);
        proof {
            lemma_quad_index(i as int, 0);
            lemma_quad_index(i as int, 1);
            lemma_quad_index(i as int, 2);
            lemma_quad_index(i as int, 3);
        }
        i = i + 1;
    }
    assert(out@ =~= rgba_from_rgb(rgb@));
    out
}

} // verus!
