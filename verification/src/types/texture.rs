//! Pixel buffers of `VxColorU8`: conversion to and from raw bytes, and
//! channel remapping.
use vstd::prelude::*;

use crate::types::color::{VxColorChannel, VxColorChannelSwap, VxColorU8, channel_rgba, swapped_rgba};

verus! {

/// A channel operation applied to every pixel of an image.
#[derive(Clone, Copy, Debug, PartialEq, Eq, Hash, Structural)]
pub enum VxTexColorChannelMap {
    Channel { channel_mode: VxColorChannel },
    Swap { swap_mode: VxColorChannelSwap },
}

/// The pixels as `r, g, b, a` bytes.
pub open spec fn rgba_bytes(p: Seq<VxColorU8>) -> Seq<u8>
    decreases p.len(),
{
    if p.len() == 0 {
        Seq::empty()
    } else {
        rgba_bytes(p.drop_last()) + seq![p.last()@.0, p.last()@.1, p.last()@.2, p.last()@.3]
    }
}

/// The pixels as `r, g, b` bytes.
pub open spec fn rgb_bytes(p: Seq<VxColorU8>) -> Seq<u8>
    decreases p.len(),
{
    if p.len() == 0 {
        Seq::empty()
    } else {
        rgb_bytes(p.drop_last()) + seq![p.last()@.0, p.last()@.1, p.last()@.2]
    }
}

/// Opaque pixels read from `r, g, b` byte triples.
pub open spec fn rgb_pixels(d: Seq<u8>) -> Seq<(u8, u8, u8, u8)>
    decreases d.len(),
{
    if d.len() < 3 {
        Seq::empty()
    } else {
        rgb_pixels(d.take(d.len() - 3)).push((d[d.len() - 3], d[d.len() - 2], d[d.len() - 1], 255u8))
    }
}

/// A pixel after a channel operation.
pub open spec fn mapped_rgba(map: VxTexColorChannelMap, c: (u8, u8, u8, u8)) -> (u8, u8, u8, u8) {
    match map {
        VxTexColorChannelMap::Channel { channel_mode } => channel_rgba(channel_mode, c),
        VxTexColorChannelMap::Swap { swap_mode } => swapped_rgba(swap_mode, c),
    }
}

/// The views of a pixel sequence.
pub open spec fn pixel_views(p: Seq<VxColorU8>) -> Seq<(u8, u8, u8, u8)> {
    p.map_values(|c: VxColorU8| c@)
}

/// The pixels as raw `r, g, b, a` bytes.
pub fn pixels_to_raw_rgba8(pixels: Vec<VxColorU8>) -> (raw: Vec<u8>)
    requires
        pixels@.len() * 4 <= usize::MAX,
    ensures
        raw@ == rgba_bytes(pixels@),
{
    let mut raw: Vec<u8> = Vec::new();
    let mut i: usize = 0;
    assert(pixels@.take(0) =~= Seq::<VxColorU8>::empty());
    while i < pixels.len()
        invariant
            i <= pixels@.len(),
            raw@ == rgba_bytes(pixels@.take(i as int)),
        decreases pixels@.len() - i,
    {
        let (r, g, b, a) = pixels[i].to_tuple();
        raw.push(r);
        raw.push(g);
        raw.push(b);
        raw.push(a);
        proof {
            assert(pixels@.take(i + 1).drop_last() =~= pixels@.take(i as int));
        }
        i = i + 1;
        assert(raw@ =~= rgba_bytes(pixels@.take(i as int)));
    }
    assert(pixels@.take(pixels@.len() as int) =~= pixels@);
    raw
}

/// The pixels as raw `r, g, b` bytes; alpha is dropped.
pub fn pixels_to_raw_rgb(pixels: &Vec<VxColorU8>) -> (raw: Vec<u8>)
    requires
        pixels@.len() * 3 <= usize::MAX,
    ensures
        raw@ == rgb_bytes(pixels@),
{
    let mut raw: Vec<u8> = Vec::new();
    let mut i: usize = 0;
    assert(pixels@.take(0) =~= Seq::<VxColorU8>::empty());
    while i < pixels.len()
        invariant
            i <= pixels@.len(),
            raw@ == rgb_bytes(pixels@.take(i as int)),
        decreases pixels@.len() - i,
    {
        let (r, g, b, _) = pixels[i].to_tuple();
        raw.push(r);
        raw.push(g);
        raw.push(b);
        proof {
            assert(pixels@.take(i + 1).drop_last() =~= pixels@.take(i as int));
        }
        i = i + 1;
        assert(raw@ =~= rgb_bytes(pixels@.take(i as int)));
    }
    assert(pixels@.take(pixels@.len() as int) =~= pixels@);
    raw
}

/// Opaque pixels from raw `r, g, b` bytes, three per pixel.
pub fn raw_rgb_to_pixels(data: &Vec<u8>) -> (pixels: Vec<VxColorU8>)
    requires
        data@.len() % 3 == 0,
    ensures
        pixel_views(pixels@) == rgb_pixels(data@),
{
    let mut pixels: Vec<VxColorU8> = Vec::new();
    let mut i: usize = 0;
    assert(data@.take(0) =~= Seq::<u8>::empty());
    while i < data.len()
        invariant
            i <= data@.len(),
            i % 3 == 0,
            data@.len() % 3 == 0,
            pixel_views(pixels@) == rgb_pixels(data@.take(i as int)),
        decreases data@.len() - i,
    {
        let c = VxColorU8::rgba(data[i], data[i + 1], data[i + 2], 255);
        pixels.push(c);
        proof {
            let t = data@.take(i + 3);
            assert(t.take(t.len() - 3) =~= data@.take(i as int));
            assert(pixel_views(pixels@) =~= pixel_views(pixels@.drop_last()).push(c@));
        }
        i = i + 3;
        assert(pixel_views(pixels@) =~= rgb_pixels(data@.take(i as int)));
    }
    assert(data@.take(data@.len() as int) =~= data@);
    pixels
}

/// Applies a channel operation to every pixel.
pub fn apply_color_map(pixels: &mut Vec<VxColorU8>, map: VxTexColorChannelMap)
    ensures
        final(pixels)@.len() == old(pixels)@.len(),
        forall|i: int| 0 <= i < old(pixels)@.len() ==> (#[trigger] final(pixels)@[i])@ == mapped_rgba(map, old(pixels)@[i]@),
{
    let mut i: usize = 0;
    while i < pixels.len()
        invariant
            i <= pixels@.len(),
            pixels@.len() == old(pixels)@.len(),
            forall|j: int| 0 <= j < i ==> (#[trigger] pixels@[j])@ == mapped_rgba(map, old(pixels)@[j]@),
            forall|j: int| i <= j < pixels@.len() ==> #[trigger] pixels@[j] == old(pixels)@[j],
        decreases pixels@.len() - i,
    {
        let mut c = pixels[i];
        match map {
            VxTexColorChannelMap::Channel { channel_mode } => c.set_color_channel(channel_mode),
            VxTexColorChannelMap::Swap { swap_mode } => c.swap_channel(swap_mode),
        }
        pixels.set(i, c);
        i = i + 1;
    }
}

/// Three bytes per pixel.
pub proof fn lemma_rgb_bytes_len(p: Seq<VxColorU8>)
    ensures
        rgb_bytes(p).len() == 3 * p.len(),
    decreases p.len(),
{
    if p.len() > 0 {
        lemma_rgb_bytes_len(p.drop_last());
    }
}

/// The pixels made opaque.
pub open spec fn opaque_views(p: Seq<VxColorU8>) -> Seq<(u8, u8, u8, u8)> {
    p.map_values(|c: VxColorU8| (c@.0, c@.1, c@.2, 255u8))
}

/// Writing pixels as `r, g, b` bytes and reading the bytes back gives the
/// same pixels, made opaque.
pub proof fn law_rgb_round_trip(p: Seq<VxColorU8>)
    ensures
        rgb_bytes(p).len() % 3 == 0,
        rgb_pixels(rgb_bytes(p)) == opaque_views(p),
    decreases p.len(),
{
    lemma_rgb_bytes_len(p);
    if p.len() > 0 {
        let q = p.drop_last();
        law_rgb_round_trip(q);
        lemma_rgb_bytes_len(q);
        let d = rgb_bytes(p);
        assert(d.take(d.len() - 3) =~= rgb_bytes(q));
        assert(opaque_views(p) =~= opaque_views(q).push((p.last()@.0, p.last()@.1, p.last()@.2, 255u8)));
    } else {
        assert(opaque_views(p) =~= Seq::<(u8, u8, u8, u8)>::empty());
    }
}

/// A pixel after a sequence of channel operations, applied in order.
pub open spec fn mapped_all(maps: Seq<VxTexColorChannelMap>, c: (u8, u8, u8, u8)) -> (u8, u8, u8, u8)
    decreases maps.len(),
{
    if maps.len() == 0 {
        c
    } else {
        mapped_rgba(maps.last(), mapped_all(maps.drop_last(), c))
    }
}

/// The raw `r, g, b, a` bytes that a texture uploads: its pixels after its
/// channel operations, applied in order.
pub fn texture_upload_bytes(pixels: Vec<VxColorU8>, maps: &Vec<VxTexColorChannelMap>) -> (raw: Vec<u8>)
    requires
        pixels@.len() * 4 <= usize::MAX,
    ensures
        raw@.len() == 4 * pixels@.len(),
        forall|i: int|
            0 <= i < pixels@.len() ==> {
                let c = mapped_all(maps@, #[trigger] pixels@[i]@);
                &&& raw@[4 * i] == c.0
                &&& raw@[4 * i + 1] == c.1
                &&& raw@[4 * i + 2] == c.2
                &&& raw@[4 * i + 3] == c.3
            },
{
    let mut pixels = pixels;
    let ghost orig = pixels@;
    let mut k: usize = 0;
    while k < maps.len()
        invariant
            k <= maps@.len(),
            pixels@.len() == orig.len(),
            forall|i: int| 0 <= i < orig.len() ==> (#[trigger] pixels@[i])@ == mapped_all(maps@.take(k as int), orig[i]@),
        decreases maps@.len() - k,
    {
        let ghost before = pixels@;
        apply_color_map(&mut pixels, maps[k]);
        proof {
            assert(maps@.take(k + 1).drop_last() =~= maps@.take(k as int));
            assert forall|i: int| 0 <= i < orig.len() implies (#[trigger] pixels@[i])@ == mapped_all(maps@.take(k + 1), orig[i]@) by {
                assert(pixels@[i]@ == mapped_rgba(maps@[k as int], before[i]@));
            }
        }
        k = k + 1;
    }
    proof {
        assert(maps@.take(maps@.len() as int) =~= maps@);
    }
    let ghost mapped = pixels@;
    let raw = pixels_to_raw_rgba8(pixels);
    proof {
        lemma_rgba_bytes_index(mapped);
        assert forall|i: int| 0 <= i < orig.len() implies {
            let c = mapped_all(maps@, #[trigger] orig[i]@);
            &&& raw@[4 * i] == c.0
            &&& raw@[4 * i + 1] == c.1
            &&& raw@[4 * i + 2] == c.2
            &&& raw@[4 * i + 3] == c.3
        } by {
            assert(mapped[i]@ == mapped_all(maps@, orig[i]@));
        }
    }
    raw
}

/// Byte `4 i + c` of the raw bytes is channel `c` of pixel `i`.
pub proof fn lemma_rgba_bytes_index(p: Seq<VxColorU8>)
    ensures
        rgba_bytes(p).len() == 4 * p.len(),
        forall|i: int|
            0 <= i < p.len() ==> {
                &&& rgba_bytes(p)[4 * i] == (#[trigger] p[i])@.0
                &&& rgba_bytes(p)[4 * i + 1] == p[i]@.1
                &&& rgba_bytes(p)[4 * i + 2] == p[i]@.2
                &&& rgba_bytes(p)[4 * i + 3] == p[i]@.3
            },
    decreases p.len(),
{
    if p.len() > 0 {
        let q = p.drop_last();
        lemma_rgba_bytes_index(q);
        assert forall|i: int| 0 <= i < p.len() implies {
            &&& rgba_bytes(p)[4 * i] == (#[trigger] p[i])@.0
            &&& rgba_bytes(p)[4 * i + 1] == p[i]@.1
            &&& rgba_bytes(p)[4 * i + 2] == p[i]@.2
            &&& rgba_bytes(p)[4 * i + 3] == p[i]@.3
        } by {
            if i < q.len() {
                assert(q[i] == p[i]);
            }
        }
    }
}

} // verus!
