//! Capture preview: pixel conversion and repaint keys.

use crate::frame::{bytes_of, bytes_slice};
use crate::types::NormRect;
use bytes::Bytes;
use std::collections::hash_map::DefaultHasher;
use std::hash::Hasher;
use vstd::prelude::*;
use vstd::std_specs::hash::*;

verus! {

/// Byte `k` of the premultiplied BGRA form of an RGBA buffer.
pub open spec fn premul_byte(rgba: Seq<u8>, k: int) -> u8 {
    let pixel = (k / 4) * 4;
    let channel = k % 4;
    let alpha = rgba[pixel + 3] as int;
    if channel == 3 {
        rgba[pixel + 3]
    } else {
        ((rgba[pixel + 2 - channel] as int * alpha) / 255) as u8
    }
}

/// Premultiplied BGRA form of the whole pixels of an RGBA buffer.
pub open spec fn premultiplied(rgba: Seq<u8>) -> Seq<u8> {
    Seq::new((rgba.len() / 4 * 4) as nat, |k: int| premul_byte(rgba, k))
}

fn scaled(channel: u8, alpha: u8) -> (r: u8)
    ensures
        r == ((channel as int * alpha as int) / 255) as u8,
        alpha == 255 ==> r == channel,
{
    proof {
        assert(0 <= channel as int * alpha as int <= 255 * 255) by (nonlinear_arith)
            requires
                0 <= channel <= 255,
                0 <= alpha <= 255,
        ;
    }
    ((channel as u16 * alpha as u16) / 255) as u8
}

/// Premultiplied BGRA8 from RGBA8; bytes behind the last whole pixel are dropped.
pub fn rgba_to_premul_bgra(rgba: &[u8]) -> (out: Vec<u8>)
    ensures
        out@ == premultiplied(rgba@),
{
    let mut out: Vec<u8> = Vec::new();
    let total: usize = rgba.len();
    let pixels: usize = total / 4;
    let mut i: usize = 0;
    while i < pixels
        invariant
            i <= pixels,
            total == rgba@.len(),
            pixels == total / 4,
            out@.len() == i * 4,
            forall|k: int| 0 <= k < out@.len() ==> #[trigger] out@[k] == premul_byte(rgba@, k),
        decreases pixels - i,
    {
        let at: usize = i * 4;
        let alpha: u8 = rgba[at + 3];
        out.push(scaled(rgba[at + 2], alpha));
        out.push(scaled(rgba[at + 1], alpha));
        out.push(scaled(rgba[at], alpha));
        out.push(alpha);
        i = i + 1;
    }
    assert(out@ =~= premultiplied(rgba@));
    out
}

/// Opaque pixels keep their colours: only the channels are swapped.
pub proof fn law_opaque_pixels_keep_their_colours(rgba: Seq<u8>, p: int)
    requires
        0 <= p,
        4 * p + 3 < rgba.len(),
        rgba[4 * p + 3] == 255,
    ensures
        premultiplied(rgba)[4 * p] == rgba[4 * p + 2],
        premultiplied(rgba)[4 * p + 1] == rgba[4 * p + 1],
        premultiplied(rgba)[4 * p + 2] == rgba[4 * p],
        premultiplied(rgba)[4 * p + 3] == 255,
{
    assert((4 * p) / 4 == p && (4 * p) % 4 == 0);
    assert((4 * p + 1) / 4 == p && (4 * p + 1) % 4 == 1);
    assert((4 * p + 2) / 4 == p && (4 * p + 2) % 4 == 2);
    assert((4 * p + 3) / 4 == p && (4 * p + 3) % 4 == 3);
}

/// The bits of the coordinates of the first `n` regions, as they are hashed.
pub open spec fn region_writes(regions: Seq<NormRect>, n: int) -> Seq<Seq<u8>>
    decreases n,
{
    if n <= 0 {
        seq![vstd::bytes::spec_u64_to_le_bytes(regions.len() as u64)]
    } else {
        let r = regions[n - 1];
        region_writes(regions, n - 1).push(vstd::bytes::spec_u32_to_le_bytes(r.x.bits)).push(
            vstd::bytes::spec_u32_to_le_bytes(r.y.bits),
        ).push(vstd::bytes::spec_u32_to_le_bytes(r.width.bits)).push(
            vstd::bytes::spec_u32_to_le_bytes(r.height.bits),
        )
    }
}

/// Key of a list of regions.
pub open spec fn key_of_regions(regions: Seq<NormRect>) -> u64 {
    DefaultHasher::spec_finish(region_writes(regions, regions.len() as int))
}

fn write_bits(hasher: &mut DefaultHasher, bits: u32)
    ensures
        final(hasher)@ == old(hasher)@.push(vstd::bytes::spec_u32_to_le_bytes(bits)),
{
    let bytes: Vec<u8> = vstd::bytes::u32_to_le_bytes(bits);
    hasher.write(bytes.as_slice());
}

/// Key of a list of regions: equal lists have equal keys.
pub fn regions_key(regions: &Vec<NormRect>) -> (r: u64)
    ensures
        r == key_of_regions(regions@),
{
    let mut h: DefaultHasher = DefaultHasher::new();
    let count: Vec<u8> = vstd::bytes::u64_to_le_bytes(regions.len() as u64);
    h.write(count.as_slice());
    assert(h@ =~= region_writes(regions@, 0));
    let mut i: usize = 0;
    while i < regions.len()
        invariant
            i <= regions@.len(),
            h@ == region_writes(regions@, i as int),
        decreases regions@.len() - i,
    {
        write_bits(&mut h, regions[i].x.bits);
        write_bits(&mut h, regions[i].y.bits);
        write_bits(&mut h, regions[i].width.bits);
        write_bits(&mut h, regions[i].height.bits);
        i = i + 1;
    }
    h.finish()
}

/// What a preview shows.
pub struct PreviewInput {
    pub sequence: u64,
    pub width: u32,
    pub height: u32,
    pub rgba: Option<Bytes>,
    pub regions: Vec<NormRect>,
}

impl PreviewInput {
    /// Same frame and regions; the pixels themselves are not compared.
    pub open spec fn same(self, other: PreviewInput) -> bool {
        &&& self.sequence == other.sequence
        &&& self.width == other.width
        &&& self.height == other.height
        &&& key_of_regions(self.regions@) == key_of_regions(other.regions@)
    }

    /// True when nothing is to be repainted for `other`.
    pub fn same_input(&self, other: &PreviewInput) -> (r: bool)
        ensures
            r == self.same(*other),
    {
        self.sequence == other.sequence && self.width == other.width && self.height == other.height
            && regions_key(&self.regions) == regions_key(&other.regions)
    }

    /// There are pixels to paint.
    pub open spec fn paintable(self) -> bool {
        (self.rgba matches Some(b) && bytes_of(b).len() > 0) && self.width > 0 && self.height > 0
    }

    /// There are pixels to paint.
    pub fn has_image(&self) -> (r: bool)
        ensures
            r == self.paintable(),
    {
        match &self.rgba {
            Some(b) => bytes_slice(b).len() > 0 && self.width > 0 && self.height > 0,
            None => false,
        }
    }
}

/// Text shown in place of the image: none once it is painted.
pub fn preview_text(input: &PreviewInput, painted: bool) -> (r: Option<&'static str>)
    ensures
        match r {
            Some(text) => text@ == if input.paintable() {
                "Preview unavailable"@
            } else {
                "No capture yet"@
            } && !(input.paintable() && painted),
            None => input.paintable() && painted,
        },
{
    if !input.has_image() {
        Some("No capture yet")
    } else if !painted {
        Some("Preview unavailable")
    } else {
        None
    }
}

/// True when an image that could not be attached is tried once more.
pub fn retries_attach(attached: bool, retry: u8) -> (r: bool)
    ensures
        r == (!attached && retry == 0),
{
    !attached && retry == 0
}

/// Key of a painted preview.
#[derive(Clone, Copy, Debug, PartialEq, Eq, Structural)]
pub struct PreviewKey {
    pub sequence: u64,
    /// Display scale in percent.
    pub scale_cents: u32,
    pub regions_key: u64,
    pub width: u32,
    pub height: u32,
}

impl PreviewKey {
    /// Key of `input` at a display scale.
    pub fn of(input: &PreviewInput, scale_cents: u32) -> (r: PreviewKey)
        ensures
            r == (PreviewKey {
                sequence: input.sequence,
                scale_cents,
                regions_key: key_of_regions(input.regions@),
                width: input.width,
                height: input.height,
            }),
    {
        PreviewKey {
            sequence: input.sequence,
            scale_cents,
            regions_key: regions_key(&input.regions),
            width: input.width,
            height: input.height,
        }
    }
}

/// True when the painted preview can be shown again.
pub fn preview_is_current(painted: Option<PreviewKey>, wanted: PreviewKey) -> (r: bool)
    ensures
        r == (painted == Some(wanted)),
{
    match painted {
        Some(k) => k == wanted,
        None => false,
    }
}

/// A translucent pixel is dimmed by its alpha, rounded down, and keeps it; red and blue change
/// places.
pub proof fn law_pixels_are_dimmed_by_their_alpha(rgba: Seq<u8>, p: int, c: int)
    requires
        0 <= p,
        4 * p + 3 < rgba.len(),
        0 <= c < 3,
    ensures
        premultiplied(rgba).len() == rgba.len() / 4 * 4,
        premultiplied(rgba)[4 * p + 3] == rgba[4 * p + 3],
        premultiplied(rgba)[4 * p + c] * 255 <= rgba[4 * p + 2 - c] * rgba[4 * p + 3],
        rgba[4 * p + 2 - c] * rgba[4 * p + 3] < (premultiplied(rgba)[4 * p + c] + 1) * 255,
{
    assert((4 * p + c) / 4 == p && (4 * p + c) % 4 == c);
    assert((4 * p + 3) / 4 == p && (4 * p + 3) % 4 == 3);
    let channel = rgba[4 * p + 2 - c] as int;
    let alpha = rgba[4 * p + 3] as int;
    assert(0 <= channel * alpha <= 255 * 255) by (nonlinear_arith)
        requires
            0 <= channel <= 255,
            0 <= alpha <= 255,
    ;
    assert(rgba[4 * p + 2 - c] * rgba[4 * p + 3] == channel * alpha);
}

/// The key of a preview is made of all coordinates of all regions, and of how many there are.
pub proof fn law_key_reads_every_region(regions: Seq<NormRect>, n: int, i: int)
    requires
        0 <= i < n <= regions.len(),
    ensures
        ({
            let writes = region_writes(regions, n);
            &&& writes.len() == 1 + 4 * n
            &&& writes[0] == vstd::bytes::spec_u64_to_le_bytes(regions.len() as u64)
            &&& writes[4 * i + 1] == vstd::bytes::spec_u32_to_le_bytes(regions[i].x.bits)
            &&& writes[4 * i + 2] == vstd::bytes::spec_u32_to_le_bytes(regions[i].y.bits)
            &&& writes[4 * i + 3] == vstd::bytes::spec_u32_to_le_bytes(regions[i].width.bits)
            &&& writes[4 * i + 4] == vstd::bytes::spec_u32_to_le_bytes(regions[i].height.bits)
        }),
        key_of_regions(regions) == DefaultHasher::spec_finish(
            region_writes(regions, regions.len() as int),
        ),
    decreases n,
{
    lemma_region_writes_len(regions, n - 1);
    if i < n - 1 {
        law_key_reads_every_region(regions, n - 1, i);
    }
}

proof fn lemma_region_writes_len(regions: Seq<NormRect>, n: int)
    requires
        0 <= n <= regions.len(),
    ensures
        region_writes(regions, n).len() == 1 + 4 * n,
        region_writes(regions, n)[0] == vstd::bytes::spec_u64_to_le_bytes(regions.len() as u64),
    decreases n,
{
    if n > 0 {
        lemma_region_writes_len(regions, n - 1);
    }
}

/// A preview is painted anew for another frame, another size or other regions; it can be painted
/// where it has pixels and an area.
pub proof fn law_other_frame_is_painted_anew(a: PreviewInput, b: PreviewInput)
    ensures
        a.sequence != b.sequence ==> !a.same(b),
        a.width != b.width || a.height != b.height ==> !a.same(b),
        a.sequence == b.sequence && a.width == b.width && a.height == b.height && a.regions@
            == b.regions@ ==> a.same(b),
        a.paintable() <==> a.width > 0 && a.height > 0 && a.rgba is Some && bytes_of(
            a.rgba->0,
        ).len() > 0,
{
}

} // verus!
