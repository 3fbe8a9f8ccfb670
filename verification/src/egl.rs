//! The attribute list with which a DMA-BUF is imported as an EGL image
//! (`EGL_EXT_image_dma_buf_import` and its modifiers extension).

use vstd::prelude::*;

verus! {

pub const EGL_LINUX_DMA_BUF_EXT: u32 = 0x3270;
pub const EGL_DMA_BUF_PLANE0_FD_EXT: i32 = 0x3272;
pub const EGL_DMA_BUF_PLANE0_OFFSET_EXT: i32 = 0x3273;
pub const EGL_DMA_BUF_PLANE0_PITCH_EXT: i32 = 0x3274;
pub const EGL_DMA_BUF_PLANE0_MODIFIER_LO_EXT: i32 = 0x3443;
pub const EGL_DMA_BUF_PLANE0_MODIFIER_HI_EXT: i32 = 0x3444;
pub const EGL_DMA_BUF_PLANE1_FD_EXT: i32 = 0x3275;
pub const EGL_DMA_BUF_PLANE1_OFFSET_EXT: i32 = 0x3276;
pub const EGL_DMA_BUF_PLANE1_PITCH_EXT: i32 = 0x3277;
pub const EGL_DMA_BUF_PLANE1_MODIFIER_LO_EXT: i32 = 0x3445;
pub const EGL_DMA_BUF_PLANE1_MODIFIER_HI_EXT: i32 = 0x3446;
pub const EGL_WIDTH: i32 = 0x3057;
pub const EGL_HEIGHT: i32 = 0x3056;
pub const EGL_LINUX_DRM_FOURCC_EXT: i32 = 0x3271;
pub const EGL_NONE: i32 = 0x3038;

/// One plane of a DMA-BUF: its file descriptor, offset and stride.
#[derive(Debug, Clone, Copy, PartialEq, Eq)]
pub struct DmabufPlane {
    pub fd: i32,
    pub offset: u32,
    pub stride: u32,
}

/// What the import reads of a DMA-BUF: size, DRM fourcc, format modifier and planes.
#[derive(Debug)]
pub struct DmabufDesc {
    pub width: u32,
    pub height: u32,
    pub fourcc: u32,
    pub modifier: u64,
    pub planes: Vec<DmabufPlane>,
}

/// The low 32 bits of a format modifier, as an EGL attribute.
pub open spec fn modifier_lo(modifier: u64) -> i32 {
    (modifier & 0xFFFF_FFFF) as i32
}

/// The high 32 bits of a format modifier, as an EGL attribute.
pub open spec fn modifier_hi(modifier: u64) -> i32 {
    ((modifier >> 32u64) & 0xFFFF_FFFF) as i32
}

/// The attributes of the first plane.
pub open spec fn plane0_attribs(p: DmabufPlane, modifier: u64) -> Seq<i32> {
    seq![
        EGL_DMA_BUF_PLANE0_FD_EXT,
        p.fd,
        EGL_DMA_BUF_PLANE0_OFFSET_EXT,
        p.offset as i32,
        EGL_DMA_BUF_PLANE0_PITCH_EXT,
        p.stride as i32,
        EGL_DMA_BUF_PLANE0_MODIFIER_LO_EXT,
        modifier_lo(modifier),
        EGL_DMA_BUF_PLANE0_MODIFIER_HI_EXT,
        modifier_hi(modifier),
    ]
}

/// The attributes of the second plane.
pub open spec fn plane1_attribs(p: DmabufPlane, modifier: u64) -> Seq<i32> {
    seq![
        EGL_DMA_BUF_PLANE1_FD_EXT,
        p.fd,
        EGL_DMA_BUF_PLANE1_OFFSET_EXT,
        p.offset as i32,
        EGL_DMA_BUF_PLANE1_PITCH_EXT,
        p.stride as i32,
        EGL_DMA_BUF_PLANE1_MODIFIER_LO_EXT,
        modifier_lo(modifier),
        EGL_DMA_BUF_PLANE1_MODIFIER_HI_EXT,
        modifier_hi(modifier),
    ]
}

/// The import attributes of a DMA-BUF: size and fourcc, the first two
/// planes (further planes are not passed), and the closing `EGL_NONE`.
pub open spec fn dmabuf_attribs(width: u32, height: u32, fourcc: u32, modifier: u64, planes: Seq<DmabufPlane>) -> Seq<i32> {
    seq![EGL_WIDTH, width as i32, EGL_HEIGHT, height as i32, EGL_LINUX_DRM_FOURCC_EXT, fourcc as i32]
        + (if planes.len() >= 1 { plane0_attribs(planes[0], modifier) } else { Seq::empty() })
        + (if planes.len() >= 2 { plane1_attribs(planes[1], modifier) } else { Seq::empty() })
        + seq![EGL_NONE]
}

/// An attribute list that passes the size and fourcc, then each of the first
/// two planes with that plane's own fd, offset and stride and the modifier's
/// halves, under the attribute names of that plane, and ends with `EGL_NONE`.
pub open spec fn dmabuf_attribs_from_planes(
    a: Seq<i32>,
    width: u32,
    height: u32,
    fourcc: u32,
    modifier: u64,
    planes: Seq<DmabufPlane>,
) -> bool {
    let n = if planes.len() >= 2 { 2 } else { planes.len() as int };
    &&& a.len() == 6 + 10 * n + 1
    &&& a[0] == EGL_WIDTH && a[1] == width as i32
    &&& a[2] == EGL_HEIGHT && a[3] == height as i32
    &&& a[4] == EGL_LINUX_DRM_FOURCC_EXT && a[5] == fourcc as i32
    &&& a[a.len() - 1] == EGL_NONE
    &&& n >= 1 ==> {
        &&& a[6] == EGL_DMA_BUF_PLANE0_FD_EXT && a[7] == planes[0].fd
        &&& a[8] == EGL_DMA_BUF_PLANE0_OFFSET_EXT && a[9] == planes[0].offset as i32
        &&& a[10] == EGL_DMA_BUF_PLANE0_PITCH_EXT && a[11] == planes[0].stride as i32
        &&& a[12] == EGL_DMA_BUF_PLANE0_MODIFIER_LO_EXT && a[13] == (modifier & 0xFFFF_FFFF) as i32
        &&& a[14] == EGL_DMA_BUF_PLANE0_MODIFIER_HI_EXT && a[15] == (modifier >> 32u64) as u32 as i32
    }
    &&& n >= 2 ==> {
        &&& a[16] == EGL_DMA_BUF_PLANE1_FD_EXT && a[17] == planes[1].fd
        &&& a[18] == EGL_DMA_BUF_PLANE1_OFFSET_EXT && a[19] == planes[1].offset as i32
        &&& a[20] == EGL_DMA_BUF_PLANE1_PITCH_EXT && a[21] == planes[1].stride as i32
        &&& a[22] == EGL_DMA_BUF_PLANE1_MODIFIER_LO_EXT && a[23] == (modifier & 0xFFFF_FFFF) as i32
        &&& a[24] == EGL_DMA_BUF_PLANE1_MODIFIER_HI_EXT && a[25] == (modifier >> 32u64) as u32 as i32
    }
}

/// Each plane's attributes come from that plane: the list that
/// `dmabuf_attribs` describes passes, under each of the first two planes'
/// attribute names, that plane's fd, offset and stride.
pub proof fn lemma_dmabuf_attribs_from_planes(
    width: u32,
    height: u32,
    fourcc: u32,
    modifier: u64,
    planes: Seq<DmabufPlane>,
)
    ensures
        dmabuf_attribs_from_planes(
            dmabuf_attribs(width, height, fourcc, modifier, planes),
            width,
            height,
            fourcc,
            modifier,
            planes,
        ),
{
    assert(((modifier >> 32u64) & 0xFFFF_FFFF) as i32 == (modifier >> 32u64) as u32 as i32) by (bit_vector);
    let a = dmabuf_attribs(width, height, fourcc, modifier, planes);
    let head = seq![EGL_WIDTH, width as i32, EGL_HEIGHT, height as i32, EGL_LINUX_DRM_FOURCC_EXT, fourcc as i32];
    if planes.len() >= 2 {
        assert(a =~= head + plane0_attribs(planes[0], modifier) + plane1_attribs(planes[1], modifier) + seq![EGL_NONE]);
    } else if planes.len() == 1 {
        assert(a =~= head + plane0_attribs(planes[0], modifier) + Seq::<i32>::empty() + seq![EGL_NONE]);
    } else {
        assert(a =~= head + Seq::<i32>::empty() + Seq::<i32>::empty() + seq![EGL_NONE]);
    }
}

fn split_modifier(modifier: u64) -> (r: (i32, i32))
    ensures
        r.0 == modifier_lo(modifier),
        r.1 == modifier_hi(modifier),
{
    (((modifier & 0xFFFF_FFFF) as i32), (((modifier >> 32u64) & 0xFFFF_FFFF) as i32))
}

/// The attribute list that imports the DMA-BUF as an EGL image.
pub fn dmabuf_egl_attribs(desc: &DmabufDesc) -> (r: Vec<i32>)
    ensures
        r@ == dmabuf_attribs(desc.width, desc.height, desc.fourcc, desc.modifier, desc.planes@),
        dmabuf_attribs_from_planes(r@, desc.width, desc.height, desc.fourcc, desc.modifier, desc.planes@),
{
    let (lo, hi) = split_modifier(desc.modifier);
    let mut attribs: Vec<i32> = Vec::new();
    attribs.push(EGL_WIDTH);
    attribs.push(desc.width as i32);
    attribs.push(EGL_HEIGHT);
    attribs.push(desc.height as i32);
    attribs.push(EGL_LINUX_DRM_FOURCC_EXT);
    attribs.push(desc.fourcc as i32);
    let ghost head = attribs@;
    if desc.planes.len() >= 1 {
        let p = desc.planes[0];
        attribs.push(EGL_DMA_BUF_PLANE0_FD_EXT);
        attribs.push(p.fd);
        attribs.push(EGL_DMA_BUF_PLANE0_OFFSET_EXT);
        attribs.push(p.offset as i32);
        attribs.push(EGL_DMA_BUF_PLANE0_PITCH_EXT);
        attribs.push(p.stride as i32);
        attribs.push(EGL_DMA_BUF_PLANE0_MODIFIER_LO_EXT);
        attribs.push(lo);
        attribs.push(EGL_DMA_BUF_PLANE0_MODIFIER_HI_EXT);
        attribs.push(hi);
        assert(attribs@ =~= head + plane0_attribs(p, desc.modifier));
    } else {
        assert(attribs@ =~= head + Seq::<i32>::empty());
    }
    let ghost mid = attribs@;
    if desc.planes.len() >= 2 {
        let p = desc.planes[1];
        attribs.push(EGL_DMA_BUF_PLANE1_FD_EXT);
        attribs.push(p.fd);
        attribs.push(EGL_DMA_BUF_PLANE1_OFFSET_EXT);
        attribs.push(p.offset as i32);
        attribs.push(EGL_DMA_BUF_PLANE1_PITCH_EXT);
        attribs.push(p.stride as i32);
        attribs.push(EGL_DMA_BUF_PLANE1_MODIFIER_LO_EXT);
        attribs.push(lo);
        attribs.push(EGL_DMA_BUF_PLANE1_MODIFIER_HI_EXT);
        attribs.push(hi);
        assert(attribs@ =~= mid + plane1_attribs(p, desc.modifier));
    } else {
        assert(attribs@ =~= mid + Seq::<i32>::empty());
    }
    let ghost tail = attribs@;
    attribs.push(EGL_NONE);
    assert(attribs@ =~= tail + seq![EGL_NONE]);
    proof {
        lemma_dmabuf_attribs_from_planes(desc.width, desc.height, desc.fourcc, desc.modifier, desc.planes@);
    }
    attribs
}

/// The modifier is passed without loss: its low and high attributes, read
/// back as 32-bit unsigned halves, put together give the modifier.
pub proof fn lemma_modifier_split_lossless(modifier: u64)
    ensures
        ((modifier_hi(modifier) as u32 as u64) << 32u64) | (modifier_lo(modifier) as u32 as u64)
            == modifier,
{
    assert((((((modifier >> 32u64) & 0xFFFF_FFFF) as i32) as u32 as u64) << 32u64) | ((
    (modifier & 0xFFFF_FFFF) as i32) as u32 as u64) == modifier) by (bit_vector);
}

} // verus!
