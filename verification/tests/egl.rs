use wayland_display_core::egl::{
    dmabuf_egl_attribs, DmabufDesc, DmabufPlane, EGL_DMA_BUF_PLANE0_FD_EXT,
    EGL_DMA_BUF_PLANE0_MODIFIER_HI_EXT, EGL_DMA_BUF_PLANE0_MODIFIER_LO_EXT,
    EGL_DMA_BUF_PLANE0_OFFSET_EXT, EGL_DMA_BUF_PLANE0_PITCH_EXT, EGL_DMA_BUF_PLANE1_FD_EXT,
    EGL_DMA_BUF_PLANE1_MODIFIER_HI_EXT, EGL_DMA_BUF_PLANE1_MODIFIER_LO_EXT,
    EGL_DMA_BUF_PLANE1_OFFSET_EXT, EGL_DMA_BUF_PLANE1_PITCH_EXT, EGL_HEIGHT,
    EGL_LINUX_DRM_FOURCC_EXT, EGL_NONE, EGL_WIDTH,
};

const XR24: u32 = 0x3432_5258;

fn desc(modifier: u64, planes: Vec<DmabufPlane>) -> DmabufDesc {
    DmabufDesc { width: 1920, height: 1080, fourcc: XR24, modifier, planes }
}

#[test]
fn single_plane_import() {
    let d = desc(
        0x0100_0000_0000_0002,
        vec![DmabufPlane { fd: 7, offset: 0, stride: 7680 }],
    );
    assert_eq!(
        dmabuf_egl_attribs(&d),
        vec![
            EGL_WIDTH,
            1920,
            EGL_HEIGHT,
            1080,
            EGL_LINUX_DRM_FOURCC_EXT,
            XR24 as i32,
            EGL_DMA_BUF_PLANE0_FD_EXT,
            7,
            EGL_DMA_BUF_PLANE0_OFFSET_EXT,
            0,
            EGL_DMA_BUF_PLANE0_PITCH_EXT,
            7680,
            EGL_DMA_BUF_PLANE0_MODIFIER_LO_EXT,
            2,
            EGL_DMA_BUF_PLANE0_MODIFIER_HI_EXT,
            0x0100_0000,
            EGL_NONE,
        ]
    );
}

#[test]
fn two_planes_and_wrapping_modifier_halves() {
    let d = desc(
        0xFFFF_FFFF_8000_0001,
        vec![
            DmabufPlane { fd: 3, offset: 0, stride: 1920 },
            DmabufPlane { fd: 3, offset: 2_073_600, stride: 1920 },
        ],
    );
    let a = dmabuf_egl_attribs(&d);
    assert_eq!(a.len(), 6 + 10 + 10 + 1);
    assert_eq!(a[13], 0x8000_0001u32 as i32);
    assert_eq!(a[15], -1);
    assert_eq!(&a[16..26], &[
        EGL_DMA_BUF_PLANE1_FD_EXT,
        3,
        EGL_DMA_BUF_PLANE1_OFFSET_EXT,
        2_073_600,
        EGL_DMA_BUF_PLANE1_PITCH_EXT,
        1920,
        EGL_DMA_BUF_PLANE1_MODIFIER_LO_EXT,
        0x8000_0001u32 as i32,
        EGL_DMA_BUF_PLANE1_MODIFIER_HI_EXT,
        -1,
    ]);
    assert_eq!(a[26], EGL_NONE);
    // The halves put together give the modifier back.
    let lo = a[13] as u32 as u64;
    let hi = a[15] as u32 as u64;
    assert_eq!((hi << 32) | lo, 0xFFFF_FFFF_8000_0001);
}

#[test]
fn planes_beyond_the_second_are_not_passed() {
    let p = DmabufPlane { fd: 9, offset: 1, stride: 2 };
    let three = dmabuf_egl_attribs(&desc(0, vec![p, p, p]));
    let two = dmabuf_egl_attribs(&desc(0, vec![p, p]));
    assert_eq!(three, two);
    let none = dmabuf_egl_attribs(&desc(0, vec![]));
    assert_eq!(none, vec![EGL_WIDTH, 1920, EGL_HEIGHT, 1080, EGL_LINUX_DRM_FOURCC_EXT, XR24 as i32, EGL_NONE]);
}

#[test]
fn large_values_wrap_like_as() {
    let d = DmabufDesc {
        width: u32::MAX,
        height: 0x8000_0000,
        fourcc: 0xFFFF_FFFF,
        modifier: 0,
        planes: vec![DmabufPlane { fd: -1, offset: u32::MAX, stride: 0x8000_0000 }],
    };
    let a = dmabuf_egl_attribs(&d);
    assert_eq!(a[1], -1);
    assert_eq!(a[3], i32::MIN);
    assert_eq!(a[5], -1);
    assert_eq!(a[7], -1);
    assert_eq!(a[9], -1);
    assert_eq!(a[11], i32::MIN);
}
