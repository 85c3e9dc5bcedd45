use rpi4_kernel::framebuffer::{Framebuffer, FramebufferTags, PixelOrder};
use rpi4_kernel::mailbox::property::{
    ALLOCATE_BUFFER, GET_PITCH, SET_DEPTH, SET_PHYSICAL_RESOLUTION, SET_PIXEL_ORDER, SET_VIRTUAL_OFFSET,
    SET_VIRTUAL_RESOLUTION,
};
use rpi4_kernel::peripherals::UPPER_HALF_OFFSET;

fn answered(bus_addr: u32, size: u32, depth: u32, phys: (u32, u32), virt: (u32, u32)) -> FramebufferTags {
    let mut t = Framebuffer::request(phys.0, phys.1, depth, 1);
    t.1.value = virt;
    t.5.value = (bus_addr, size);
    t.6.value = 4096;
    t
}

#[test]
fn framebuffer_request_tags() {
    let t = Framebuffer::request(1024, 600, 32, 1);
    assert_eq!((t.0.id, t.0.size, t.0.value), (SET_PHYSICAL_RESOLUTION, 8, (1024, 600)));
    assert_eq!((t.1.id, t.1.value), (SET_VIRTUAL_RESOLUTION, (1024, 600)));
    assert_eq!((t.2.id, t.2.value), (SET_VIRTUAL_OFFSET, (0, 0)));
    assert_eq!((t.3.id, t.3.size, t.3.value), (SET_DEPTH, 4, 32));
    assert_eq!((t.4.id, t.4.value), (SET_PIXEL_ORDER, 1));
    assert_eq!((t.5.id, t.5.value), (ALLOCATE_BUFFER, (4096, 0)));
    assert_eq!((t.6.id, t.6.value), (GET_PITCH, 0));
    assert_eq!(t.0.code + t.3.code + t.6.code, 0);
}

#[test]
fn framebuffer_accepted() {
    let fb = Framebuffer::from_response(Some(answered(0xc010_0000, 0x25_8000, 32, (1024, 600), (1024, 600)))).unwrap();
    assert_eq!(fb.addr, 0x0010_0000);
    assert_eq!(fb.size, 0x25_8000);
    assert_eq!(fb.pitch, 4096);
    assert_eq!(fb.phys_res, (1024, 600));
    assert_eq!(fb.virt_res, (1024, 600));
    assert_eq!((fb.depth, fb.order), (32, 1));
}

#[test]
fn framebuffer_errors() {
    assert_eq!(Framebuffer::from_response(None).unwrap_err(), "failed to send a mailbox");
    let ok = (0x4000_1000, 100, 32, (8, 8), (8, 8));
    let cases = [
        ((0xc000_0000, 100, 32, (8, 8), (8, 8)), "failed to allocate buffer"),
        ((0x1000, 0, 32, (8, 8), (8, 8)), "failed to allocate buffer"),
        ((0x1000, 100, 0, (8, 8), (8, 8)), "unsupported color depth"),
        ((0x1000, 100, 32, (0, 8), (8, 8)), "unsupported physical resolution"),
        ((0x1000, 100, 32, (8, 0), (8, 8)), "unsupported physical resolution"),
        ((0x1000, 100, 32, (8, 8), (0, 8)), "unsupported virtual resolution"),
        ((0x1000, 100, 32, (8, 8), (8, 0)), "unsupported virtual resolution"),
        ((0x1000, 0, 0, (0, 0), (0, 0)), "failed to allocate buffer"),
    ];
    for ((a, s, d, p, v), e) in cases {
        assert_eq!(Framebuffer::from_response(Some(answered(a, s, d, p, v))).unwrap_err(), e);
    }
    let (a, s, d, p, v) = ok;
    assert!(Framebuffer::from_response(Some(answered(a, s, d, p, v))).is_ok());
}

#[test]
fn framebuffer_init_sends_request() {
    let fb = Framebuffer::init(640, 480, 32, 0, |mut tags: FramebufferTags| {
        assert_eq!(tags.0.value, (640, 480));
        assert_eq!(tags.3.value, 32);
        assert_eq!(tags.4.value, 0);
        tags.5.value = (0x8000_2000, 640 * 480 * 4);
        tags.6.value = 2560;
        Some(tags)
    })
    .unwrap();
    assert_eq!((fb.addr, fb.pitch, fb.order), (0x2000, 2560, 0));
    assert_eq!(Framebuffer::init(640, 480, 32, 0, |_| None).unwrap_err(), "failed to send a mailbox");
}

#[test]
fn pixel_targets() {
    let mut fb = Framebuffer {
        addr: 0x0010_0000,
        size: 4096 * 600,
        pitch: 4096,
        phys_res: (1024, 600),
        virt_res: (1024, 600),
        depth: 32,
        order: 1,
    };
    assert_eq!(fb.pixel_target(1, 2), Ok((0x0010_0000 + 2 * 4096 + 4 + UPPER_HALF_OFFSET, PixelOrder::Rgb)));
    assert_eq!(fb.pixel_target(0, 600), Err("pixel out of range"));
    assert_eq!(fb.pixel_target(1023, 599), Ok((0x0010_0000 + 599 * 4096 + 1023 * 4 + UPPER_HALF_OFFSET, PixelOrder::Rgb)));
    fb.order = 0;
    assert_eq!(fb.pixel_target(0, 0), Ok((0x0010_0000 + UPPER_HALF_OFFSET, PixelOrder::Bgr)));
    fb.order = 2;
    assert_eq!(fb.pixel_target(0, 0), Err("unsupported pixel order"));
    fb.depth = 16;
    assert_eq!(fb.pixel_target(0, 0), Err("unsupported color depth"));
}
