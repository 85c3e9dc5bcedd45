//! Framebuffer negotiation with the VideoCore firmware and pixel addressing.
use vstd::prelude::*;
use vstd::layout::size_of;
use crate::mailbox::{request_tag, PropertyTag};
use crate::mailbox::property::{
    ALLOCATE_BUFFER, GET_PITCH, SET_DEPTH, SET_PHYSICAL_RESOLUTION, SET_PIXEL_ORDER,
    SET_VIRTUAL_OFFSET, SET_VIRTUAL_RESOLUTION,
};
use crate::peripherals::UPPER_HALF_OFFSET;

verus! {

/// The property tags that set up a framebuffer: physical resolution, virtual
/// resolution, virtual offset, depth, pixel order, buffer allocation and pitch.
pub type FramebufferTags = (
    PropertyTag<(u32, u32)>,
    PropertyTag<(u32, u32)>,
    PropertyTag<(i32, i32)>,
    PropertyTag<u32>,
    PropertyTag<u32>,
    PropertyTag<(u32, u32)>,
    PropertyTag<u32>,
);

/// A framebuffer that the firmware allocated.
#[derive(Debug, Clone, Copy)]
pub struct Framebuffer {
    pub addr: u32,
    pub size: u32,
    pub pitch: u32,
    pub phys_res: (u32, u32),
    pub virt_res: (u32, u32),
    pub depth: u32,
    pub order: u32,
}

/// Channel order of 32-bit pixels.
#[derive(Debug, Clone, Copy, PartialEq, Eq, Structural)]
pub enum PixelOrder {
    /// Blue in the low byte (pixel order 0).
    Bgr,
    /// Red in the low byte (pixel order 1).
    Rgb,
}

/// The request for a framebuffer of `width` x `height` pixels with the given
/// depth and pixel order, allocated with 4096-byte alignment.
pub open spec fn framebuffer_request(width: u32, height: u32, depth: u32, order: u32) -> FramebufferTags {
    (
        request_tag(SET_PHYSICAL_RESOLUTION, (width, height)),
        request_tag(SET_VIRTUAL_RESOLUTION, (width, height)),
        request_tag(SET_VIRTUAL_OFFSET, (0i32, 0i32)),
        request_tag(SET_DEPTH, depth),
        request_tag(SET_PIXEL_ORDER, order),
        request_tag(ALLOCATE_BUFFER, (4096u32, 0u32)),
        request_tag(GET_PITCH, 0u32),
    )
}

/// The framebuffer described by the firmware's answer: the bus address is
/// turned into an ARM physical address by clearing its two top bits.
pub open spec fn framebuffer_of(tags: FramebufferTags) -> Framebuffer {
    Framebuffer {
        addr: (tags.5.value.0 as nat % 0x4000_0000) as u32,
        size: tags.5.value.1,
        pitch: tags.6.value,
        phys_res: tags.0.value,
        virt_res: tags.1.value,
        depth: tags.3.value,
        order: tags.4.value,
    }
}

/// The outcome of a framebuffer request, given the firmware's answer if any.
pub open spec fn framebuffer_outcome(response: Option<FramebufferTags>) -> Result<Framebuffer, &'static str> {
    match response {
        None => Err("failed to send a mailbox"),
        Some(tags) => {
            let fb = framebuffer_of(tags);
            if fb.addr == 0 || fb.size == 0 {
                Err("failed to allocate buffer")
            } else if fb.depth == 0 {
                Err("unsupported color depth")
            } else if fb.phys_res.0 == 0 || fb.phys_res.1 == 0 {
                Err("unsupported physical resolution")
            } else if fb.virt_res.0 == 0 || fb.virt_res.1 == 0 {
                Err("unsupported virtual resolution")
            } else {
                Ok(fb)
            }
        },
    }
}

/// The framebuffer's address is the bus address of the allocated buffer with
/// exactly bits 31 and 30 cleared: it lies below 0x4000_0000, differs from the
/// bus address only by a multiple of 0x4000_0000, so that an address below
/// 0x4000_0000 seen through any of the four bus aliases comes back unchanged.
pub proof fn lemma_framebuffer_address(tags: FramebufferTags)
    ensures
        ({
            let b = tags.5.value.0;
            let addr = framebuffer_of(tags).addr;
            &&& addr == b & 0x3fff_ffff
            &&& addr < 0x4000_0000
            &&& addr as int + (b as int / 0x4000_0000) * 0x4000_0000 == b as int
            &&& match framebuffer_outcome(Some(tags)) {
                Ok(fb) => fb == Framebuffer {
                    addr: b & 0x3fff_ffff,
                    size: tags.5.value.1,
                    pitch: tags.6.value,
                    phys_res: tags.0.value,
                    virt_res: tags.1.value,
                    depth: tags.3.value,
                    order: tags.4.value,
                },
                Err(_) => true,
            }
        }),
{
    let b = tags.5.value.0;
    assert(b & 0x3fff_ffff == b % 0x4000_0000) by (bit_vector);
    assert(b % 0x4000_0000 + (b / 0x4000_0000) * 0x4000_0000 == b) by (bit_vector);
}

/// Which answers give a framebuffer: no answer is a failed send; otherwise
/// the answer is refused, in this order, when the buffer has a zero address
/// (once bits 31 and 30 are cleared) or a zero size, when the depth is zero,
/// when a physical or a virtual dimension is zero; any other answer is
/// accepted.
pub proof fn lemma_framebuffer_accepted(response: Option<FramebufferTags>)
    ensures
        response is None ==> framebuffer_outcome(response) == Err::<Framebuffer, &'static str>("failed to send a mailbox"),
        response matches Some(tags) ==> ({
            let r = framebuffer_outcome(response);
            let addr = tags.5.value.0 & 0x3fff_ffff;
            if addr == 0 || tags.5.value.1 == 0 {
                r == Err::<Framebuffer, &'static str>("failed to allocate buffer")
            } else if tags.3.value == 0 {
                r == Err::<Framebuffer, &'static str>("unsupported color depth")
            } else if tags.0.value.0 == 0 || tags.0.value.1 == 0 {
                r == Err::<Framebuffer, &'static str>("unsupported physical resolution")
            } else if tags.1.value.0 == 0 || tags.1.value.1 == 0 {
                r == Err::<Framebuffer, &'static str>("unsupported virtual resolution")
            } else {
                r is Ok
            }
        }),
{
    if let Some(tags) = response {
        lemma_framebuffer_address(tags);
    }
}

impl Framebuffer {
    /// The property tags that request a framebuffer.
    pub fn request(width: u32, height: u32, depth: u32, order: u32) -> (r: FramebufferTags)
        ensures
            r == framebuffer_request(width, height, depth, order),
    {
        (
            PropertyTag::new(SET_PHYSICAL_RESOLUTION, (width, height)),
            PropertyTag::new(SET_VIRTUAL_RESOLUTION, (width, height)),
            PropertyTag::new(SET_VIRTUAL_OFFSET, (0i32, 0i32)),
            PropertyTag::new(SET_DEPTH, depth),
            PropertyTag::new(SET_PIXEL_ORDER, order),
            PropertyTag::new(ALLOCATE_BUFFER, (4096u32, 0u32)),
            PropertyTag::new(GET_PITCH, 0u32),
        )
    }

    /// Checks the firmware's answer to a framebuffer request.
    pub fn from_response(response: Option<FramebufferTags>) -> (r: Result<Framebuffer, &'static str>)
        ensures
            r == framebuffer_outcome(response),
    {
        let (phys_res, virt_res, _, depth, order, buffer, pitch) = match response {
            None => return Err("failed to send a mailbox"),
            Some(tags) => tags,
        };
        let bus_addr = buffer.value.0;
        let addr = bus_addr & 0x3fff_ffff;
        assert(addr == bus_addr % 0x4000_0000) by (bit_vector)
            requires addr == bus_addr & 0x3fff_ffff;
        let fb = Framebuffer {
            addr,
            size: buffer.value.1,
            pitch: pitch.value,
            phys_res: phys_res.value,
            virt_res: virt_res.value,
            depth: depth.value,
            order: order.value,
        };
        if fb.addr == 0 || fb.size == 0 {
            return Err("failed to allocate buffer");
        }
        if fb.depth == 0 {
            return Err("unsupported color depth");
        }
        if fb.phys_res.0 == 0 || fb.phys_res.1 == 0 {
            return Err("unsupported physical resolution");
        }
        if fb.virt_res.0 == 0 || fb.virt_res.1 == 0 {
            return Err("unsupported virtual resolution");
        }
        Ok(fb)
    }

    /// Sets up a framebuffer of `width` x `height` pixels: `send` hands the
    /// request to the firmware and returns its answer, if any.
    pub fn init<F: FnOnce(FramebufferTags) -> Option<FramebufferTags>>(
        width: u32,
        height: u32,
        depth: u32,
        order: u32,
        send: F,
    ) -> (r: Result<Framebuffer, &'static str>)
        requires
            send.requires((framebuffer_request(width, height, depth, order),)),
        ensures
            exists|response: Option<FramebufferTags>|
                send.ensures((framebuffer_request(width, height, depth, order),), response)
                && r == framebuffer_outcome(response),
    {
        let request = Self::request(width, height, depth, order);
        let response = send(request);
        Self::from_response(response)
    }

    /// Byte offset of pixel (`x`, `y`) within the buffer.
    pub open spec fn pixel_offset(self, x: u32, y: u32) -> nat {
        (y * self.pitch + x * (self.depth / 8)) as nat
    }

    /// Whether the offset of pixel (`x`, `y`) and, for a pixel inside the
    /// buffer, its address fit in 32 bits.
    pub open spec fn pixel_fits(self, x: u32, y: u32) -> bool {
        &&& self.pixel_offset(x, y) <= u32::MAX
        &&& self.pixel_offset(x, y) < self.size ==> self.addr + self.pixel_offset(x, y) <= u32::MAX
    }

    /// Where pixel (`x`, `y`) is written and in which channel order, or why it
    /// cannot be: it lies past the buffer, the depth is not 32 bits, or the
    /// pixel order is neither 0 nor 1.
    pub fn pixel_target(&self, x: u32, y: u32) -> (r: Result<(u64, PixelOrder), &'static str>)
        requires
            self.pixel_fits(x, y),
        ensures
            r == (if self.pixel_offset(x, y) >= self.size {
                Err("pixel out of range")
            } else if self.depth != 32 {
                Err("unsupported color depth")
            } else if self.order == 0 {
                Ok(((self.addr + self.pixel_offset(x, y) + UPPER_HALF_OFFSET) as u64, PixelOrder::Bgr))
            } else if self.order == 1 {
                Ok(((self.addr + self.pixel_offset(x, y) + UPPER_HALF_OFFSET) as u64, PixelOrder::Rgb))
            } else {
                Err("unsupported pixel order")
            }),
    {
        let offset = y * self.pitch + x * (self.depth / 8);
        if offset >= self.size {
            return Err("pixel out of range");
        }
        let p = (self.addr + offset) as u64 + UPPER_HALF_OFFSET;
        if self.depth != 32 {
            return Err("unsupported color depth");
        }
        match self.order {
            0 => Ok((p, PixelOrder::Bgr)),
            1 => Ok((p, PixelOrder::Rgb)),
            _ => Err("unsupported pixel order"),
        }
    }
}

} // verus!
