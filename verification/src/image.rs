//! The boot image `kernel8.img`: the boot code padded with zeros to 4 KiB,
//! followed by the kernel.
use vstd::prelude::*;

verus! {

/// Room for the boot code at the start of the image.
pub const BOOT_CODE_MAX_SIZE: usize = 0x1000;

/// The image made of `boot` and `kernel`.
pub open spec fn image_bytes(boot: Seq<u8>, kernel: Seq<u8>) -> Seq<u8> {
    boot + Seq::new((BOOT_CODE_MAX_SIZE - boot.len()) as nat, |i: int| 0u8) + kernel
}

/// Builds the image: the boot code, zeros up to 4 KiB, then the kernel.  The
/// boot code must fit in 4 KiB.
pub fn kernel8_image(boot: Vec<u8>, kernel: Vec<u8>) -> (image: Vec<u8>)
    requires
        boot@.len() <= BOOT_CODE_MAX_SIZE,
        BOOT_CODE_MAX_SIZE + kernel@.len() <= usize::MAX,
    ensures
        image@ == image_bytes(boot@, kernel@),
{
    let mut image = boot;
    let ghost boot_bytes = image@;
    while image.len() < BOOT_CODE_MAX_SIZE
        invariant
            boot_bytes.len() <= image@.len() <= BOOT_CODE_MAX_SIZE,
            image@ == boot_bytes + Seq::new((image@.len() - boot_bytes.len()) as nat, |i: int| 0u8),
        decreases BOOT_CODE_MAX_SIZE - image@.len(),
    {
        image.push(0);
        proof {
            assert(image@ =~= boot_bytes + Seq::new((image@.len() - boot_bytes.len()) as nat, |i: int| 0u8));
        }
    }
    let mut i: usize = 0;
    let ghost padded = image@;
    while i < kernel.len()
        invariant
            padded.len() == BOOT_CODE_MAX_SIZE,
            i <= kernel@.len(),
            BOOT_CODE_MAX_SIZE + kernel@.len() <= usize::MAX,
            image@ == padded + kernel@.take(i as int),
        decreases kernel@.len() - i,
    {
        image.push(kernel[i]);
        proof {
            assert(image@ =~= padded + kernel@.take(i + 1));
        }
        i = i + 1;
    }
    proof {
        assert(kernel@.take(kernel@.len() as int) =~= kernel@);
        assert(image@ =~= image_bytes(boot_bytes, kernel@));
    }
    image
}

/// The kernel starts at 4 KiB into the image, and the boot code and the
/// kernel are found there unchanged.
pub proof fn lemma_image_layout(boot: Seq<u8>, kernel: Seq<u8>)
    requires
        boot.len() <= BOOT_CODE_MAX_SIZE,
    ensures
        image_bytes(boot, kernel).len() == BOOT_CODE_MAX_SIZE + kernel.len(),
        image_bytes(boot, kernel).take(boot.len() as int) == boot,
        image_bytes(boot, kernel).skip(BOOT_CODE_MAX_SIZE as int) == kernel,
        forall|i: int| boot.len() <= i < BOOT_CODE_MAX_SIZE ==> image_bytes(boot, kernel)[i] == 0,
{
    let img = image_bytes(boot, kernel);
    assert(img.take(boot.len() as int) =~= boot);
    assert(img.skip(BOOT_CODE_MAX_SIZE as int) =~= kernel);
}

} // verus!
