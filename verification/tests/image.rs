use rpi4_kernel::image::{kernel8_image, BOOT_CODE_MAX_SIZE};

#[test]
fn image_layout() {
    let img = kernel8_image(vec![1, 2], vec![9, 8]);
    assert_eq!(img.len(), 0x1002);
    assert_eq!(&img[..2], &[1, 2]);
    assert!(img[2..0x1000].iter().all(|&b| b == 0));
    assert_eq!(&img[0x1000..], &[9, 8]);
}

#[test]
fn image_with_full_boot_code() {
    let boot = vec![7u8; BOOT_CODE_MAX_SIZE];
    let img = kernel8_image(boot.clone(), vec![]);
    assert_eq!(img, boot);
    let img = kernel8_image(vec![], vec![3]);
    assert_eq!(img.len(), 0x1001);
    assert_eq!(img[0x1000], 3);
}
