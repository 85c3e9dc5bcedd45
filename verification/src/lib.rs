//! Verified core of a small Raspberry Pi 4 (AArch64) kernel: translation-table
//! descriptors and mappings, GPIO register fields, the VideoCore mailbox and
//! framebuffer negotiation, UART bring-up plans, the system timer, the snake
//! demo game, the text console and the boot-image builder.
pub mod descriptors;
pub mod mmu;
pub mod translation_tables;
pub mod gpio;
pub mod peripherals;
pub mod mailbox;

pub mod framebuffer;
pub mod timer;
pub mod uart;
pub mod snake;
pub mod console;
pub mod exception;
pub mod image;
pub mod gpio_input;
