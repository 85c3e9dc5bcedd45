use rpi4_kernel::mailbox::property::{GET_PITCH, SET_DEPTH, SET_PHYSICAL_RESOLUTION};
use rpi4_kernel::mailbox::{
    mailbox_empty, mailbox_full, mailbox_message, mailbox_reply, property_message_data, property_reply,
    MailboxChannel, PropertyMessage, PropertyTag, REQUEST_SUCCESSFUL,
};

const CHANNELS: [(MailboxChannel, u8); 9] = [
    (MailboxChannel::PowerManagement, 0),
    (MailboxChannel::Framebuffer, 1),
    (MailboxChannel::VirtualUART, 2),
    (MailboxChannel::VCHIQ, 3),
    (MailboxChannel::LED, 4),
    (MailboxChannel::Button, 5),
    (MailboxChannel::TouchScreen, 6),
    (MailboxChannel::PropertyFromArm, 8),
    (MailboxChannel::PropertyFromVC, 9),
];

#[test]
fn channel_numbers() {
    for (c, n) in CHANNELS {
        assert_eq!(c.bits(), n);
    }
}

#[test]
fn status_bits() {
    assert!(mailbox_full(0x8000_0000));
    assert!(mailbox_full(0xffff_ffff));
    assert!(!mailbox_full(0x7fff_ffff));
    assert!(mailbox_empty(0x4000_0000));
    assert!(mailbox_empty(0xc000_0000));
    assert!(!mailbox_empty(0x8000_0000));
    assert!(!mailbox_empty(0));
}

#[test]
fn mailbox_words() {
    assert_eq!(mailbox_message(MailboxChannel::PropertyFromArm, 0x123), 0x1238);
    assert_eq!(mailbox_message(MailboxChannel::LED, 0xffff_ffff), 0xffff_fff4);
    assert_eq!(mailbox_reply(MailboxChannel::PropertyFromArm, 0x1238), Some(0x123));
    assert_eq!(mailbox_reply(MailboxChannel::PropertyFromVC, 0x1238), None);
}

#[test]
fn mailbox_round_trip() {
    for (sent, _) in CHANNELS {
        for (read, _) in CHANNELS {
            let word = mailbox_message(sent, 0xabcd_ef01);
            let reply = mailbox_reply(read, word);
            if sent.bits() == read.bits() {
                assert_eq!(reply, Some(0x0bcd_ef01));
            } else {
                assert_eq!(reply, None);
            }
        }
    }
}

#[test]
fn property_tags_and_messages() {
    let t = PropertyTag::new(SET_DEPTH, 32u32);
    assert_eq!((t.id, t.size, t.code, t.value), (0x0004_8005, 4, 0, 32));
    let r = PropertyTag::new(SET_PHYSICAL_RESOLUTION, (1024u32, 600u32));
    assert_eq!((r.id, r.size, r.code, r.value), (0x0004_8003, 8, 0, (1024, 600)));
    let m = PropertyMessage::new(PropertyTag::new(GET_PITCH, 0u32));
    assert_eq!(m.size, 32);
    assert_eq!(PropertyMessage::new(0u32).size, 16);
    assert_eq!(PropertyMessage::new(0u64).size, 32);
    assert_eq!(PropertyMessage::new([0u8; 5]).size, 32);
    assert_eq!(PropertyMessage::new([0u8; 4]).size, 16);
    assert_eq!((m.code, m.end, m.tags.id), (0, 0, 0x0004_0008));
}

#[test]
fn property_replies() {
    assert_eq!(property_message_data(0x0008_1230), 0x8123);
    let mut m = PropertyMessage::new(7u32);
    assert_eq!(property_reply(5, 5, m.clone()), None);
    m.code = REQUEST_SUCCESSFUL;
    assert_eq!(property_reply(5, 6, m.clone()), None);
    assert_eq!(property_reply(5, 5, m.clone()), Some(7));
    m.code = 0x8000_0001;
    assert_eq!(property_reply(5, 5, m), None);
}
