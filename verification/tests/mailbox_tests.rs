use pi::mailbox::{
    call_message, call_result, read_message, write_message, MailboxBuf, MailboxBufStatus,
    MailboxChannel, MailboxStatus, MailboxTag, PixelOrder,
};

const CHANNELS: [MailboxChannel; 16] = [
    MailboxChannel::PowerManagement,
    MailboxChannel::Framebuffer,
    MailboxChannel::VirtualUART,
    MailboxChannel::VCHIQ,
    MailboxChannel::LEDs,
    MailboxChannel::Buttons,
    MailboxChannel::TouchScreen,
    MailboxChannel::Count,
    MailboxChannel::PropertyARMToVC,
    MailboxChannel::PropertyVCToARM,
    MailboxChannel::Reserved10,
    MailboxChannel::Reserved11,
    MailboxChannel::Reserved12,
    MailboxChannel::Reserved13,
    MailboxChannel::Reserved14,
    MailboxChannel::Reserved15,
];

#[test]
fn channel_numbers_round_trip() {
    for (n, c) in CHANNELS.iter().enumerate() {
        assert_eq!(c.code(), n as u32);
        assert_eq!(MailboxChannel::from(n as u32), *c);
    }
}

#[test]
fn channel_from_uses_low_nibble_only() {
    assert_eq!(MailboxChannel::from(0x1234_5678u32), MailboxChannel::PropertyARMToVC);
    assert_eq!(MailboxChannel::from(0xffff_fff1u32), MailboxChannel::Framebuffer);
    assert_eq!(MailboxChannel::from(0xfu32), MailboxChannel::Reserved15);
}

#[test]
fn buffer_status_codes() {
    assert_eq!(MailboxBufStatus::ProcessRequest.code(), 0);
    assert_eq!(MailboxBufStatus::RequestSuccessful.code(), 0x8000_0000);
    assert_eq!(MailboxBufStatus::ErrorParsingRequest.code(), 0x8000_0001);
    assert_eq!(MailboxBufStatus::from_code(0x8000_0000), MailboxBufStatus::RequestSuccessful);
    assert_eq!(MailboxBufStatus::try_from_code(0x8000_0001), Some(MailboxBufStatus::ErrorParsingRequest));
    assert_eq!(MailboxBufStatus::try_from_code(0x8000_0002), None);
    assert_eq!(MailboxBufStatus::try_from_code(1), None);
}

#[test]
fn pixel_order_codes() {
    assert_eq!(PixelOrder::from_code(0), PixelOrder::BGR);
    assert_eq!(PixelOrder::from_code(1), PixelOrder::RBG);
    assert_eq!(PixelOrder::BGR.code(), 0);
    assert_eq!(PixelOrder::RBG.code(), 1);
    assert_eq!(PixelOrder::try_from_code(2), None);
}

#[test]
fn tag_codes() {
    assert_eq!(MailboxTag::EndTag.code(), 0);
    assert_eq!(MailboxTag::GetFirmwareRevision.code(), 0x0000_0001);
    assert_eq!(MailboxTag::GetBoardSerial.code(), 0x0001_0004);
    assert_eq!(MailboxTag::AllocateBuffer.code(), 0x0004_0001);
    assert_eq!(MailboxTag::SetPhysicalWidthHeight.code(), 0x0004_8003);
    assert_eq!(MailboxTag::SetVirtualOffset.code(), 0x0004_8009);
    assert_eq!(MailboxTag::GetPitch.code(), 0x0004_0008);
    assert_eq!(MailboxTag::SetCursorState.code(), 0x0000_8011);
}

#[test]
fn status_register_bits() {
    assert!(MailboxStatus::Full.is_set_in(0x8000_0000));
    assert!(MailboxStatus::Full.is_set_in(0xc000_0000));
    assert!(!MailboxStatus::Full.is_set_in(0x4000_0000));
    assert!(MailboxStatus::Empty.is_set_in(0x4000_0001));
    assert!(!MailboxStatus::Empty.is_set_in(0x8000_0000));
}

#[test]
fn new_buffer_is_zero() {
    let b = MailboxBuf::new();
    assert_eq!(b.size(), 0);
    assert_eq!(b.status_code(), 0);
    assert_eq!(b.tag_sequence(), [0u32; 36]);
}

#[test]
fn prepare_buf_sizes_and_terminates() {
    let mut b = MailboxBuf::new();
    for i in 0..36 {
        b.set_tag(i, 7);
    }
    b.prepare_buf(5);
    assert_eq!(b.size(), 32);
    assert_eq!(b.get_status(), MailboxBufStatus::ProcessRequest);
    assert_eq!(b.tag(5), 0);
    assert_eq!(b.tag(4), 7);
    assert_eq!(b.tag(6), 7);
    b.prepare_buf(35);
    assert_eq!(b.size(), 152);
    assert_eq!(b.tag(35), 0);
}

#[test]
fn call_message_replaces_low_nibble() {
    assert_eq!(call_message(0x0008_1234, MailboxChannel::PropertyARMToVC), 0x0008_1238);
    assert_eq!(call_message(0x0008_1230, MailboxChannel::Framebuffer), 0x0008_1231);
    assert_eq!(MailboxChannel::from(call_message(0xdead_beef, MailboxChannel::LEDs)), MailboxChannel::LEDs);
}

#[test]
fn call_result_by_status() {
    assert_eq!(call_result(MailboxBufStatus::RequestSuccessful), Ok(()));
    assert_eq!(call_result(MailboxBufStatus::ErrorParsingRequest), Err(()));
    assert_eq!(call_result(MailboxBufStatus::ProcessRequest), Err(()));
}

#[test]
fn write_then_read_message() {
    let w = write_message(MailboxChannel::Framebuffer, 0x0123_4567);
    assert_eq!(w, 0x1234_5671);
    assert_eq!(read_message(MailboxChannel::Framebuffer, w), Some(0x0123_4567));
    assert_eq!(read_message(MailboxChannel::LEDs, w), None);
    let w = write_message(MailboxChannel::LEDs, 0xf000_0001);
    assert_eq!(read_message(MailboxChannel::LEDs, w), Some(0x0000_0001));
}
