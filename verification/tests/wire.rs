use spine::bridge::{read_le32, region_fits};
use spine::message::Message;

#[test]
fn message_framing_respects_the_claimed_length() {
    let buf: [u8; 8] = [10, 20, 30, 40, 50, 60, 70, 80];
    let m: Message<8> = Message::new(buf, 3).expect("fits");
    assert_eq!(m.len(), 3);
    assert_eq!(m.to_vec(), vec![10, 20, 30]);

    let all: Message<8> = Message::new(buf, 8).expect("fits");
    assert_eq!(all.to_vec(), buf.to_vec());

    let too_long: Option<Message<8>> = Message::new(buf, 9);
    assert!(too_long.is_none());
}

#[test]
fn le32_reads_the_exact_value() {
    let b = [0x78, 0x56, 0x34, 0x12, 0xFF, 0x00, 0x00, 0x00];
    assert_eq!(read_le32(&b, 0), 0x12345678);
    assert_eq!(read_le32(&b, 4), 0xFF);
}

#[test]
fn region_bounds_are_checked_without_overflow() {
    assert!(region_fits(0, 0, 0));
    assert!(region_fits(10, 6, 16));
    assert!(!region_fits(10, 7, 16));
    assert!(!region_fits(17, 0, 16));
    // Offsets and lengths near the address-space limit must not wrap.
    assert!(!region_fits(usize::MAX, 1, usize::MAX));
    assert!(!region_fits(1, usize::MAX, usize::MAX));
    assert!(region_fits(0, usize::MAX, usize::MAX));
}
