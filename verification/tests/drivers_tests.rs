use zanop::drivers::keyboard::{line_key, scancode_to_ascii, LineKey, ScancodeQueue, QUEUE_CAPACITY};
use zanop::drivers::rtc::{bcd_to_bin, decode, readings_agree, update_in_progress, RawTime, RtcTime};
use zanop::drivers::serial::SerialPort;

#[test]
fn scancodes_map_to_ascii() {
    assert_eq!(scancode_to_ascii(0x1E), Some(b'a'));
    assert_eq!(scancode_to_ascii(0x02), Some(b'1'));
    assert_eq!(scancode_to_ascii(0x1C), Some(b'\n'));
    assert_eq!(scancode_to_ascii(0x0E), Some(0x08));
    assert_eq!(scancode_to_ascii(0x39), Some(b' '));
    assert_eq!(scancode_to_ascii(0x00), None);
    assert_eq!(scancode_to_ascii(0x1D), None);
    assert_eq!(scancode_to_ascii(0x3A), None);
    assert_eq!(scancode_to_ascii(0x9E), None);
}

#[test]
fn queue_is_fifo_and_bounded() {
    let mut q = ScancodeQueue::new();
    assert_eq!(q.try_read_scancode(), None);
    for i in 0..(QUEUE_CAPACITY as u8 + 5) {
        q.push(i);
    }
    for i in 0..(QUEUE_CAPACITY as u8) {
        assert_eq!(q.try_read_scancode(), Some(i));
    }
    assert_eq!(q.try_read_scancode(), None);
}

#[test]
fn line_editing() {
    let mut buf = String::new();
    assert_eq!(line_key(&mut buf, 0x08), LineKey::Nothing);
    assert_eq!(line_key(&mut buf, b'a'), LineKey::Echo('a'));
    assert_eq!(line_key(&mut buf, b'b'), LineKey::Echo('b'));
    assert_eq!(line_key(&mut buf, 0x08), LineKey::Echo('\u{8}'));
    assert_eq!(buf, "a");
    assert_eq!(line_key(&mut buf, b'\n'), LineKey::Finished);
    assert_eq!(buf, "a");
}

#[test]
fn bcd_decoding() {
    assert_eq!(bcd_to_bin(0x59), 59);
    assert_eq!(bcd_to_bin(0x00), 0);
    assert_eq!(bcd_to_bin(0x99), 99);
    assert!(update_in_progress(0x80));
    assert!(!update_in_progress(0x26));
}

#[test]
fn decodes_bcd_twelve_hour_time() {
    let raw = RawTime { second: 0x30, minute: 0x45, hour: 0x81, day: 0x07, month: 0x12, year: 0x24 };
    let t = decode(raw, 0x00);
    assert_eq!(t, RtcTime { seconds: 30, minutes: 45, hours: 13, day: 7, month: 12, year: 2024 });
    let noon = RawTime { hour: 0x92, ..raw };
    assert_eq!(decode(noon, 0x00).hours, 12);
    let midnight = RawTime { hour: 0x12, ..raw };
    assert_eq!(decode(midnight, 0x00).hours, 0);
    let morning = RawTime { hour: 0x11, ..raw };
    assert_eq!(decode(morning, 0x00).hours, 11);
    let evening = RawTime { hour: 0x91, ..raw };
    assert_eq!(decode(evening, 0x00).hours, 23);
    let binary_pm = RawTime { hour: 0x80 | 7, ..raw };
    assert_eq!(decode(binary_pm, 0x04).hours, 19);
}

#[test]
fn stable_readings_agree() {
    let raw = RawTime { second: 1, minute: 2, hour: 3, day: 4, month: 5, year: 6 };
    assert!(readings_agree(raw, raw));
    assert!(!readings_agree(raw, RawTime { second: 2, ..raw }));
}

#[test]
fn decodes_binary_24_hour_time() {
    let raw = RawTime { second: 5, minute: 6, hour: 23, day: 31, month: 1, year: 99 };
    let t = decode(raw, 0x06);
    assert_eq!(t, RtcTime { seconds: 5, minutes: 6, hours: 23, day: 31, month: 1, year: 2099 });
    let bcd24 = RawTime { second: 0x05, minute: 0x06, hour: 0x23, day: 0x31, month: 0x01, year: 0x99 };
    assert_eq!(decode(bcd24, 0x02), t);
}

#[test]
fn serial_handshake_and_setup() {
    assert!(SerialPort::transmit_ready(0x20));
    assert!(SerialPort::transmit_ready(0x60));
    assert!(!SerialPort::transmit_ready(0x1F));
    let seq = SerialPort::init_sequence();
    assert_eq!(seq.len(), 7);
    assert_eq!(seq[0], (0x3F9, 0x00));
    assert_eq!(seq[2], (0x3F8, 0x03));
    assert_eq!(seq[6], (0x3FC, 0x0B));
}
