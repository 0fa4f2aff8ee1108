//! CMOS real-time clock: decoding the raw register values into a time.
use vstd::prelude::*;

verus! {

/// A wall-clock time.
#[derive(Clone, Copy, Debug, PartialEq, Eq, Structural)]
pub struct RtcTime {
    pub seconds: u8,
    pub minutes: u8,
    pub hours: u8,
    pub day: u8,
    pub month: u8,
    pub year: u16,
}

/// The time registers as read from the CMOS, before decoding.
#[derive(Clone, Copy, Debug, PartialEq, Eq, Structural)]
pub struct RawTime {
    pub second: u8,
    pub minute: u8,
    pub hour: u8,
    pub day: u8,
    pub month: u8,
    pub year: u8,
}

/// The value of a packed binary-coded-decimal byte.
pub open spec fn bcd_value(v: u8) -> int {
    v % 16 + (v / 16) * 10
}

/// Converts a packed binary-coded-decimal byte into its binary value.
pub fn bcd_to_bin(v: u8) -> (r: u8)
    ensures
        r == bcd_value(v),
{
    assert(v & 0x0F == v % 16) by (bit_vector);
    (v & 0x0F) + ((v / 16) * 10)
}

/// Status register A reports an update in progress (bit 7).
pub fn update_in_progress(status_a: u8) -> (r: bool)
    ensures
        r == (status_a >= 128),
{
    assert((status_a & 0x80 != 0) == (status_a >= 128)) by (bit_vector);
    status_a & 0x80 != 0
}

/// The hour after BCD decoding, keeping the PM flag (bit 7).
pub open spec fn hour_unpacked(h: u8, binary: bool) -> int {
    if binary {
        h as int
    } else {
        bcd_value((h % 128) as u8) + if h >= 128 {
            128int
        } else {
            0int
        }
    }
}

/// The hour on the 24-hour clock. In 12-hour mode the clock counts
/// 12, 1, ..., 11 with bit 7 set for PM: 12 AM is hour 0 and 12 PM hour 12.
pub open spec fn hour_spec(h: u8, binary: bool, h24: bool) -> int {
    let u = hour_unpacked(h, binary);
    if h24 {
        u
    } else if u >= 128 {
        (u % 128) % 12 + 12
    } else {
        (u % 128) % 12
    }
}

/// A field after optional BCD decoding.
pub open spec fn field_spec(v: u8, binary: bool) -> int {
    if binary {
        v as int
    } else {
        bcd_value(v)
    }
}

/// The time the registers mean under status register B: bit 2 set means
/// binary values (else BCD), bit 1 set means 24-hour mode (else bit 7 of the
/// hour marks PM). Years count from 2000.
pub open spec fn decode_spec(raw: RawTime, status_b: u8) -> RtcTime {
    let binary = status_b % 8 >= 4;
    let h24 = status_b % 4 >= 2;
    RtcTime {
        seconds: field_spec(raw.second, binary) as u8,
        minutes: field_spec(raw.minute, binary) as u8,
        hours: hour_spec(raw.hour, binary, h24) as u8,
        day: field_spec(raw.day, binary) as u8,
        month: field_spec(raw.month, binary) as u8,
        year: (2000 + field_spec(raw.year, binary)) as u16,
    }
}

/// Decodes the raw registers into a time.
pub fn decode(raw: RawTime, status_b: u8) -> (r: RtcTime)
    ensures
        r == decode_spec(raw, status_b),
{
    let is_binary = status_b & 0x04 != 0;
    let is_24h = status_b & 0x02 != 0;
    assert(is_binary == (status_b % 8 >= 4)) by (bit_vector)
        requires
            is_binary == (status_b & 0x04 != 0),
    ;
    assert(is_24h == (status_b % 4 >= 2)) by (bit_vector)
        requires
            is_24h == (status_b & 0x02 != 0),
    ;
    let mut second = raw.second;
    let mut minute = raw.minute;
    let mut hour = raw.hour;
    let mut day = raw.day;
    let mut month = raw.month;
    let mut year = raw.year;
    if !is_binary {
        second = bcd_to_bin(second);
        minute = bcd_to_bin(minute);
        let h = raw.hour;
        let low = bcd_to_bin(h & 0x7F);
        assert(h & 0x7F == h % 128) by (bit_vector);
        assert(low <= 85);
        assert((low | (h & 0x80)) == low + if h >= 128 {
            128u8
        } else {
            0u8
        }) by (bit_vector)
            requires
                low <= 85,
        ;
        hour = low | (h & 0x80);
        day = bcd_to_bin(day);
        month = bcd_to_bin(month);
        year = bcd_to_bin(year);
    }
    assert(hour == hour_unpacked(raw.hour, is_binary));
    if !is_24h {
        let hh = hour;
        assert((hh & 0x80 != 0) == (hh >= 128)) by (bit_vector);
        assert(hh & 0x7F == hh % 128) by (bit_vector);
        if (hour & 0x80) != 0 {
            hour = (hour & 0x7F) % 12 + 12;
        } else {
            hour = (hour & 0x7F) % 12;
        }
    }
    RtcTime {
        seconds: second,
        minutes: minute,
        hours: hour,
        day,
        month,
        year: 2000 + year as u16,
    }
}

/// Two readings of the time registers agree, so the time did not change
/// while it was being read and the reading can be used; otherwise the
/// registers are read again.
pub fn readings_agree(previous: RawTime, current: RawTime) -> (r: bool)
    ensures
        r == (previous == current),
{
    previous.second == current.second && previous.minute == current.minute && previous.hour
        == current.hour && previous.day == current.day && previous.month == current.month
        && previous.year == current.year
}

/// In 12-hour mode decoding gives hours of a 24-hour clock: 12 AM (BCD
/// 0x12) is hour 0, 12 PM (0x92) is hour 12, and a reading of 1 to 12 is
/// that hour modulo 12 in the morning and 12 more with the PM flag.
pub proof fn law_twelve_hour_edges()
    ensures
        hour_spec(0x12, false, false) == 0,
        hour_spec(0x92, false, false) == 12,
        forall|h: u8| 1 <= h <= 12 ==> #[trigger] hour_spec(h, true, false) == h % 12,
        forall|h: u8| 1 <= h <= 12 ==> #[trigger] hour_spec((h + 128) as u8, true, false) == h % 12 + 12,
{
}

} // verus!
