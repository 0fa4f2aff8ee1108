//! PS/2 keyboard: the scancode queue filled by the keyboard interrupt, the
//! scancode-to-ASCII table and line editing.
use vstd::prelude::*;
use std::collections::VecDeque;
use crate::text::push_char;

verus! {

/// The ASCII byte of each set-1 key-down scancode below 58; 0 where a key
/// has none.
pub open spec fn keymap() -> Seq<u8> {
    seq![
        0u8, 0, 49, 50, 51, 52, 53, 54, 55, 56, 57, 48, 45, 61, 8, 9, 113, 119, 101, 114, 116,
        121, 117, 105, 111, 112, 91, 93, 10, 0, 97, 115, 100, 102, 103, 104, 106, 107, 108, 59,
        39, 96, 0, 92, 122, 120, 99, 118, 98, 110, 109, 44, 46, 47, 0, 42, 0, 32,
    ]
}

/// The ASCII byte of a scancode: `None` for release codes (from 0x80), for
/// codes past the table and for keys without one.
pub open spec fn ascii_of(code: u8) -> Option<u8> {
    if (code as int) < keymap().len() && keymap()[code as int] != 0 {
        Some(keymap()[code as int])
    } else {
        None
    }
}

/// Key releases (the press code plus 0x80) never produce a character: they
/// all lie past the end of the table.
pub proof fn law_release_codes_ignored(code: u8)
    requires
        code >= 0x80,
    ensures
        ascii_of(code) is None,
{
}

/// The key at `code` in a row of letter keys that starts at scancode `first`
/// and reads `row` from left to right yields that letter.
pub open spec fn row_yields(code: u8, first: int, row: Seq<char>) -> bool {
    first <= code < first + row.len() ==> ascii_of(code) is Some && ascii_of(code)->0 as char
        == row[code - first]
}

/// Each key of a US QWERTY keyboard gives its character: the number row
/// gives the digits, the scancodes 0x02 to 0x0A giving '1' to '9' in order
/// and 0x0B giving '0', then '-' and '='; the letter rows give their letters
/// in lower case and their punctuation, left to right; space, Enter,
/// backspace, tab, backslash and keypad '*' give their ASCII bytes. Escape,
/// Ctrl, the Shift keys, Alt and every code from 0x3A on give nothing.
pub proof fn law_us_qwerty_layout(code: u8)
    ensures
        0x02 <= code <= 0x0A ==> ascii_of(code) == Some((code + 47) as u8),
        code == 0x0B ==> ascii_of(code) == Some('0' as u8),
        0x02 <= code <= 0x0B ==> ascii_of(code) is Some && '0' <= ascii_of(code)->0 as char <= '9',
        row_yields(code, 0x02, "1234567890-="@),
        row_yields(code, 0x10, "qwertyuiop[]"@),
        row_yields(code, 0x1E, "asdfghjkl;'`"@),
        row_yields(code, 0x2C, "zxcvbnm,./"@),
        code == 0x39 ==> ascii_of(code) == Some(' ' as u8),
        code == 0x1C ==> ascii_of(code) == Some(10u8),
        code == 0x0E ==> ascii_of(code) == Some(8u8),
        code == 0x0F ==> ascii_of(code) == Some(9u8),
        code == 0x2B ==> ascii_of(code) == Some('\\' as u8),
        code == 0x37 ==> ascii_of(code) == Some('*' as u8),
        code == 0x00 || code == 0x01 || code == 0x1D || code == 0x2A || code == 0x36 || code == 0x38
            || code >= 0x3A ==> ascii_of(code) is None,
{
    reveal_strlit("1234567890-=");
    reveal_strlit("qwertyuiop[]");
    reveal_strlit("asdfghjkl;'`");
    reveal_strlit("zxcvbnm,./");
}

/// Very small US QWERTY scancode-to-ASCII table (set 1, key-down only).
pub fn scancode_to_ascii(code: u8) -> (r: Option<u8>)
    ensures
        r == ascii_of(code),
{
    let map: [u8; 58] = [
        0u8, 0, 49, 50, 51, 52, 53, 54, 55, 56, 57, 48, 45, 61, 8, 9, 113, 119, 101, 114, 116,
        121, 117, 105, 111, 112, 91, 93, 10, 0, 97, 115, 100, 102, 103, 104, 106, 107, 108, 59,
        39, 96, 0, 92, 122, 120, 99, 118, 98, 110, 109, 44, 46, 47, 0, 42, 0, 32,
    ];
    assert(map@ =~= keymap());
    let i = code as usize;
    if i < 58 {
        let b = map[i];
        if b != 0 {
            Some(b)
        } else {
            None
        }
    } else {
        None
    }
}

/// Nothing to set up for a basic PS/2 keyboard: the interrupt controller is
/// configured by the architecture code.
pub fn init() {
}

/// Most scancodes the queue holds; later ones are dropped until it drains.
pub const QUEUE_CAPACITY: usize = 64;

/// Scancodes delivered by the keyboard interrupt, oldest first.
pub struct ScancodeQueue {
    queue: VecDeque<u8>,
}

impl View for ScancodeQueue {
    type V = Seq<u8>;

    closed spec fn view(&self) -> Seq<u8> {
        self.queue@
    }
}

/// The queue after a scancode arrives: appended, unless the queue is full.
pub open spec fn push_spec(q: Seq<u8>, scancode: u8) -> Seq<u8> {
    if q.len() < QUEUE_CAPACITY {
        q.push(scancode)
    } else {
        q
    }
}

/// A non-blocking read: the oldest scancode and the rest, or nothing.
pub open spec fn read_spec(q: Seq<u8>) -> (Option<u8>, Seq<u8>) {
    if q.len() == 0 {
        (None, q)
    } else {
        (Some(q[0]), q.drop_first())
    }
}

/// The queue never holds more than its capacity: starting empty, every push
/// keeps it within bounds.
pub proof fn law_queue_bounded(q: Seq<u8>, scancode: u8)
    requires
        q.len() <= QUEUE_CAPACITY,
    ensures
        push_spec(q, scancode).len() <= QUEUE_CAPACITY,
{
}

/// Scancodes come out in the order they went in: reading after a push that
/// found room gives the oldest scancode, or the pushed one from an empty
/// queue, and pushing and reading commute otherwise.
pub proof fn law_queue_fifo(q: Seq<u8>, scancode: u8)
    requires
        q.len() < QUEUE_CAPACITY,
    ensures
        q.len() == 0 ==> read_spec(push_spec(q, scancode)) == (
            Some(scancode),
            Seq::<u8>::empty(),
        ),
        q.len() > 0 ==> read_spec(push_spec(q, scancode)) == (
            read_spec(q).0,
            push_spec(read_spec(q).1, scancode),
        ),
{
    if q.len() == 0 {
        assert(q.push(scancode).drop_first() =~= Seq::<u8>::empty());
    } else {
        assert(q.push(scancode).drop_first() =~= q.drop_first().push(scancode));
    }
}

impl ScancodeQueue {
    /// An empty queue.
    pub fn new() -> (r: ScancodeQueue)
        ensures
            r@ == Seq::<u8>::empty(),
    {
        ScancodeQueue { queue: VecDeque::with_capacity(QUEUE_CAPACITY) }
    }

    /// Queues a scancode from the interrupt handler, unless the queue is full.
    pub fn push(&mut self, scancode: u8)
        ensures
            final(self)@ == push_spec(old(self)@, scancode),
    {
        if self.queue.len() < QUEUE_CAPACITY {
            self.queue.push_back(scancode);
        }
    }

    /// Non-blocking read: the oldest queued scancode, if any.
    pub fn try_read_scancode(&mut self) -> (r: Option<u8>)
        ensures
            (r, final(self)@) == read_spec(old(self)@),
    {
        let r = self.queue.pop_front();
        proof {
            if old(self)@.len() > 0 {
                assert(self.queue@ =~= old(self)@.drop_first());
            }
        }
        r
    }
}

/// Removes the last character of `s` by calling `String::pop`, which the
/// standard library documents as removing and returning the last character,
/// or returning `None` for an empty string. Trusted: the contract below
/// restates that documentation.
#[verifier::external_body]
pub(crate) fn pop_char(s: &mut String) -> (r: Option<char>)
    ensures
        old(s)@.len() == 0 ==> r is None && final(s)@ == old(s)@,
        old(s)@.len() > 0 ==> r == Some(old(s)@.last()) && final(s)@ == old(s)@.drop_last(),
{
    s.pop()
}

/// What a key does to a line being typed.
#[derive(Clone, Copy, Debug, PartialEq, Eq, Structural)]
pub enum LineKey {
    /// Enter: the line is complete.
    Finished,
    /// The line changed; show this character (a backspace for an erase).
    Echo(char),
    /// Nothing happened (backspace on an empty line).
    Nothing,
}

/// Applies one typed ASCII byte to the line `buf`: Enter finishes it,
/// backspace erases the last character, anything else is appended.
pub fn line_key(buf: &mut String, ascii: u8) -> (r: LineKey)
    ensures
        ascii == 10 ==> r == LineKey::Finished && final(buf)@ == old(buf)@,
        ascii == 8 && old(buf)@.len() > 0 ==> r == LineKey::Echo(8u8 as char) && final(buf)@
            == old(buf)@.drop_last(),
        ascii == 8 && old(buf)@.len() == 0 ==> r == LineKey::Nothing && final(buf)@ == old(buf)@,
        ascii != 10 && ascii != 8 ==> r == LineKey::Echo(ascii as char) && final(buf)@ == old(
            buf,
        )@.push(ascii as char),
{
    if ascii == 10 {
        LineKey::Finished
    } else if ascii == 8 {
        match pop_char(buf) {
            Some(_) => LineKey::Echo(8u8 as char),
            None => LineKey::Nothing,
        }
    } else {
        let c = ascii as char;
        push_char(buf, c);
        LineKey::Echo(c)
    }
}

} // verus!
