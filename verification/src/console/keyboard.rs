//! The PS/2 keyboard: scan-code set 1 decoding, modifier state, and a ring
//! buffer of typed characters.
use vstd::prelude::*;

verus! {

/// Slots of the ring buffer; it holds one character fewer.
pub const KEYBOARD_BUFFER_SIZE: usize = 256;
/// Scan code of the left shift key.
pub const LEFT_SHIFT: u8 = 42;
/// Scan code of the right shift key.
pub const RIGHT_SHIFT: u8 = 54;
/// Scan code of the left control key.
pub const LEFT_CTRL: u8 = 29;
/// Scan code of the left alt key.
pub const LEFT_ALT: u8 = 56;
/// Scan code of caps lock.
pub const CAPS_LOCK: u8 = 58;

/// The character key `code` types without shift, if any.
pub open spec fn base_char(code: u8) -> Option<char> {
    match code {
        1 => Some('`'),
        2 => Some('1'),
        3 => Some('2'),
        4 => Some('3'),
        5 => Some('4'),
        6 => Some('5'),
        7 => Some('6'),
        8 => Some('7'),
        9 => Some('8'),
        10 => Some('9'),
        11 => Some('0'),
        12 => Some('-'),
        13 => Some('='),
        14 => Some('\u{8}'),
        15 => Some('\t'),
        16 => Some('q'),
        17 => Some('w'),
        18 => Some('e'),
        19 => Some('r'),
        20 => Some('t'),
        21 => Some('y'),
        22 => Some('u'),
        23 => Some('i'),
        24 => Some('o'),
        25 => Some('p'),
        26 => Some('['),
        27 => Some(']'),
        28 => Some('\n'),
        30 => Some('a'),
        31 => Some('s'),
        32 => Some('d'),
        33 => Some('f'),
        34 => Some('g'),
        35 => Some('h'),
        36 => Some('j'),
        37 => Some('k'),
        38 => Some('l'),
        39 => Some(';'),
        40 => Some('\''),
        41 => Some('`'),
        43 => Some('\\'),
        44 => Some('z'),
        45 => Some('x'),
        46 => Some('c'),
        47 => Some('v'),
        48 => Some('b'),
        49 => Some('n'),
        50 => Some('m'),
        51 => Some(','),
        52 => Some('.'),
        53 => Some('/'),
        55 => Some('*'),
        57 => Some(' '),
        74 => Some('-'),
        78 => Some('+'),
        _ => None,
    }
}

/// The character key `code` types with shift, if any.
pub open spec fn shifted_char(code: u8) -> Option<char> {
    match code {
        1 => Some('~'),
        2 => Some('!'),
        3 => Some('@'),
        4 => Some('#'),
        5 => Some('$'),
        6 => Some('%'),
        7 => Some('^'),
        8 => Some('&'),
        9 => Some('*'),
        10 => Some('('),
        11 => Some(')'),
        12 => Some('_'),
        13 => Some('+'),
        14 => Some('\u{8}'),
        15 => Some('\t'),
        16 => Some('Q'),
        17 => Some('W'),
        18 => Some('E'),
        19 => Some('R'),
        20 => Some('T'),
        21 => Some('Y'),
        22 => Some('U'),
        23 => Some('I'),
        24 => Some('O'),
        25 => Some('P'),
        26 => Some('{'),
        27 => Some('}'),
        28 => Some('\n'),
        30 => Some('A'),
        31 => Some('S'),
        32 => Some('D'),
        33 => Some('F'),
        34 => Some('G'),
        35 => Some('H'),
        36 => Some('J'),
        37 => Some('K'),
        38 => Some('L'),
        39 => Some(':'),
        40 => Some('"'),
        41 => Some('~'),
        43 => Some('|'),
        44 => Some('Z'),
        45 => Some('X'),
        46 => Some('C'),
        47 => Some('V'),
        48 => Some('B'),
        49 => Some('N'),
        50 => Some('M'),
        51 => Some('<'),
        52 => Some('>'),
        53 => Some('?'),
        55 => Some('*'),
        57 => Some(' '),
        74 => Some('-'),
        78 => Some('+'),
        _ => None,
    }
}

/// The character key `code` types without shift, if any.
pub fn scancode_map(code: u8) -> (r: Option<char>)
    ensures
        r == base_char(code),
{
    match code {
        1 => Some('`'),
        2 => Some('1'),
        3 => Some('2'),
        4 => Some('3'),
        5 => Some('4'),
        6 => Some('5'),
        7 => Some('6'),
        8 => Some('7'),
        9 => Some('8'),
        10 => Some('9'),
        11 => Some('0'),
        12 => Some('-'),
        13 => Some('='),
        14 => Some('\u{8}'),
        15 => Some('\t'),
        16 => Some('q'),
        17 => Some('w'),
        18 => Some('e'),
        19 => Some('r'),
        20 => Some('t'),
        21 => Some('y'),
        22 => Some('u'),
        23 => Some('i'),
        24 => Some('o'),
        25 => Some('p'),
        26 => Some('['),
        27 => Some(']'),
        28 => Some('\n'),
        30 => Some('a'),
        31 => Some('s'),
        32 => Some('d'),
        33 => Some('f'),
        34 => Some('g'),
        35 => Some('h'),
        36 => Some('j'),
        37 => Some('k'),
        38 => Some('l'),
        39 => Some(';'),
        40 => Some('\''),
        41 => Some('`'),
        43 => Some('\\'),
        44 => Some('z'),
        45 => Some('x'),
        46 => Some('c'),
        47 => Some('v'),
        48 => Some('b'),
        49 => Some('n'),
        50 => Some('m'),
        51 => Some(','),
        52 => Some('.'),
        53 => Some('/'),
        55 => Some('*'),
        57 => Some(' '),
        74 => Some('-'),
        78 => Some('+'),
        _ => None,
    }
}

/// The character key `code` types with shift, if any.
pub fn scancode_map_shift(code: u8) -> (r: Option<char>)
    ensures
        r == shifted_char(code),
{
    match code {
        1 => Some('~'),
        2 => Some('!'),
        3 => Some('@'),
        4 => Some('#'),
        5 => Some('$'),
        6 => Some('%'),
        7 => Some('^'),
        8 => Some('&'),
        9 => Some('*'),
        10 => Some('('),
        11 => Some(')'),
        12 => Some('_'),
        13 => Some('+'),
        14 => Some('\u{8}'),
        15 => Some('\t'),
        16 => Some('Q'),
        17 => Some('W'),
        18 => Some('E'),
        19 => Some('R'),
        20 => Some('T'),
        21 => Some('Y'),
        22 => Some('U'),
        23 => Some('I'),
        24 => Some('O'),
        25 => Some('P'),
        26 => Some('{'),
        27 => Some('}'),
        28 => Some('\n'),
        30 => Some('A'),
        31 => Some('S'),
        32 => Some('D'),
        33 => Some('F'),
        34 => Some('G'),
        35 => Some('H'),
        36 => Some('J'),
        37 => Some('K'),
        38 => Some('L'),
        39 => Some(':'),
        40 => Some('"'),
        41 => Some('~'),
        43 => Some('|'),
        44 => Some('Z'),
        45 => Some('X'),
        46 => Some('C'),
        47 => Some('V'),
        48 => Some('B'),
        49 => Some('N'),
        50 => Some('M'),
        51 => Some('<'),
        52 => Some('>'),
        53 => Some('?'),
        55 => Some('*'),
        57 => Some(' '),
        74 => Some('-'),
        78 => Some('+'),
        _ => None,
    }
}

/// What taking in a scan code does.
pub open spec fn scancode_post(old: Keyboard, new: Keyboard, scancode: u8) -> bool {
    &&& (new.wf())
    &&& (scancode >= 0x80 ==> {
        let key = (scancode - 0x80) as u8;
        &&& new.queued() == old.queued()
        &&& new.shift() == (if key == LEFT_SHIFT || key == RIGHT_SHIFT { false } else { old.shift() })
        &&& new.ctrl() == (if key == LEFT_CTRL { false } else { old.ctrl() })
        &&& new.alt() == (if key == LEFT_ALT { false } else { old.alt() })
        &&& new.caps() == (if key == CAPS_LOCK { !old.caps() } else { old.caps() })
    })
    &&& (scancode < 0x80 ==> {
        &&& new.shift() == (if scancode == LEFT_SHIFT || scancode == RIGHT_SHIFT { true } else { old.shift() })
        &&& new.ctrl() == (if scancode == LEFT_CTRL { true } else { old.ctrl() })
        &&& new.alt() == (if scancode == LEFT_ALT { true } else { old.alt() })
        &&& new.caps() == old.caps()
        &&& new.queued() == if scancode != LEFT_SHIFT && scancode != RIGHT_SHIFT && scancode != LEFT_CTRL
            && scancode != LEFT_ALT && typed_char(scancode, old.shift(), old.caps()) is Some
            && old.queued().len() < KEYBOARD_BUFFER_SIZE - 1 {
            old.queued().push(typed_char(scancode, old.shift(), old.caps()))
        } else {
            old.queued()
        }
    })
}

/// What reading a key does.
pub open spec fn read_key_post(old: Keyboard, new: Keyboard, r: Option<char>) -> bool {
    &&& (new.wf())
    &&& (new.shift() == old.shift() && new.ctrl() == old.ctrl()
        && new.alt() == old.alt() && new.caps() == old.caps())
    &&& (old.queued().len() == 0 ==> r is None && new.queued() == old.queued())
    &&& (old.queued().len() > 0 ==> r == old.queued()[0] && new.queued() == old.queued().drop_first())
}

/// The keyboard: modifier state and the ring buffer of typed characters,
/// read from `head`, written at `tail`.
pub struct Keyboard {
    shift_pressed: bool,
    ctrl_pressed: bool,
    alt_pressed: bool,
    caps_lock: bool,
    buffer: Vec<Option<char>>,
    head: usize,
    tail: usize,
}

/// The character a pressed key `code` types, given shift and caps lock: caps
/// lock shifts the keys from Q to L only.
pub open spec fn typed_char(code: u8, shift: bool, caps: bool) -> Option<char> {
    if shift {
        shifted_char(code)
    } else if caps && 16 <= code <= 35 {
        shifted_char(code)
    } else {
        base_char(code)
    }
}

impl Keyboard {
    /// Whether shift is held.
    pub closed spec fn shift(&self) -> bool { self.shift_pressed }
    /// Whether control is held.
    pub closed spec fn ctrl(&self) -> bool { self.ctrl_pressed }
    /// Whether alt is held.
    pub closed spec fn alt(&self) -> bool { self.alt_pressed }
    /// Whether caps lock is on.
    pub closed spec fn caps(&self) -> bool { self.caps_lock }

    /// The buffered characters, oldest first.
    pub closed spec fn queued(&self) -> Seq<Option<char>> {
        let n = ((self.tail + KEYBOARD_BUFFER_SIZE - self.head) % (KEYBOARD_BUFFER_SIZE as int)) as nat;
        Seq::new(n, |i: int| self.buffer@[(self.head + i) % (KEYBOARD_BUFFER_SIZE as int)])
    }

    /// The ring has its slots and both ends lie in it.
    pub closed spec fn wf(&self) -> bool {
        &&& self.buffer@.len() == KEYBOARD_BUFFER_SIZE
        &&& self.head < KEYBOARD_BUFFER_SIZE
        &&& self.tail < KEYBOARD_BUFFER_SIZE
    }

    /// No modifier, caps lock off, an empty buffer.
    pub fn new() -> (k: Self)
        ensures
            k.wf(),
            !k.shift() && !k.ctrl() && !k.alt() && !k.caps(),
            k.queued() == Seq::<Option<char>>::empty(),
    {
        let mut buffer: Vec<Option<char>> = Vec::new();
        let mut i: usize = 0;
        while i < KEYBOARD_BUFFER_SIZE
            invariant
                i <= KEYBOARD_BUFFER_SIZE,
                buffer@.len() == i,
            decreases KEYBOARD_BUFFER_SIZE - i,
        {
            buffer.push(None);
            i = i + 1;
        }
        let k = Keyboard {
            shift_pressed: false,
            ctrl_pressed: false,
            alt_pressed: false,
            caps_lock: false,
            buffer,
            head: 0,
            tail: 0,
        };
        assert(k.queued() =~= Seq::<Option<char>>::empty());
        k
    }

    /// Whether a character is buffered.
    pub fn has_key(&self) -> (r: bool)
        requires
            self.wf(),
        ensures
            r == (self.queued().len() > 0),
    {
        self.head != self.tail
    }

    /// Takes the oldest buffered character; `None` when nothing is buffered.
    pub fn read_key(&mut self) -> (r: Option<char>)
        requires
            old(self).wf(),
        ensures
            read_key_post(*old(self), *final(self), r),
    {
        if self.head != self.tail {
            let c = self.buffer[self.head];
            self.head = (self.head + 1) % KEYBOARD_BUFFER_SIZE;
            proof {
                assert(self.queued() =~= old(self).queued().drop_first());
            }
            c
        } else {
            None
        }
    }

    /// Empties the buffer.
    pub fn clear_buffer(&mut self)
        requires
            old(self).wf(),
        ensures
            final(self).wf(),
            final(self).queued() == Seq::<Option<char>>::empty(),
            final(self).shift() == old(self).shift() && final(self).ctrl() == old(self).ctrl()
                && final(self).alt() == old(self).alt() && final(self).caps() == old(self).caps(),
    {
        self.head = 0;
        self.tail = 0;
        let mut i: usize = 0;
        while i < KEYBOARD_BUFFER_SIZE
            invariant
                i <= KEYBOARD_BUFFER_SIZE,
                self.buffer@.len() == KEYBOARD_BUFFER_SIZE,
                self.head == 0 && self.tail == 0,
                self.shift_pressed == old(self).shift_pressed && self.ctrl_pressed == old(self).ctrl_pressed
                    && self.alt_pressed == old(self).alt_pressed && self.caps_lock == old(self).caps_lock,
            decreases KEYBOARD_BUFFER_SIZE - i,
        {
            self.buffer.set(i, None);
            i = i + 1;
        }
        assert(self.queued() =~= Seq::<Option<char>>::empty());
    }

    /// Takes in one scan code. A release (high bit set) of shift, control or
    /// alt lets it go, and a release of caps lock toggles it; a press of
    /// shift, control or alt holds it; any other press buffers the character
    /// it types, unless the buffer is full.
    pub fn handle_scancode(&mut self, scancode: u8)
        requires
            old(self).wf(),
        ensures
            scancode_post(*old(self), *final(self), scancode),
    {
        if scancode & 0x80 != 0 {
            let key_code = scancode & 0x7F;
            assert(key_code == scancode - 0x80) by (bit_vector)
                requires scancode & 0x80 != 0, key_code == scancode & 0x7F;
            if key_code == LEFT_SHIFT || key_code == RIGHT_SHIFT {
                self.shift_pressed = false;
            } else if key_code == LEFT_CTRL {
                self.ctrl_pressed = false;
            } else if key_code == LEFT_ALT {
                self.alt_pressed = false;
            } else if key_code == CAPS_LOCK {
                self.caps_lock = !self.caps_lock;
            }
        } else {
            assert(scancode < 0x80) by (bit_vector)
                requires scancode & 0x80 == 0;
            let key_code = scancode;
            if key_code == LEFT_SHIFT || key_code == RIGHT_SHIFT {
                self.shift_pressed = true;
            } else if key_code == LEFT_CTRL {
                self.ctrl_pressed = true;
            } else if key_code == LEFT_ALT {
                self.alt_pressed = true;
            } else {
                let char_option = if self.shift_pressed {
                    scancode_map_shift(key_code)
                } else if self.caps_lock && key_code >= 16 && key_code <= 35 {
                    scancode_map_shift(key_code)
                } else {
                    scancode_map(key_code)
                };
                if let Some(c) = char_option {
                    let next_tail = (self.tail + 1) % KEYBOARD_BUFFER_SIZE;
                    if next_tail != self.head {
                        self.buffer.set(self.tail, Some(c));
                        self.tail = next_tail;
                        proof {
                            let q = old(self).queued();
                            assert forall|i: int| 0 <= i < q.len() implies #[trigger] self.queued()[i] == q[i] by {
                                assert((old(self).head + i) % 256 != old(self).tail as int);
                            }
                            assert(self.queued() =~= q.push(Some(c)));
                        }
                    }
                }
            }
        }
        if scancode & 0x80 == 0 {
            assert(scancode < 0x80) by (bit_vector)
                requires scancode & 0x80 == 0;
        }
    }
}

/// Keys come out in the order they were typed: after typing the key `code`
/// (no modifier, not shifted by caps lock or shift) into a buffer holding
/// `q`, reading gives the oldest key; into an empty buffer, the key typed.
pub proof fn law_keyboard_fifo(k0: Keyboard, k1: Keyboard, k2: Keyboard, code: u8, r: Option<char>)
    requires
        k0.wf(),
        code < 0x80,
        code != LEFT_SHIFT && code != RIGHT_SHIFT && code != LEFT_CTRL && code != LEFT_ALT,
        typed_char(code, k0.shift(), k0.caps()) is Some,
        k0.queued().len() < KEYBOARD_BUFFER_SIZE - 1,
        scancode_post(k0, k1, code),
        read_key_post(k1, k2, r),
    ensures
        k0.queued().len() == 0 ==> r == typed_char(code, k0.shift(), k0.caps()) && k2.queued().len() == 0,
        k0.queued().len() > 0 ==> r == k0.queued()[0]
            && k2.queued() == k0.queued().drop_first().push(typed_char(code, k0.shift(), k0.caps())),
{
    let c = typed_char(code, k0.shift(), k0.caps());
    assert(k1.queued() == k0.queued().push(c));
    if k0.queued().len() > 0 {
        assert(k0.queued().push(c).drop_first() =~= k0.queued().drop_first().push(c));
    }
}

/// Whether `code` is a key that types a character: the main block of a US
/// keyboard in scan-code set 1, with the keypad's `*`, `-` and `+`.
pub open spec fn is_character_key(code: u8) -> bool {
    (1 <= code <= 28) || (30 <= code <= 41) || (43 <= code <= 53) || code == 55 || code == 57 || code == 74 || code == 78
}

/// The keys type the US layout of scan-code set 1. Without shift the digit row
/// (codes 2 to 11) types `1` to `9` then `0`, and shift turns it into
/// `!@#$%^&*()`. The letter rows (codes 16 to 25, 30 to 38 and 44 to 50) type
/// `qwertyuiop`, `asdfghjkl` and `zxcvbnm`, and shift gives the same letter in
/// upper case. The punctuation keys type their US pairs, and backspace, tab,
/// enter, space and the keypad keys are not changed by shift. No other code
/// types a character.
pub proof fn law_us_layout(code: u8)
    ensures
        base_char(code) is Some <==> is_character_key(code),
        shifted_char(code) is Some <==> is_character_key(code),
        2 <= code <= 10 ==> base_char(code) == Some(((code - 1 + 0x30) as u8) as char),
        code == 11 ==> base_char(code) == Some('0'),
        2 <= code <= 11 ==> shifted_char(code) == Some("!@#$%^&*()"@[code - 2]),
        16 <= code <= 25 ==> base_char(code) == Some("qwertyuiop"@[code - 16]),
        30 <= code <= 38 ==> base_char(code) == Some("asdfghjkl"@[code - 30]),
        44 <= code <= 50 ==> base_char(code) == Some("zxcvbnm"@[code - 44]),
        (16 <= code <= 25 || 30 <= code <= 38 || 44 <= code <= 50)
            ==> shifted_char(code)->0 as u32 + 32 == base_char(code)->0 as u32,
        code == 1 || code == 41 ==> base_char(code) == Some('`') && shifted_char(code) == Some('~'),
        code == 12 ==> base_char(code) == Some('-') && shifted_char(code) == Some('_'),
        code == 13 ==> base_char(code) == Some('=') && shifted_char(code) == Some('+'),
        code == 26 ==> base_char(code) == Some('[') && shifted_char(code) == Some('{'),
        code == 27 ==> base_char(code) == Some(']') && shifted_char(code) == Some('}'),
        code == 39 ==> base_char(code) == Some(';') && shifted_char(code) == Some(':'),
        code == 40 ==> base_char(code) == Some('\'') && shifted_char(code) == Some('"'),
        code == 43 ==> base_char(code) == Some('\\') && shifted_char(code) == Some('|'),
        code == 51 ==> base_char(code) == Some(',') && shifted_char(code) == Some('<'),
        code == 52 ==> base_char(code) == Some('.') && shifted_char(code) == Some('>'),
        code == 53 ==> base_char(code) == Some('/') && shifted_char(code) == Some('?'),
        code == 14 ==> base_char(code) == Some('\u{8}') && shifted_char(code) == Some('\u{8}'),
        code == 15 ==> base_char(code) == Some('\t') && shifted_char(code) == Some('\t'),
        code == 28 ==> base_char(code) == Some('\n') && shifted_char(code) == Some('\n'),
        code == 55 ==> base_char(code) == Some('*') && shifted_char(code) == Some('*'),
        code == 57 ==> base_char(code) == Some(' ') && shifted_char(code) == Some(' '),
        code == 74 ==> base_char(code) == Some('-') && shifted_char(code) == Some('-'),
        code == 78 ==> base_char(code) == Some('+') && shifted_char(code) == Some('+'),
{
    reveal_strlit("!@#$%^&*()");
    reveal_strlit("qwertyuiop");
    reveal_strlit("asdfghjkl");
    reveal_strlit("zxcvbnm");
}

/// Shift and caps lock: with shift held a key types its shifted character,
/// caps lock or not; caps lock alone turns the letters of the keys from `q` to
/// `h` (codes 16 to 25 and 30 to 35) into upper case and leaves the digit row
/// and every key from code 36 on as they are.
pub proof fn law_shift_and_caps(code: u8, caps: bool)
    ensures
        typed_char(code, true, caps) == shifted_char(code),
        !caps ==> typed_char(code, false, caps) == base_char(code),
        2 <= code <= 11 ==> typed_char(code, false, true) == base_char(code),
        (16 <= code <= 25 || 30 <= code <= 35) ==> typed_char(code, false, true) is Some
            && typed_char(code, false, true)->0 as u32 + 32 == base_char(code)->0 as u32,
        code >= 36 ==> typed_char(code, false, true) == base_char(code),
{
    law_us_layout(code);
}

} // verus!
