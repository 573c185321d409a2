//! What a terminal makes of the bytes it is sent.
//!
//! The laws of the renderer are stated over this model: rows of cells, a window that shows
//! some of them, and a cursor. Rows keep their number when the window scrolls, so that a
//! row which has been written stays where it is. Every printed character takes one cell.

use crate::ansi::mode::Mode;
use crate::bytes::{
    decimal, digits, is_digit, is_number, lemma_decimal_of_digits, lemma_split_one,
    lemma_split_two, split, ESC,
};
use crate::event::decode::strings::{after, before, occurs};
use vstd::prelude::*;
use vstd::utf8::*;

verus! {

/// What a terminal has been told apart from its modes. Texts and colors are kept as they were
/// sent.
pub struct Settings {
    /// The number of the cursor style.
    pub cursor_style: int,
    /// The number of the modifyOtherKeys mode.
    pub other_keys: int,
    /// The keyboard enhancements on the normal screen buffer.
    pub keyboard: int,
    /// The keyboard enhancements on the alternate screen buffer.
    pub alt_keyboard: int,
    /// The window title.
    pub title: Seq<u8>,
    /// The icon name.
    pub icon: Seq<u8>,
    /// The foreground by 10, the background by 11, and the cursor color by 12.
    pub colors: Map<int, Seq<u8>>,
    /// The palette colors that are not the default ones.
    pub palette: Map<int, Seq<u8>>,
    /// The shape of the pointer.
    pub pointer: Seq<u8>,
}

/// A terminal, as far as its cells, its cursor, its modes and its settings go.
pub struct Terminal {
    /// How many columns the window has.
    pub width: int,
    /// How many rows the window has.
    pub height: int,
    /// The first row that the window shows.
    pub top: int,
    /// The character at a column and a row.
    pub cells: spec_fn(int, int) -> char,
    /// The column of the cursor.
    pub x: int,
    /// The row of the cursor.
    pub y: int,
    /// Whether the next character goes to the next row, since one was printed in the last
    /// column.
    pub wrap: bool,
    /// The modes that are set.
    pub modes: Set<Mode>,
    /// The settings.
    pub settings: Settings,
    /// The columns with a tab stop.
    pub tabs: Set<int>,
    /// The bytes of a sequence or character that is not complete.
    pub pending: Seq<u8>,
}

/// `v`, kept between `low` and `high`.
pub open spec fn kept(v: int, low: int, high: int) -> int {
    if v < low {
        low
    } else if v > high {
        high
    } else {
        v
    }
}

/// Argument `i` of a sequence; an absent one and zero count as one.
pub open spec fn argument(params: Seq<u8>, i: int) -> int {
    let fields = split(params, 0x3b);
    if i < fields.len() && is_number(fields[i]) && decimal(fields[i]) > 0 {
        decimal(fields[i]) as int
    } else {
        1
    }
}

/// The mode that the digits `n` name, with `?` before them or not.
pub open spec fn named_mode(dec: bool, n: Seq<u8>) -> Mode {
    if dec {
        Mode::Dec(decimal(n) as u16)
    } else {
        Mode::Ansi(decimal(n) as u16)
    }
}

/// Every eighth of `width` columns but the first.
pub open spec fn every_eighth(width: int) -> Set<int> {
    Set::new(|c: int| 0 < c < width && c % 8 == 0)
}

impl Terminal {
    /// The cursor is in the window, the rows below the window are empty, and no sequence is
    /// under way.
    pub open spec fn steady(self) -> bool {
        &&& 0 <= self.x < self.width
        &&& self.top <= self.y < self.top + self.height
        &&& self.pending.len() == 0
        &&& forall|i: int, j: int|
            j >= self.top + self.height ==> #[trigger] (self.cells)(i, j) == ' '
    }

    /// The cursor at the nearest position of the window.
    pub open spec fn placed(self, x: int, y: int) -> Terminal {
        Terminal {
            x: kept(x, 0, self.width - 1),
            y: kept(y, self.top, self.top + self.height - 1),
            wrap: false,
            ..self
        }
    }

    /// The cursor one row down. At the end of the window, the window moves down too.
    pub open spec fn fed_line(self) -> Terminal {
        Terminal {
            y: self.y + 1,
            top: if self.y + 1 < self.top + self.height {
                self.top
            } else {
                self.top + 1
            },
            wrap: false,
            ..self
        }
    }

    /// `c` in the cell of the cursor, which goes on to the next column.
    pub open spec fn printed(self, c: char) -> Terminal {
        let at = if self.wrap {
            Terminal { x: 0, ..self.fed_line() }
        } else {
            self
        };
        Terminal {
            cells: |i: int, j: int|
                if i == at.x && j == at.y {
                    c
                } else {
                    (at.cells)(i, j)
                },
            x: if at.x + 1 < at.width {
                at.x + 1
            } else {
                at.x
            },
            wrap: at.x + 1 >= at.width,
            ..at
        }
    }

    /// Nothing from the cursor to the end of its row.
    pub open spec fn erased_line(self) -> Terminal {
        Terminal {
            cells: |i: int, j: int|
                if j == self.y && i >= self.x {
                    ' '
                } else {
                    (self.cells)(i, j)
                },
            ..self
        }
    }

    /// Nothing from the cursor to the end of the window.
    pub open spec fn erased_below(self) -> Terminal {
        Terminal {
            cells: |i: int, j: int|
                if j > self.y || (j == self.y && i >= self.x) {
                    ' '
                } else {
                    (self.cells)(i, j)
                },
            ..self
        }
    }

    /// `n` empty rows where the cursor is. The rows from there on move down, and out of the
    /// window.
    pub open spec fn inserted_lines(self, n: int) -> Terminal {
        Terminal {
            cells: |i: int, j: int|
                if j < self.y || j >= self.top + self.height {
                    (self.cells)(i, j)
                } else if j < self.y + n {
                    ' '
                } else {
                    (self.cells)(i, j - n)
                },
            x: 0,
            wrap: false,
            ..self
        }
    }

    /// The modes that `fields` name, set or reset one by one.
    pub open spec fn switched(self, dec: bool, fields: Seq<Seq<u8>>, on: bool) -> Terminal
        decreases fields.len(),
    {
        if fields.len() == 0 {
            self
        } else {
            let before = self.switched(dec, fields.drop_last(), on);
            let mode = named_mode(dec, fields.last());
            Terminal {
                modes: if on {
                    before.modes.insert(mode)
                } else {
                    before.modes.remove(mode)
                },
                ..before
            }
        }
    }

    /// A control sequence with a prefix: the modifyOtherKeys mode, `> 4 ; n m`, the keyboard
    /// enhancements of the screen buffer that is shown, `= n ; 1 u`, and tab stops every eight
    /// columns, `? 5 W`.
    pub open spec fn told(self, prefix: u8, fields: Seq<Seq<u8>>, last: u8) -> Terminal {
        if prefix == 0x3e && last == 0x6d && fields[0] == seq![0x34u8] {
            Terminal {
                settings: Settings {
                    other_keys: if fields.len() > 1 {
                        decimal(fields[1]) as int
                    } else {
                        0
                    },
                    ..self.settings
                },
                ..self
            }
        } else if prefix == 0x3d && last == 0x75 {
            let n = decimal(fields[0]) as int;
            Terminal {
                settings: if self.modes.contains(Mode::Dec(1049)) {
                    Settings { alt_keyboard: n, ..self.settings }
                } else {
                    Settings { keyboard: n, ..self.settings }
                },
                ..self
            }
        } else if prefix == 0x3f && last == 0x57 && fields[0] == seq![0x35u8] {
            Terminal { tabs: every_eighth(self.width), ..self }
        } else {
            self
        }
    }

    /// The settings after the command `n`, with a text.
    pub open spec fn commanded(self, n: nat, text: Seq<u8>) -> Settings {
        if n == 0 {
            Settings { title: text, icon: text, ..self.settings }
        } else if n == 1 {
            Settings { icon: text, ..self.settings }
        } else if n == 2 {
            Settings { title: text, ..self.settings }
        } else if n == 4 {
            Settings {
                palette: self.settings.palette.insert(
                    decimal(before(text, 0x3b)) as int,
                    after(text, 0x3b),
                ),
                ..self.settings
            }
        } else if n == 10 || n == 11 || n == 12 {
            Settings { colors: self.settings.colors.insert(n as int, text), ..self.settings }
        } else if n == 22 {
            Settings { pointer: text, ..self.settings }
        } else if n == 104 {
            Settings {
                palette: self.settings.palette.remove(decimal(text) as int),
                ..self.settings
            }
        } else {
            self.settings
        }
    }

    /// The settings after the command `n` without a text.
    pub open spec fn commanded_bare(self, n: nat) -> Settings {
        if n == 104 {
            Settings { palette: Map::empty(), ..self.settings }
        } else if n == 110 || n == 111 || n == 112 {
            Settings { colors: self.settings.colors.remove(n - 100), ..self.settings }
        } else {
            self.settings
        }
    }

    /// An operating system command with this payload. A text `?` asks, and changes nothing.
    pub open spec fn ordered(self, payload: Seq<u8>) -> Terminal {
        let n = decimal(before(payload, 0x3b));
        let text = after(payload, 0x3b);
        Terminal {
            settings: if !occurs(payload, 0x3b) {
                self.commanded_bare(decimal(payload))
            } else if text.len() > 0 && text.last() == 0x3f && n >= 4 && n <= 12 {
                self.settings
            } else {
                self.commanded(n, text)
            },
            ..self
        }
    }

    /// A control sequence with these parameter bytes and this final byte. Those that
    /// concern none of what is modelled have no effect here.
    pub open spec fn controlled(self, params: Seq<u8>, last: u8) -> Terminal {
        let dec = params.len() > 0 && params[0] == 0x3f;
        let n = if dec {
            params.drop_first()
        } else {
            params
        };
        if last == 0x68 || last == 0x6c {
            self.switched(dec, split(n, 0x3b), last == 0x68)
        } else if params.len() > 0 && !is_digit(params[0]) {
            self.told(params[0], split(params.drop_first(), 0x3b), last)
        } else if last == 0x71 && params.len() > 0 && params.last() == 0x20 {
            Terminal {
                settings: Settings {
                    cursor_style: decimal(params.drop_last()) as int,
                    ..self.settings
                },
                ..self
            }
        } else if last == 0x41 {
            self.placed(self.x, self.y - argument(params, 0))
        } else if last == 0x42 {
            self.placed(self.x, self.y + argument(params, 0))
        } else if last == 0x43 {
            self.placed(self.x + argument(params, 0), self.y)
        } else if last == 0x48 {
            self.placed(argument(params, 1) - 1, self.top + argument(params, 0) - 1)
        } else if last == 0x4a && params.len() == 0 {
            self.erased_below()
        } else if last == 0x4b && params.len() == 0 {
            self.erased_line()
        } else if last == 0x4c {
            self.inserted_lines(argument(params, 0))
        } else if last == 0x67 && params == seq![0x33u8] {
            Terminal { tabs: Set::empty(), ..self }
        } else {
            self
        }
    }

    /// One more byte of an escape sequence that `p` begins.
    pub open spec fn escaped(self, p: Seq<u8>) -> Terminal {
        let idle = Terminal { pending: Seq::empty(), ..self };
        if p.len() == 1 || (p.len() == 2 && p[1] == 0x5b) {
            Terminal { pending: p, ..self }
        } else if p[1] == 0x5d {
            if p.len() >= 4 && p[p.len() - 2] == ESC && p.last() == 0x5c {
                idle.ordered(p.subrange(2, p.len() - 2))
            } else {
                Terminal { pending: p, ..self }
            }
        } else if p.len() > 2 && p.last() >= 0x40 {
            idle.controlled(p.subrange(2, p.len() - 1), p.last())
        } else if p.len() > 2 {
            Terminal { pending: p, ..self }
        } else if p[1] == 0x48 {
            Terminal { tabs: self.tabs.insert(self.x), ..idle }
        } else {
            idle
        }
    }

    /// One more byte of a character.
    pub open spec fn typed(self, p: Seq<u8>) -> Terminal {
        let idle = Terminal { pending: Seq::empty(), ..self };
        if p == seq![0x0du8] {
            Terminal { x: 0, wrap: false, ..idle }
        } else if p == seq![0x0au8] {
            idle.fed_line()
        } else if p[0] < 0x20 || p[0] == 0x7f {
            idle
        } else if valid_first_scalar(p) {
            idle.printed(decode_first_scalar(p) as char)
        } else if p.len() < 4 {
            Terminal { pending: p, ..self }
        } else {
            idle
        }
    }

    /// The terminal after one byte.
    pub open spec fn stepped(self, b: u8) -> Terminal {
        let p = self.pending.push(b);
        if p[0] == ESC {
            self.escaped(p)
        } else {
            self.typed(p)
        }
    }

    /// The terminal after the bytes `s`.
    pub open spec fn fed(self, s: Seq<u8>) -> Terminal
        decreases s.len(),
    {
        if s.len() == 0 {
            self
        } else {
            self.fed(s.drop_last()).stepped(s.last())
        }
    }
}

/// A character that prints: not a control character.
pub open spec fn printable(c: char) -> bool {
    c as u32 >= 0x20 && !(0x7f <= c as u32 <= 0x9f)
}

/// Bytes that come in two parts do what they do at once.
pub proof fn lemma_fed_append(t: Terminal, a: Seq<u8>, b: Seq<u8>)
    ensures
        t.fed(a + b) == t.fed(a).fed(b),
    decreases b.len(),
{
    if b.len() == 0 {
        assert(a + b =~= a);
    } else {
        lemma_fed_append(t, a, b.drop_last());
        assert((a + b).drop_last() =~= a + b.drop_last());
    }
}

/// A single byte.
pub proof fn lemma_fed_byte(t: Terminal, b: u8)
    ensures
        t.fed(seq![b]) == t.stepped(b),
{
    let s = seq![b];
    assert(s.drop_last() =~= Seq::<u8>::empty());
    assert(t.fed(s.drop_last()) == t);
}

/// The parameter bytes of a sequence are kept until it is complete.
proof fn lemma_fed_params(t: Terminal, params: Seq<u8>)
    requires
        t.pending.len() == 0,
        forall|i: int| 0 <= i < params.len() ==> 0x20 <= #[trigger] params[i] <= 0x3f,
    ensures
        t.fed(seq![ESC, 0x5bu8] + params) == (Terminal {
            pending: seq![ESC, 0x5bu8] + params,
            ..t
        }),
    decreases params.len(),
{
    let intro = seq![ESC, 0x5bu8];
    let s = intro + params;
    if params.len() == 0 {
        assert(s =~= seq![ESC] + seq![0x5bu8]);
        lemma_fed_append(t, seq![ESC], seq![0x5bu8]);
        lemma_fed_byte(t, ESC);
        lemma_fed_byte(t.fed(seq![ESC]), 0x5b);
        assert(t.pending.push(ESC) =~= seq![ESC]);
        assert(seq![ESC].push(0x5b) =~= s);
    } else {
        lemma_fed_params(t, params.drop_last());
        assert(s.drop_last() =~= intro + params.drop_last());
        assert(s.drop_last().push(s.last()) =~= s);
        assert(s.last() == params[params.len() - 1]);
    }
}

/// A complete sequence has the effect of its final byte.
pub proof fn lemma_fed_sequence(t: Terminal, params: Seq<u8>, last: u8)
    requires
        t.pending.len() == 0,
        forall|i: int| 0 <= i < params.len() ==> 0x20 <= #[trigger] params[i] <= 0x3f,
        last >= 0x40,
    ensures
        t.fed(seq![ESC, 0x5bu8] + params + seq![last]) == t.controlled(params, last),
{
    let front = seq![ESC, 0x5bu8] + params;
    let s = front + seq![last];
    lemma_fed_params(t, params);
    lemma_fed_append(t, front, seq![last]);
    lemma_fed_byte(t.fed(front), last);
    assert(front.push(last) =~= s);
    assert(s.subrange(2, s.len() - 1) =~= params);
    assert(t.pending =~= Seq::empty());
    assert(Terminal { pending: Seq::empty(), ..t } == t);
}

/// The bytes of a command are kept until it is complete.
proof fn lemma_fed_payload(t: Terminal, payload: Seq<u8>)
    requires
        t.pending.len() == 0,
        forall|i: int| 0 <= i < payload.len() ==> #[trigger] payload[i] != ESC,
    ensures
        t.fed(seq![ESC, 0x5du8] + payload) == (Terminal {
            pending: seq![ESC, 0x5du8] + payload,
            ..t
        }),
    decreases payload.len(),
{
    let intro = seq![ESC, 0x5du8];
    let s = intro + payload;
    if payload.len() == 0 {
        assert(s =~= seq![ESC] + seq![0x5du8]);
        lemma_fed_append(t, seq![ESC], seq![0x5du8]);
        lemma_fed_byte(t, ESC);
        lemma_fed_byte(t.fed(seq![ESC]), 0x5d);
        assert(t.pending.push(ESC) =~= seq![ESC]);
        assert(seq![ESC].push(0x5d) =~= s);
    } else {
        lemma_fed_payload(t, payload.drop_last());
        assert(s.drop_last() =~= intro + payload.drop_last());
        assert(s.drop_last().push(s.last()) =~= s);
        if payload.len() >= 2 {
            assert(s[s.len() - 2] == payload[payload.len() - 2]);
        }
    }
}

/// A complete command has its effect.
pub proof fn lemma_fed_command(t: Terminal, payload: Seq<u8>)
    requires
        t.pending.len() == 0,
        forall|i: int| 0 <= i < payload.len() ==> #[trigger] payload[i] != ESC,
    ensures
        t.fed(seq![ESC, 0x5du8] + payload + seq![ESC, 0x5cu8]) == t.ordered(payload),
{
    let front = seq![ESC, 0x5du8] + payload;
    let s = front + seq![ESC] + seq![0x5cu8];
    lemma_fed_payload(t, payload);
    lemma_fed_append(t, front, seq![ESC]);
    lemma_fed_append(t, front + seq![ESC], seq![0x5cu8]);
    lemma_fed_byte(t.fed(front), ESC);
    lemma_fed_byte(t.fed(front + seq![ESC]), 0x5c);
    assert(front.push(ESC) =~= front + seq![ESC]);
    assert((front + seq![ESC]).push(0x5c) =~= s);
    assert(s.subrange(2, s.len() - 2) =~= payload);
    assert(s =~= front + seq![ESC, 0x5cu8]);
    assert(t.pending =~= Seq::empty());
    assert(Terminal { pending: Seq::empty(), ..t } == t);
}

/// The argument of a sequence with one number.
pub proof fn lemma_one_argument(n: nat)
    requires
        n > 0,
    ensures
        argument(digits(n), 0) == n,
        forall|i: int| 0 <= i < digits(n).len() ==> 0x30 <= #[trigger] digits(n)[i] <= 0x39,
        is_number(digits(n)),
        digits(n).len() > 0,
        digits(n)[0] != 0x3f,
{
    lemma_decimal_of_digits(n);
    assert(is_digit(digits(n)[0]));
    assert forall|i: int| 0 <= i < digits(n).len() implies 0x30 <= #[trigger] digits(n)[i]
        <= 0x39 by {
        assert(is_digit(digits(n)[i]));
    }
    lemma_split_one(digits(n), 0x3b);
}

/// The arguments of a sequence with two numbers.
pub proof fn lemma_two_arguments(n: nat, m: nat)
    requires
        n > 0,
        m > 0,
    ensures
        argument(digits(n) + seq![0x3bu8] + digits(m), 0) == n,
        argument(digits(n) + seq![0x3bu8] + digits(m), 1) == m,
        forall|i: int|
            0 <= i < (digits(n) + seq![0x3bu8] + digits(m)).len() ==> 0x30 <= #[trigger] (digits(n)
                + seq![0x3bu8] + digits(m))[i] <= 0x3b,
{
    lemma_one_argument(n);
    lemma_one_argument(m);
    lemma_decimal_of_digits(n);
    lemma_decimal_of_digits(m);
    lemma_split_two(digits(n), digits(m), 0x3b);
}

/// The bytes of a character, up to the last one, are kept.
proof fn lemma_fed_partial(t: Terminal, c: char, k: int)
    requires
        t.pending.len() == 0,
        printable(c),
        0 < k < encode_scalar(c as u32).len(),
    ensures
        t.fed(encode_scalar(c as u32).subrange(0, k)) == (Terminal {
            pending: encode_scalar(c as u32).subrange(0, k),
            ..t
        }),
    decreases k,
{
    let e = encode_scalar(c as u32);
    lemma_encoding(c);
    let s = e.subrange(0, k);
    assert(s[0] == e[0]);
    assert(s.drop_last() =~= e.subrange(0, k - 1));
    assert(s.last() == e[k - 1]);
    if k == 1 {
        assert(s =~= seq![e[0]]);
        lemma_fed_byte(t, e[0]);
        assert(t.pending.push(e[0]) =~= s);
    } else {
        lemma_fed_partial(t, c, k - 1);
        assert(e.subrange(0, k - 1).push(e[k - 1]) =~= s);
        assert(s != seq![0x0du8] && s != seq![0x0au8]);
    }
}

/// The encoding of a character that prints is one scalar, and does not look like a control.
pub proof fn lemma_encoding(c: char)
    requires
        printable(c),
    ensures
        ({
            let e = encode_scalar(c as u32);
            &&& 1 <= e.len() <= 4
            &&& valid_first_scalar(e)
            &&& length_of_first_scalar(e) == e.len()
            &&& decode_first_scalar(e) as char == c
            &&& e[0] >= 0x20
            &&& e[0] != 0x7f
        }),
{
    let e = encode_scalar(c as u32);
    let cs = seq![c];
    encode_utf8_first_scalar(cs);
    assert(cs.drop_first() =~= Seq::<char>::empty());
    assert(encode_utf8(cs.drop_first()) =~= Seq::<u8>::empty());
    assert(encode_utf8(cs) =~= e);
    char_u32_cast(c, decode_first_scalar(e));
    if e.len() == 1 {
        assert(e[0] == c as u32) by {
            assert(valid_first_scalar(e));
            let b = e[0];
            assert(codepoint_width_1(b) == b) by {
                lemma_ascii_bits(b);
            }
        }
    }
}

/// A byte below 0x80 is its own code point.
proof fn lemma_ascii_bits(b: u8)
    requires
        b < 0x80,
    ensures
        codepoint_width_1(b) == b,
{
    assert((b & 0x7f) == b) by (bit_vector)
        requires
            b < 0x80,
    ;
}

/// The encoding of a character prints it.
pub proof fn lemma_fed_char(t: Terminal, c: char)
    requires
        t.pending.len() == 0,
        printable(c),
    ensures
        t.fed(encode_utf8(seq![c])) == t.printed(c),
{
    let e = encode_scalar(c as u32);
    let cs = seq![c];
    assert(cs.drop_first() =~= Seq::<char>::empty());
    assert(encode_utf8(cs.drop_first()) =~= Seq::<u8>::empty());
    assert(encode_utf8(cs) =~= e);
    lemma_encoding(c);
    assert(Terminal { pending: Seq::empty(), ..t } == t) by {
        assert(t.pending =~= Seq::empty());
    }
    let front = e.drop_last();
    if e.len() == 1 {
        assert(e =~= seq![e[0]]);
        lemma_fed_byte(t, e[0]);
        assert(t.pending.push(e[0]) =~= e);
        assert(e != seq![0x0du8]);
        assert(e != seq![0x0au8]);
    } else {
        assert(front =~= e.subrange(0, e.len() - 1));
        lemma_fed_partial(t, c, e.len() - 1);
        assert(front.push(e.last()) =~= e);
        assert(front[0] == e[0]);
        assert(e != seq![0x0du8]);
        assert(e != seq![0x0au8]);
    }
}

} // verus!
