//! The input command channel: the records that carry keyboard and mouse
//! input from the viewer to the host, their byte layout, and what the host
//! does with each record.

use crate::wire::be_bytes;
use crate::wire::be_limit;
use crate::wire::be_value;
use crate::wire::lemma_be_bytes_len;
use crate::wire::lemma_be_bytes_of_value;
use crate::wire::lemma_be_value_bound;
use crate::wire::lemma_be_value_of_bytes;
use crate::wire::u16_from_bytes;
use crate::wire::u16_to_bytes;
use vstd::prelude::*;

verus! {

/// Opcode of a key release; one byte of key code follows.
pub const KEY_UP: u8 = 1;

/// Opcode of a key press; one byte of key code follows.
pub const KEY_DOWN: u8 = 2;

/// Opcode of a mouse button release; one byte of button id follows.
pub const MOUSE_KEY_UP: u8 = 3;

/// Opcode of a mouse button press; one byte of button id follows.
pub const MOUSE_KEY_DOWN: u8 = 4;

/// Opcode of one wheel step away from the user; nothing follows.
pub const MOUSE_WHEEL_UP: u8 = 5;

/// Opcode of one wheel step toward the user; nothing follows.
pub const MOUSE_WHEEL_DOWN: u8 = 6;

/// Opcode of an absolute pointer position; x and y follow, two bytes each.
pub const MOVE: u8 = 7;

/// Lines that one wheel step scrolls on the host.
pub const WHEEL_STEP: i32 = 2;

/// One record of the command channel.
#[derive(Clone, Copy, Debug, PartialEq, Eq, Structural)]
pub enum Command {
    KeyDown(u8),
    KeyUp(u8),
    MouseDown(u8),
    MouseUp(u8),
    WheelUp,
    WheelDown,
    /// Pointer position in pixels of the captured screen: x, then y.
    Move(u16, u16),
}

/// What the host's input backend is asked to do for one record.
#[derive(Clone, Copy, Debug, PartialEq, Eq, Structural)]
pub enum InjectorAction {
    Key { code: u8, down: bool },
    Button { code: u8, down: bool },
    Scroll(i32),
    MoveTo(i32, i32),
}

/// Number of payload bytes that follow `opcode`, or `None` for a byte that
/// is no opcode.
pub open spec fn payload_len_of(opcode: u8) -> Option<nat> {
    if opcode == KEY_UP || opcode == KEY_DOWN || opcode == MOUSE_KEY_UP || opcode
        == MOUSE_KEY_DOWN {
        Some(1)
    } else if opcode == MOUSE_WHEEL_UP || opcode == MOUSE_WHEEL_DOWN {
        Some(0)
    } else if opcode == MOVE {
        Some(4)
    } else {
        None
    }
}

/// The record that an opcode and its payload denote, if the opcode is known
/// and the payload has the opcode's length.
pub open spec fn parsed(opcode: u8, payload: Seq<u8>) -> Option<Command> {
    if payload_len_of(opcode) != Some(payload.len()) {
        None
    } else if opcode == KEY_UP {
        Some(Command::KeyUp(payload[0]))
    } else if opcode == KEY_DOWN {
        Some(Command::KeyDown(payload[0]))
    } else if opcode == MOUSE_KEY_UP {
        Some(Command::MouseUp(payload[0]))
    } else if opcode == MOUSE_KEY_DOWN {
        Some(Command::MouseDown(payload[0]))
    } else if opcode == MOUSE_WHEEL_UP {
        Some(Command::WheelUp)
    } else if opcode == MOUSE_WHEEL_DOWN {
        Some(Command::WheelDown)
    } else {
        Some(
            Command::Move(
                be_value(payload.subrange(0, 2)) as u16,
                be_value(payload.subrange(2, 4)) as u16,
            ),
        )
    }
}

impl Command {
    /// The byte that opens the record.
    pub open spec fn opcode(self) -> u8 {
        match self {
            Command::KeyDown(_) => KEY_DOWN,
            Command::KeyUp(_) => KEY_UP,
            Command::MouseDown(_) => MOUSE_KEY_DOWN,
            Command::MouseUp(_) => MOUSE_KEY_UP,
            Command::WheelUp => MOUSE_WHEEL_UP,
            Command::WheelDown => MOUSE_WHEEL_DOWN,
            Command::Move(_, _) => MOVE,
        }
    }

    /// The bytes that follow the opcode.
    pub open spec fn payload(self) -> Seq<u8> {
        match self {
            Command::KeyDown(code) => seq![code],
            Command::KeyUp(code) => seq![code],
            Command::MouseDown(code) => seq![code],
            Command::MouseUp(code) => seq![code],
            Command::WheelUp => Seq::empty(),
            Command::WheelDown => Seq::empty(),
            Command::Move(x, y) => be_bytes(x as nat, 2) + be_bytes(y as nat, 2),
        }
    }

    /// The whole record as it travels.
    pub open spec fn wire(self) -> Seq<u8> {
        seq![self.opcode()] + self.payload()
    }

    /// What the record asks of the host's input backend.
    pub open spec fn injected(self) -> InjectorAction {
        match self {
            Command::KeyDown(code) => InjectorAction::Key { code, down: true },
            Command::KeyUp(code) => InjectorAction::Key { code, down: false },
            Command::MouseDown(code) => InjectorAction::Button { code, down: true },
            Command::MouseUp(code) => InjectorAction::Button { code, down: false },
            Command::WheelUp => InjectorAction::Scroll((0 - WHEEL_STEP) as i32),
            Command::WheelDown => InjectorAction::Scroll(WHEEL_STEP),
            Command::Move(x, y) => InjectorAction::MoveTo(x as i32, y as i32),
        }
    }

    /// Writes the record.
    pub fn encode(&self) -> (out: Vec<u8>)
        ensures
            out@ == self.wire(),
    {
        let mut out: Vec<u8> = Vec::new();
        match *self {
            Command::KeyDown(code) => {
                out.push(KEY_DOWN);
                out.push(code);
            },
            Command::KeyUp(code) => {
                out.push(KEY_UP);
                out.push(code);
            },
            Command::MouseDown(code) => {
                out.push(MOUSE_KEY_DOWN);
                out.push(code);
            },
            Command::MouseUp(code) => {
                out.push(MOUSE_KEY_UP);
                out.push(code);
            },
            Command::WheelUp => {
                out.push(MOUSE_WHEEL_UP);
            },
            Command::WheelDown => {
                out.push(MOUSE_WHEEL_DOWN);
            },
            Command::Move(x, y) => {
                let xs: [u8; 2] = u16_to_bytes(x);
                let ys: [u8; 2] = u16_to_bytes(y);
                out.push(MOVE);
                out.push(xs[0]);
                out.push(xs[1]);
                out.push(ys[0]);
                out.push(ys[1]);
            },
        }
        proof {
            assert(out@ =~= self.wire());
        }
        out
    }

    /// Reads the record that `opcode` and `payload` denote. The payload is
    /// what followed the opcode on the wire, `payload_len(opcode)` bytes of it.
    pub fn decode(opcode: u8, payload: &[u8]) -> (out: Option<Command>)
        ensures
            out == parsed(opcode, payload@),
    {
        match payload_len(opcode) {
            None => None,
            Some(expected) => {
                if payload.len() != expected {
                    None
                } else if opcode == KEY_UP {
                    Some(Command::KeyUp(payload[0]))
                } else if opcode == KEY_DOWN {
                    Some(Command::KeyDown(payload[0]))
                } else if opcode == MOUSE_KEY_UP {
                    Some(Command::MouseUp(payload[0]))
                } else if opcode == MOUSE_KEY_DOWN {
                    Some(Command::MouseDown(payload[0]))
                } else if opcode == MOUSE_WHEEL_UP {
                    Some(Command::WheelUp)
                } else if opcode == MOUSE_WHEEL_DOWN {
                    Some(Command::WheelDown)
                } else {
                    let x: u16 = u16_from_bytes(payload[0], payload[1]);
                    let y: u16 = u16_from_bytes(payload[2], payload[3]);
                    proof {
                        assert(payload@.subrange(0, 2) =~= seq![payload[0], payload[1]]);
                        assert(payload@.subrange(2, 4) =~= seq![payload[2], payload[3]]);
                    }
                    Some(Command::Move(x, y))
                }
            },
        }
    }

    /// Tells the host's input backend what to do for this record.
    pub fn action(&self) -> (act: InjectorAction)
        ensures
            act == self.injected(),
    {
        match *self {
            Command::KeyDown(code) => InjectorAction::Key { code, down: true },
            Command::KeyUp(code) => InjectorAction::Key { code, down: false },
            Command::MouseDown(code) => InjectorAction::Button { code, down: true },
            Command::MouseUp(code) => InjectorAction::Button { code, down: false },
            Command::WheelUp => InjectorAction::Scroll(-WHEEL_STEP),
            Command::WheelDown => InjectorAction::Scroll(WHEEL_STEP),
            Command::Move(x, y) => InjectorAction::MoveTo(x as i32, y as i32),
        }
    }
}

/// Tells how many payload bytes to read after `opcode`. `None` means that
/// the byte is no opcode: the stream is out of step and the session ends.
pub fn payload_len(opcode: u8) -> (len: Option<usize>)
    ensures
        len is Some <==> KEY_UP <= opcode <= MOVE,
        match len {
            Some(n) => payload_len_of(opcode) == Some(n as nat),
            None => payload_len_of(opcode) is None,
        },
{
    if opcode == KEY_UP || opcode == KEY_DOWN || opcode == MOUSE_KEY_UP || opcode
        == MOUSE_KEY_DOWN {
        Some(1)
    } else if opcode == MOUSE_WHEEL_UP || opcode == MOUSE_WHEEL_DOWN {
        Some(0)
    } else if opcode == MOVE {
        Some(4)
    } else {
        None
    }
}

/// Every record reads back as itself, and its opcode announces its payload's length.
pub proof fn lemma_command_round_trip(command: Command)
    ensures
        payload_len_of(command.opcode()) == Some(command.payload().len()),
        parsed(command.opcode(), command.payload()) == Some(command),
        command.wire().len() == 1 + command.payload().len(),
{
    if let Command::Move(x, y) = command {
        let xs: Seq<u8> = be_bytes(x as nat, 2);
        let ys: Seq<u8> = be_bytes(y as nat, 2);
        lemma_be_bytes_len(x as nat, 2);
        lemma_be_bytes_len(y as nat, 2);
        assert(command.payload().subrange(0, 2) =~= xs);
        assert(command.payload().subrange(2, 4) =~= ys);
        reveal_with_fuel(be_limit, 3);
        lemma_be_value_of_bytes(x as nat, 2);
        lemma_be_value_of_bytes(y as nat, 2);
    }
}

/// An opcode and payload denote a record only if they are that record's own
/// bytes: no two byte strings stand for the same record.
pub proof fn lemma_parsed_is_wire(opcode: u8, payload: Seq<u8>)
    ensures
        parsed(opcode, payload) matches Some(command) ==> command.opcode() == opcode
            && command.payload() == payload,
{
    if let Some(command) = parsed(opcode, payload) {
        match command {
            Command::Move(x, y) => {
                let xs: Seq<u8> = payload.subrange(0, 2);
                let ys: Seq<u8> = payload.subrange(2, 4);
                lemma_be_bytes_of_value(xs);
                lemma_be_bytes_of_value(ys);
                lemma_be_value_bound(xs);
                lemma_be_value_bound(ys);
                reveal_with_fuel(be_limit, 3);
                assert(xs + ys =~= payload);
            },
            Command::WheelUp => {
                assert(payload =~= Seq::<u8>::empty());
            },
            Command::WheelDown => {
                assert(payload =~= Seq::<u8>::empty());
            },
            _ => {
                assert(payload =~= seq![payload[0]]);
            },
        }
    }
}

/// A pointer coordinate on the captured screen: the local coordinate scaled
/// by capture size over surface size, rounded down, and held within 16 bits.
pub open spec fn scaled(capture: u16, local: i32, surface: i32) -> int {
    let raw: int = (capture as int * local as int) / (surface as int);
    if raw < 0 {
        0
    } else if raw > 65535 {
        65535
    } else {
        raw
    }
}

/// Maps a coordinate of the local display surface to one of the
/// captured screen. A coordinate inside the surface lands inside the capture.
pub fn scale_coordinate(capture: u16, local: i32, surface: i32) -> (remote: u16)
    requires
        surface > 0,
    ensures
        remote == scaled(capture, local, surface),
        0 <= local < surface ==> remote < capture || capture == 0,
{
    if local <= 0 {
        proof {
            let c: int = capture as int;
            let l: int = local as int;
            let s: int = surface as int;
            assert((c * l) / s <= 0) by (nonlinear_arith)
                requires
                    c >= 0,
                    l <= 0,
                    s > 0,
            ;
        }
        return 0;
    }
    let c: i64 = capture as i64;
    let l: i64 = local as i64;
    let s: i64 = surface as i64;
    assert(0 <= c * l <= 65535 * 0x7fff_ffff) by (nonlinear_arith)
        requires
            0 <= c <= 65535,
            0 < l <= 0x7fff_ffff,
    ;
    let raw: i64 = (c * l) / s;
    proof {
        let ci: int = c as int;
        let li: int = l as int;
        let si: int = s as int;
        assert((ci * li) / si >= 0) by (nonlinear_arith)
            requires
                ci * li >= 0,
                si > 0,
        ;
        if li < si {
            assert((ci * li) / si < ci || ci == 0) by (nonlinear_arith)
                requires
                    ci >= 0,
                    0 <= li < si,
            ;
        }
    }
    if raw > 65535 {
        65535
    } else {
        raw as u16
    }
}

/// A coordinate inside the surface lands inside the capture.
pub proof fn lemma_scaled_in_capture(capture: u16, local: i32, surface: i32)
    requires
        capture > 0,
        0 <= local < surface,
    ensures
        0 <= scaled(capture, local, surface) < capture,
{
    let c: int = capture as int;
    let l: int = local as int;
    let s: int = surface as int;
    assert(0 <= (c * l) / s < c) by (nonlinear_arith)
        requires
            c > 0,
            0 <= l < s,
    ;
}

} // verus!
