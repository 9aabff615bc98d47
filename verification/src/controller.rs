//! A game controller as a way in.
//!
//! Xbox layout, by the kernel's own codes: the `xpad` driver reports A as
//! `BTN_SOUTH`, B as `BTN_EAST`, X as `BTN_NORTH` and Y as `BTN_WEST`. The
//! D-pad comes as buttons from some pads and as an axis from others.

use vstd::prelude::*;
use crate::text::same;

verus! {

/// How often, in seconds, the input directory is looked at again for a pad
/// plugged in later.
pub const RESCAN_SECS: u64 = 3;

/// The kernel's codes for the buttons the IDE answers to.
pub const BTN_SOUTH: u16 = 0x130;

pub const BTN_EAST: u16 = 0x131;

pub const BTN_NORTH: u16 = 0x133;

pub const BTN_WEST: u16 = 0x134;

pub const BTN_TL: u16 = 0x136;

pub const BTN_TR: u16 = 0x137;

pub const BTN_START: u16 = 0x13b;

pub const BTN_MODE: u16 = 0x13c;

pub const BTN_DPAD_UP: u16 = 0x220;

pub const BTN_DPAD_DOWN: u16 = 0x221;

/// The kernel's code for a stick's horizontal axis.
pub const ABS_X: u16 = 0x00;

/// The kernel's code for the D-pad's vertical axis.
pub const ABS_HAT0Y: u16 = 0x11;

/// The buttons the IDE answers to.
#[derive(Debug, Clone, Copy, PartialEq, Eq, Structural)]
pub enum ControllerButton {
    A,
    B,
    X,
    Y,
    LeftShoulder,
    RightShoulder,
    Start,
    Guide,
    Up,
    Down,
}

/// A button going down or coming up.
#[derive(Debug, Clone, Copy, PartialEq, Eq, Structural)]
pub struct Press {
    pub button: ControllerButton,
    pub pressed: bool,
}

/// The button a key code stands for.
pub open spec fn button_of(code: u16) -> Option<ControllerButton> {
    if code == BTN_SOUTH {
        Some(ControllerButton::A)
    } else if code == BTN_EAST {
        Some(ControllerButton::B)
    } else if code == BTN_NORTH {
        Some(ControllerButton::X)
    } else if code == BTN_WEST {
        Some(ControllerButton::Y)
    } else if code == BTN_TL {
        Some(ControllerButton::LeftShoulder)
    } else if code == BTN_TR {
        Some(ControllerButton::RightShoulder)
    } else if code == BTN_START {
        Some(ControllerButton::Start)
    } else if code == BTN_MODE {
        Some(ControllerButton::Guide)
    } else if code == BTN_DPAD_UP {
        Some(ControllerButton::Up)
    } else if code == BTN_DPAD_DOWN {
        Some(ControllerButton::Down)
    } else {
        None
    }
}

fn holds(codes: &Vec<u16>, code: u16) -> (r: bool)
    ensures
        r == codes@.contains(code),
{
    let mut i: usize = 0;
    while i < codes.len()
        invariant
            i <= codes@.len(),
            forall|j: int| 0 <= j < i ==> codes@[j] != code,
        decreases codes@.len() - i,
    {
        if codes[i] == code {
            assert(codes@[i as int] == code);
            return true;
        }
        i += 1;
    }
    false
}

/// A pad, not a keyboard or a mouse: it has the face buttons and a stick. A
/// device that reports no keys or no axes at all has neither.
pub fn is_gamepad(keys: Option<&Vec<u16>>, axes: Option<&Vec<u16>>) -> (r: bool)
    ensures
        reports_a_pad(keys, axes, r),
{
    match (keys, axes) {
        (Some(keys), Some(axes)) => holds(keys, BTN_SOUTH) && holds(keys, BTN_EAST) && holds(
            axes,
            ABS_X,
        ),
        _ => false,
    }
}

/// What makes a device a pad.
pub open spec fn reports_a_pad(keys: Option<&Vec<u16>>, axes: Option<&Vec<u16>>, r: bool) -> bool {
    &&& r == (keys matches Some(keys) && axes matches Some(axes) && keys@.contains(BTN_SOUTH)
        && keys@.contains(BTN_EAST) && axes@.contains(ABS_X))
}

/// The button a key code stands for; anything else on the pad is not ours yet.
pub fn button(code: u16) -> (out: Option<ControllerButton>)
    ensures
        out == button_of(code),
{
    match code {
        BTN_SOUTH => Some(ControllerButton::A),
        BTN_EAST => Some(ControllerButton::B),
        BTN_NORTH => Some(ControllerButton::X),
        BTN_WEST => Some(ControllerButton::Y),
        BTN_TL => Some(ControllerButton::LeftShoulder),
        BTN_TR => Some(ControllerButton::RightShoulder),
        BTN_START => Some(ControllerButton::Start),
        BTN_MODE => Some(ControllerButton::Guide),
        BTN_DPAD_UP => Some(ControllerButton::Up),
        BTN_DPAD_DOWN => Some(ControllerButton::Down),
        _ => None,
    }
}

/// What a device reports.
#[derive(Debug, Clone, Copy, PartialEq, Eq, Structural)]
pub enum PadEvent {
    /// A key: 1 is down, 0 up, 2 the kernel's key repeat.
    Key { code: u16, value: i32 },
    Axis { code: u16, value: i32 },
    Other,
}

/// Which way the D-pad's axis points.
pub open spec fn hat_of(value: i32) -> Option<ControllerButton> {
    if value < 0 {
        Some(ControllerButton::Up)
    } else if value > 0 {
        Some(ControllerButton::Down)
    } else {
        None
    }
}

/// What the axis moving from one way to another comes to: whichever was down
/// comes up, and then the other goes down.
pub open spec fn hat_moves(
    was: Option<ControllerButton>,
    now: Option<ControllerButton>,
) -> Seq<Press> {
    if was == now {
        Seq::empty()
    } else {
        let up = match was {
            Some(button) => seq![Press { button, pressed: false }],
            None => Seq::empty(),
        };
        let down = match now {
            Some(button) => seq![Press { button, pressed: true }],
            None => Seq::empty(),
        };
        up + down
    }
}

/// What a key comes to: a held button does not become a second press.
pub open spec fn key_press(code: u16, value: i32) -> Seq<Press> {
    match button_of(code) {
        Some(button) => if value == 1 {
            seq![Press { button, pressed: true }]
        } else if value == 0 {
            seq![Press { button, pressed: false }]
        } else {
            Seq::empty()
        },
        None => Seq::empty(),
    }
}

/// A pad being read: which way its D-pad's axis points.
#[derive(Debug, Clone, Copy, PartialEq, Eq, Structural)]
pub struct Pad {
    pub hat: Option<ControllerButton>,
}

impl Pad {
    /// A pad just opened, with its D-pad at rest.
    pub fn new() -> (out: Self)
        ensures
            out.hat is None,
    {
        Pad { hat: None }
    }

    /// Read one event: what to tell the window, in order.
    pub fn read(&mut self, event: PadEvent) -> (out: Vec<Press>)
        ensures
            reads(*old(self), *final(self), event, out@),
    {
        let mut out: Vec<Press> = Vec::new();
        match event {
            PadEvent::Key { code, value } => {
                if let Some(button) = button(code) {
                    if value == 1 {
                        out.push(Press { button, pressed: true });
                    } else if value == 0 {
                        out.push(Press { button, pressed: false });
                    }
                }
                assert(out@ =~= key_press(code, value));
            },
            PadEvent::Axis { code, value } => {
                if code == ABS_HAT0Y {
                    let now = if value < 0 {
                        Some(ControllerButton::Up)
                    } else if value > 0 {
                        Some(ControllerButton::Down)
                    } else {
                        None
                    };
                    let unchanged = match (now, self.hat) {
                        (Some(a), Some(b)) => a == b,
                        (None, None) => true,
                        _ => false,
                    };
                    if !unchanged {
                        if let Some(released) = self.hat {
                            out.push(Press { button: released, pressed: false });
                        }
                        if let Some(pressed) = now {
                            out.push(Press { button: pressed, pressed: true });
                        }
                        self.hat = now;
                    }
                    assert(out@ =~= hat_moves(old(self).hat, hat_of(value)));
                }
            },
            PadEvent::Other => {},
        }
        out
    }
}

/// Reading one event of a pad.
pub open spec fn reads(before: Pad, after: Pad, event: PadEvent, out: Seq<Press>) -> bool {
    &&& match event {
        PadEvent::Key { code, value } => out == key_press(code, value) && after
            == before,
        PadEvent::Axis { code, value } => if code == ABS_HAT0Y {
            out == hat_moves(before.hat, hat_of(value)) && after.hat == hat_of(
                value,
            )
        } else {
            out.len() == 0 && after == before
        },
        PadEvent::Other => out.len() == 0 && after == before,
    }
}

/// A scan of the devices is over.
pub open spec fn scan_ends(before: Pads, after: Pads, seen_any: bool, say: bool) -> bool {
    &&& say == (!seen_any && !before.said_none)
    &&& after.said_none == (before.said_none || !seen_any)
    &&& after.open == before.open
}

/// A device was seen.
pub open spec fn sees(before: Pads, after: Pads, path: Seq<char>, gamepad: bool, opened: bool) -> bool {
    &&& opened == (gamepad && !before.has(path))
    &&& after.said_none == before.said_none
    &&& !opened ==> after == before
    &&& opened ==> forall|p: Seq<char>|
        #[trigger] after.has(p) <==> before.has(p) || p == path
}

/// Presses in which no button goes down while another is, and only what is
/// down comes up.
pub open spec fn one_at_a_time(presses: Seq<Press>, down: Option<ControllerButton>) -> bool
    decreases presses.len(),
{
    if presses.len() == 0 {
        true
    } else {
        let rest = presses.subrange(1, presses.len() as int);
        if presses[0].pressed {
            down is None && one_at_a_time(rest, Some(presses[0].button))
        } else {
            down == Some(presses[0].button) && one_at_a_time(rest, None)
        }
    }
}

/// All that the D-pad's axis comes to over its values.
pub open spec fn hat_run(hat: Option<ControllerButton>, values: Seq<i32>) -> Seq<Press>
    decreases values.len(),
{
    if values.len() == 0 {
        Seq::empty()
    } else {
        hat_moves(hat, hat_of(values[0])) + hat_run(
            hat_of(values[0]),
            values.subrange(1, values.len() as int),
        )
    }
}

/// Whatever the axis does, the window sees a D-pad on which one way is down at
/// a time: a release before every new press, and no press or release twice.
pub proof fn the_hat_holds_one_way_at_a_time(hat: Option<ControllerButton>, values: Seq<i32>)
    ensures
        one_at_a_time(hat_run(hat, values), hat),
    decreases values.len(),
{
    if values.len() > 0 {
        let now = hat_of(values[0]);
        let rest = hat_run(now, values.subrange(1, values.len() as int));
        the_hat_holds_one_way_at_a_time(now, values.subrange(1, values.len() as int));
        let moves = hat_moves(hat, now);
        let all = moves + rest;
        if moves.len() == 0 {
            assert(all =~= rest);
        } else if moves.len() == 1 {
            assert(all.subrange(1, all.len() as int) =~= rest);
        } else {
            let tail = all.subrange(1, all.len() as int);
            assert(tail.subrange(1, tail.len() as int) =~= rest);
            assert(tail[0] == moves[1]);
            assert(one_at_a_time(tail, None));
            assert(all[0] == moves[0]);
        }
    }
}

/// Holding a button, however long the kernel repeats it, says nothing more.
pub proof fn a_held_button_is_one_press(code: u16, value: i32)
    requires
        value != 0,
        value != 1,
    ensures
        key_press(code, value).len() == 0,
{
}

/// The pads that are open, by their device paths.
#[derive(Debug, PartialEq, Eq)]
pub struct Pads {
    pub open: Vec<String>,
    /// It has been said, once, that no device is readable.
    pub said_none: bool,
}

impl Pads {
    /// Whether a pad is open.
    pub open spec fn has(&self, path: Seq<char>) -> bool {
        exists|i: int| 0 <= i < self.open@.len() && #[trigger] self.open@[i]@ == path
    }

    /// No pad is open twice.
    pub open spec fn wf(&self) -> bool {
        forall|i: int, j: int|
            0 <= i < j < self.open@.len() ==> (#[trigger] self.open@[i])@ != (
            #[trigger] self.open@[j])@
    }

    pub fn new() -> (out: Self)
        ensures
            out.wf(),
            out.open@.len() == 0,
            !out.said_none,
    {
        Pads { open: Vec::new(), said_none: false }
    }

    fn find(&self, path: &str) -> (out: Option<usize>)
        ensures
            match out {
                Some(i) => i < self.open@.len() && self.open@[i as int]@ == path@,
                None => !self.has(path@),
            },
    {
        let mut i: usize = 0;
        while i < self.open.len()
            invariant
                i <= self.open@.len(),
                forall|j: int| 0 <= j < i ==> (#[trigger] self.open@[j])@ != path@,
            decreases self.open@.len() - i,
        {
            if same(self.open[i].as_str(), path) {
                return Some(i);
            }
            i += 1;
        }
        None
    }

    /// A reader has ended: its pad may be opened again.
    pub fn closed(&mut self, path: &str)
        requires
            old(self).wf(),
        ensures
            final(self).wf(),
            final(self).said_none == old(self).said_none,
            forall|p: Seq<char>|
                #[trigger] final(self).has(p) <==> old(self).has(p) && p != path@,
    {
        if let Some(i) = self.find(path) {
            let ghost before = self.open@;
            self.open.remove(i);
            assert forall|p: Seq<char>| #[trigger] self.has(p) <==> old(self).has(p) && p
                != path@ by {
                if self.has(p) {
                    let j = choose|j: int|
                        0 <= j < self.open@.len() && #[trigger] self.open@[j]@ == p;
                    if j < i {
                        assert(before[j]@ == p);
                    } else {
                        assert(before[j + 1]@ == p);
                    }
                }
                if old(self).has(p) && p != path@ {
                    let j = choose|j: int| 0 <= j < before.len() && #[trigger] before[j]@ == p;
                    if j < i {
                        assert(self.open@[j]@ == p);
                    } else {
                        assert(self.open@[j - 1]@ == p);
                    }
                }
            }
        }
    }

    /// A device was seen. `true` means it is a pad not open yet: open it.
    pub fn seen(&mut self, path: &str, gamepad: bool) -> (opened: bool)
        requires
            old(self).wf(),
        ensures
            final(self).wf(),
            sees(*old(self), *final(self), path@, gamepad, opened),
    {
        if !gamepad {
            return false;
        }
        if let Some(i) = self.find(path) {
            assert(self.has(path@)) by {
                assert(self.open@[i as int]@ == path@);
            }
            return false;
        }
        let ghost before = self.open@;
        self.open.push(path.to_owned());
        assert forall|p: Seq<char>| #[trigger] self.has(p) <==> old(self).has(p) || p
            == path@ by {
            if old(self).has(p) {
                let j = choose|j: int| 0 <= j < before.len() && #[trigger] before[j]@ == p;
                assert(self.open@[j]@ == p);
            }
            if p == path@ {
                assert(self.open@[before.len() as int]@ == p);
            }
            if self.has(p) {
                let j = choose|j: int| 0 <= j < self.open@.len() && #[trigger] self.open@[j]@ == p;
                if j < before.len() {
                    assert(before[j]@ == p);
                }
            }
        }
        assert forall|i: int, j: int| 0 <= i < j < self.open@.len() implies (
        #[trigger] self.open@[i])@ != (#[trigger] self.open@[j])@ by {
            if j == before.len() {
                assert(before[i] == self.open@[i]);
            }
        }
        true
    }

    /// A scan is over. `true`, at most once, means to say that nothing is
    /// readable from here.
    pub fn scanned(&mut self, seen_any: bool) -> (say: bool)
        ensures
            scan_ends(*old(self), *final(self), seen_any, say),
    {
        if !seen_any && !self.said_none {
            self.said_none = true;
            return true;
        }
        false
    }
}

/// Every code stands for one button and every button for one code, by the
/// layout of an Xbox pad.
pub proof fn buttons_are_where_the_pad_has_them(code: u16)
    ensures
        button_of(code) == Some(ControllerButton::A) <==> code == 0x130,
        button_of(code) == Some(ControllerButton::B) <==> code == 0x131,
        button_of(code) == Some(ControllerButton::X) <==> code == 0x133,
        button_of(code) == Some(ControllerButton::Y) <==> code == 0x134,
        button_of(code) == Some(ControllerButton::LeftShoulder) <==> code == 0x136,
        button_of(code) == Some(ControllerButton::RightShoulder) <==> code == 0x137,
        button_of(code) == Some(ControllerButton::Start) <==> code == 0x13b,
        button_of(code) == Some(ControllerButton::Guide) <==> code == 0x13c,
        button_of(code) == Some(ControllerButton::Up) <==> code == 0x220,
        button_of(code) == Some(ControllerButton::Down) <==> code == 0x221,
{
}

/// A key going down is a press of its button and coming up its release, and
/// neither moves the D-pad's axis; the axis upward presses Up and downward Down,
/// and at rest it leaves nothing pressed.
pub proof fn a_press_is_the_button_that_moved(
    before: Pad,
    after: Pad,
    event: PadEvent,
    out: Seq<Press>,
)
    requires
        reads(before, after, event, out),
    ensures
        event matches PadEvent::Key { code, value } ==> {
            &&& after.hat == before.hat
            &&& out.len() <= 1
            &&& value == 1 ==> (button_of(code) matches Some(button) ==> out.len() == 1
                && out[0].button == button && out[0].pressed)
            &&& value == 0 ==> (button_of(code) matches Some(button) ==> out.len() == 1
                && out[0].button == button && !out[0].pressed)
            &&& button_of(code) is None ==> out.len() == 0
        },
        event matches PadEvent::Axis { code, value } ==> {
            &&& code == 0x11 && value < 0 ==> after.hat == Some(ControllerButton::Up)
            &&& code == 0x11 && value > 0 ==> after.hat == Some(ControllerButton::Down)
            &&& code == 0x11 && value == 0 ==> after.hat is None
            &&& code != 0x11 ==> after.hat == before.hat && out.len() == 0
            &&& code == 0x11 && before.hat != after.hat ==> {
                &&& before.hat matches Some(was) ==> out.len() > 0 && out[0] == (Press {
                    button: was,
                    pressed: false,
                })
                &&& after.hat matches Some(now) ==> out.len() > 0 && out.last() == (Press {
                    button: now,
                    pressed: true,
                })
            }
            &&& before.hat == after.hat ==> out.len() == 0
        },
        event is Other ==> out.len() == 0 && after == before,
{
}

/// A device is a pad where it has both face buttons and a stick, and nothing
/// short of that is.
pub proof fn a_pad_has_buttons_and_a_stick(
    keys: Option<&Vec<u16>>,
    axes: Option<&Vec<u16>>,
    r: bool,
)
    requires
        reports_a_pad(keys, axes, r),
    ensures
        keys is None || axes is None ==> !r,
        keys matches Some(k) ==> (!k@.contains(0x130u16) || !k@.contains(0x131u16) ==> !r),
        axes matches Some(a) ==> (!a@.contains(0x00u16) ==> !r),
        keys matches Some(k) ==> (axes matches Some(a) ==> (k@.contains(0x130u16) && k@.contains(
            0x131u16,
        ) && a@.contains(0x00u16) ==> r)),
{
}

/// That nothing is readable is said once, when a scan saw no pad.
pub proof fn nothing_readable_is_said_once(
    before: Pads,
    between: Pads,
    after: Pads,
    seen: bool,
    seen_again: bool,
    say: bool,
    say_again: bool,
)
    requires
        scan_ends(before, between, seen, say),
        scan_ends(between, after, seen_again, say_again),
    ensures
        seen ==> !say,
        !seen && !before.said_none ==> say,
        !(say && say_again),
        after.open == before.open,
{
}

/// A pad is opened when it is first seen, and not again while it is open; no
/// other device ever is.
pub proof fn a_pad_is_opened_once(
    before: Pads,
    after: Pads,
    path: Seq<char>,
    gamepad: bool,
    opened: bool,
    other: Seq<char>,
)
    requires
        sees(before, after, path, gamepad, opened),
    ensures
        opened <==> gamepad && !before.has(path),
        gamepad ==> after.has(path),
        !gamepad ==> after == before,
        other != path ==> after.has(other) == before.has(other),
{
}

} // verus!
