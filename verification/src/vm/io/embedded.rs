//! The devices that the machine comes with: a screen of 32 by 32 pixels, a
//! display of ten characters, a number display, a random number generator
//! and a controller.

use super::{Port, IO};
use crate::text::push_char;
use crate::utils::{decimal, push_decimal, Char};
use rand::rngs::SmallRng;
use rand::{Rng, SeedableRng};
use std::convert::Infallible;
use vstd::prelude::*;

verus! {

/// Whether bit number `x` of `row` is set.
pub open spec fn lit(row: u32, x: int) -> bool {
    row & (1u32 << (x as u32)) != 0
}

/// `row` with bit number `x` set or cleared.
pub open spec fn with_bit(row: u32, x: int, on: bool) -> u32 {
    if on {
        row | (1u32 << (x as u32))
    } else {
        row & !(1u32 << (x as u32))
    }
}

/// Setting or clearing a bit of a row changes that bit and no other.
pub proof fn lemma_with_bit(row: u32, x: int, on: bool, other: int)
    requires
        0 <= x < 32,
        0 <= other < 32,
    ensures
        lit(with_bit(row, x, on), other) == if other == x {
            on
        } else {
            lit(row, other)
        },
{
    let a = x as u32;
    let b = other as u32;
    assert(a < 32 && b < 32 ==> ((row | (1u32 << a)) & (1u32 << b) != 0) == (a == b || row & (1u32
        << b) != 0)) by (bit_vector);
    assert(a < 32 && b < 32 ==> ((row & !(1u32 << a)) & (1u32 << b) != 0) == (a != b && row & (1u32
        << b) != 0)) by (bit_vector);
}

fn low_five(value: u8) -> (low: u8)
    ensures
        low == value % 32,
{
    assert(value & 0b11111 == value % 32) by (bit_vector);
    value & 0b11111
}

/// The screen: the plane that the program draws on, the plane that is
/// shown, and the position that the program has chosen.
#[derive(Debug)]
pub struct Screen {
    pub x: u8,
    pub y: u8,
    pub buffer: [u32; 32],
    pub output: [u32; 32],
}

/// A plane of 32 rows, with the pixel at (`x` mod 32, `y` mod 32) set to
/// `on`.
pub open spec fn plane_with(plane: Seq<u32>, x: u8, y: u8, on: bool) -> Seq<u32> {
    plane.update(y as int % 32, with_bit(plane[y as int % 32], x as int % 32, on))
}

/// The pixel at (`x` mod 32, `y` mod 32) of a plane.
pub open spec fn plane_pixel(plane: Seq<u32>, x: u8, y: u8) -> bool {
    lit(plane[y as int % 32], x as int % 32)
}

/// A plane with every pixel off.
pub open spec fn empty_plane() -> Seq<u32> {
    Seq::new(32, |i: int| 0u32)
}

/// A pixel that is drawn or cleared reads as that, and every other pixel
/// reads as before.
pub proof fn lemma_plane_with(plane: Seq<u32>, x: u8, y: u8, on: bool, other_x: u8, other_y: u8)
    requires
        plane.len() == 32,
    ensures
        plane_pixel(plane_with(plane, x, y, on), other_x, other_y) == if other_x % 32 == x % 32
            && other_y % 32 == y % 32 {
            on
        } else {
            plane_pixel(plane, other_x, other_y)
        },
{
    lemma_with_bit(plane[y as int % 32], x as int % 32, on, other_x as int % 32);
}

impl Clone for Screen {
    fn clone(&self) -> (copy: Screen)
        ensures
            copy == *self,
    {
        Screen { x: self.x, y: self.y, buffer: self.buffer, output: self.output }
    }
}

impl Default for Screen {
    fn default() -> (screen: Screen)
        ensures
            screen.x == 0,
            screen.y == 0,
            screen.buffer@ == empty_plane(),
            screen.output@ == empty_plane(),
    {
        Screen { x: 0, y: 0, buffer: [0u32;32], output: [0u32;32] }
    }
}

impl Screen {
    /// The pixel of the plane that is shown.
    pub fn get_pixel(&self, x: u8, y: u8) -> (on: bool)
        ensures
            on == plane_pixel(self.output@, x, y),
    {
        let x = low_five(x);
        let y = low_five(y);
        self.output[y as usize] & (1u32 << x) != 0
    }

    /// Sets or clears a pixel of the plane that is shown.
    pub fn set_pixel(&mut self, x: u8, y: u8, val: bool)
        ensures
            final(self).output@ == plane_with(old(self).output@, x, y, val),
            final(self).buffer == old(self).buffer,
            final(self).x == old(self).x,
            final(self).y == old(self).y,
    {
        let x = low_five(x);
        let y = low_five(y);
        let row = self.output[y as usize];
        if val {
            self.output[y as usize] = row | (1u32 << x);
        } else {
            self.output[y as usize] = row & !(1u32 << x);
        }
    }

    /// The pixel of the plane that the program draws on.
    pub fn get_buffer_pixel(&self, x: u8, y: u8) -> (on: bool)
        ensures
            on == plane_pixel(self.buffer@, x, y),
    {
        let x = low_five(x);
        let y = low_five(y);
        self.buffer[y as usize] & (1u32 << x) != 0
    }

    /// Sets or clears a pixel of the plane that the program draws on.
    pub fn set_buffer_pixel(&mut self, x: u8, y: u8, val: bool)
        ensures
            final(self).buffer@ == plane_with(old(self).buffer@, x, y, val),
            final(self).output == old(self).output,
            final(self).x == old(self).x,
            final(self).y == old(self).y,
    {
        let x = low_five(x);
        let y = low_five(y);
        let row = self.buffer[y as usize];
        if val {
            self.buffer[y as usize] = row | (1u32 << x);
        } else {
            self.buffer[y as usize] = row & !(1u32 << x);
        }
    }

    /// Shows what was drawn.
    pub fn show_buffer(&mut self)
        ensures
            final(self).output == old(self).buffer,
            final(self).buffer == old(self).buffer,
            final(self).x == old(self).x,
            final(self).y == old(self).y,
    {
        self.output = self.buffer;
    }

    /// Turns every pixel of the plane that the program draws on off.
    pub fn clear_buffer(&mut self)
        ensures
            final(self).buffer@ == empty_plane(),
            final(self).output == old(self).output,
            final(self).x == old(self).x,
            final(self).y == old(self).y,
    {
        self.buffer = [0u32;32];
    }

    /// Turns every pixel of the plane that is shown off.
    pub fn clear_output(&mut self)
        ensures
            final(self).output@ == empty_plane(),
            final(self).buffer == old(self).buffer,
            final(self).x == old(self).x,
            final(self).y == old(self).y,
    {
        self.output = [0u32;32];
    }
}

/// The character display: the ten places that the program writes to, the
/// ten that are shown, and the place after the one written last.
#[derive(Debug)]
pub struct CharDisplay {
    pub buffer: [Char; 10],
    pub output: [Char; 10],
    pub head: usize,
}

/// Ten spaces.
pub open spec fn blank_places() -> Seq<Char> {
    Seq::new(10, |i: int| Char(0))
}

/// The first `count` characters of `places` as they are shown, one after
/// the other.
pub open spec fn places_text(places: Seq<Char>, count: int) -> Seq<char>
    decreases count,
{
    if 0 < count <= places.len() {
        places_text(places, count - 1) + places[count - 1].text()
    } else {
        Seq::empty()
    }
}

impl Clone for CharDisplay {
    fn clone(&self) -> (copy: CharDisplay)
        ensures
            copy == *self,
    {
        CharDisplay { buffer: self.buffer, output: self.output, head: self.head }
    }
}

impl Default for CharDisplay {
    fn default() -> (display: CharDisplay)
        ensures
            display.buffer@ == blank_places(),
            display.output@ == blank_places(),
            display.head == 0,
    {
        CharDisplay { buffer: [Char(0);10], output: [Char(0);10], head: 0 }
    }
}

impl CharDisplay {
    /// Writes a character to the place at the head, which is the first
    /// place again after the tenth, and moves the head on.
    pub fn write(&mut self, char: Char)
        ensures
            final(self).buffer@ == old(self).buffer@.update(old(self).head as int % 10, char),
            final(self).head == old(self).head % 10 + 1,
            final(self).output == old(self).output,
    {
        self.head = self.head % 10;
        self.buffer[self.head] = char;
        self.head += 1;
    }

    /// Shows what was written.
    pub fn show_buffer(&mut self)
        ensures
            final(self).output == old(self).buffer,
            final(self).buffer == old(self).buffer,
            final(self).head == old(self).head,
    {
        self.output = self.buffer;
    }

    /// Fills the places that the program writes to with spaces and moves
    /// the head to the first.
    pub fn clear_buffer(&mut self)
        ensures
            final(self).buffer@ == blank_places(),
            final(self).head == 0,
            final(self).output == old(self).output,
    {
        self.buffer = [Char(0);10];
        self.head = 0;
    }

    /// Fills the places that are shown with spaces.
    pub fn clear_output(&mut self)
        ensures
            final(self).output@ == blank_places(),
            final(self).buffer == old(self).buffer,
            final(self).head == old(self).head,
    {
        self.output = [Char(0);10];
    }

    /// The ten characters that are shown.
    pub fn to_string(&self) -> (text: String)
        ensures
            text@ == places_text(self.output@, 10),
    {
        let mut text = String::new();
        let mut at: usize = 0;
        while at < 10
            invariant
                at <= 10,
                self.output@.len() == 10,
                text@ == places_text(self.output@, at as int),
            decreases 10 - at,
        {
            self.output[at].push_to(&mut text);
            at = at + 1;
        }
        text
    }
}

/// The places and the head of a display after the characters `chars` were
/// written to it, the first of them first.
pub open spec fn chars_written(places: Seq<Char>, head: int, chars: Seq<Char>) -> (Seq<Char>, int)
    decreases chars.len(),
{
    if chars.len() == 0 {
        (places, head)
    } else {
        let before = chars_written(places, head, chars.drop_last());
        (before.0.update(before.1 % 10, chars.last()), before.1 % 10 + 1)
    }
}

/// A display that was cleared and then written to holds the last ten
/// characters written: the character written as number `i`, counted from
/// 0, stands at the place `i` modulo 10 until ten more are written, and the
/// places that were not reached hold spaces.
pub proof fn lemma_last_ten(chars: Seq<Char>)
    ensures
        chars_written(blank_places(), 0, chars).0.len() == 10,
        chars.len() == 0 ==> chars_written(blank_places(), 0, chars).1 == 0,
        chars.len() > 0 ==> chars_written(blank_places(), 0, chars).1 == (chars.len() - 1) % 10
            + 1,
        forall|i: int|
            0 <= i < chars.len() && chars.len() - 10 <= i ==> chars_written(
                blank_places(),
                0,
                chars,
            ).0[i % 10] == #[trigger] chars[i],
        forall|place: int|
            chars.len() <= place < 10 ==> #[trigger] chars_written(blank_places(), 0, chars).0[place]
                == Char(0),
    decreases chars.len(),
{
    if chars.len() > 0 {
        let earlier = chars.drop_last();
        lemma_last_ten(earlier);
        let before = chars_written(blank_places(), 0, earlier);
        let after = chars_written(blank_places(), 0, chars);
        let last = chars.len() - 1;
        assert(before.1 % 10 == last % 10);
        assert forall|i: int| 0 <= i < chars.len() && chars.len() - 10 <= i implies after.0[i % 10]
            == #[trigger] chars[i] by {
            if i < last {
                assert(earlier[i] == chars[i]);
                assert(i % 10 != last % 10);
            }
        }
    }
}

/// The number display: the byte that is shown, if any, and whether it is
/// shown as a signed number.
#[derive(Debug, Copy, Clone, PartialEq, Eq, Structural)]
pub struct NumberDisplay {
    pub value: Option<u8>,
    pub signed: bool,
}

impl Default for NumberDisplay {
    fn default() -> (display: NumberDisplay)
        ensures
            display == (NumberDisplay { value: None, signed: false }),
    {
        NumberDisplay { value: None, signed: false }
    }
}

/// The byte with the bits of `value`.
pub open spec fn byte_of(value: i8) -> u8 {
    if value < 0 {
        (value + 256) as u8
    } else {
        value as u8
    }
}

impl NumberDisplay {
    /// What the display shows: nothing, the byte in decimal, or, in signed
    /// mode, the number from -128 to 127 with the byte's bits in decimal.
    pub open spec fn text(self) -> Seq<char> {
        match self.value {
            None => Seq::empty(),
            Some(value) => if self.signed && value >= 128 {
                seq!['-'] + decimal((256 - value) as nat)
            } else {
                decimal(value as nat)
            },
        }
    }

    /// Shows the byte `value`, in the mode that the display is in.
    pub fn set(&mut self, value: u8)
        ensures
            *final(self) == (NumberDisplay { value: Some(value), signed: old(self).signed }),
    {
        self.value = Some(value);
    }

    /// Shows `value` as an unsigned number.
    pub fn set_unsigned(&mut self, value: u8)
        ensures
            *final(self) == (NumberDisplay { value: Some(value), signed: false }),
    {
        self.set(value);
        self.signed = false;
    }

    /// Shows `value` as a signed number.
    pub fn set_signed(&mut self, value: i8)
        ensures
            *final(self) == (NumberDisplay { value: Some(byte_of(value)), signed: true }),
    {
        let byte: u8 = if value < 0 {
            (value as i16 + 256) as u8
        } else {
            value as u8
        };
        self.set(byte);
        self.signed = true;
    }

    /// Shows nothing.
    pub fn clear(&mut self)
        ensures
            *final(self) == (NumberDisplay { value: None, signed: old(self).signed }),
    {
        self.value = None;
    }

    /// What the display shows.
    pub fn to_string(&self) -> (text: String)
        ensures
            text@ == self.text(),
    {
        let mut text = String::new();
        match self.value {
            None => {},
            Some(value) => {
                if self.signed && value >= 128 {
                    push_char(&mut text, '-');
                    push_decimal(&mut text, ((256 - value as u16) as u8));
                    assert(text@ == seq!['-'] + decimal((256 - value) as nat));
                } else {
                    push_decimal(&mut text, value);
                    assert(text@ == decimal(value as nat));
                }
            },
        }
        text
    }
}

/// The controller: one bit for each button, set while the button is held.
#[derive(Debug)]
pub struct Controller {
    pub state: u8,
}

impl Clone for Controller {
    fn clone(&self) -> (copy: Controller)
        ensures
            copy == *self,
    {
        Controller { state: self.state }
    }
}

impl Default for Controller {
    fn default() -> (controller: Controller)
        ensures
            controller.state == 0,
    {
        Controller { state: 0 }
    }
}

impl Controller {
    /// Left on the pad: bit 0.
    pub const B_LEFT: u8 = 0x01;

    /// Down on the pad: bit 1.
    pub const B_DOWN: u8 = 0x02;

    /// Right on the pad: bit 2.
    pub const B_RIGHT: u8 = 0x04;

    /// Up on the pad: bit 3.
    pub const B_UP: u8 = 0x08;

    /// The button B: bit 4.
    pub const B_B: u8 = 0x10;

    /// The button A: bit 5.
    pub const B_A: u8 = 0x20;

    /// Select: bit 6.
    pub const B_SELECT: u8 = 0x40;

    /// Start: bit 7.
    pub const B_START: u8 = 0x80;

    /// Whether a button of `button` is held.
    pub fn get_button(&self, button: u8) -> (held: bool)
        ensures
            held == (self.state & button != 0),
    {
        self.state & button != 0
    }

    /// Holds the buttons of `button`.
    pub fn set_button(&mut self, button: u8)
        ensures
            final(self).state == old(self).state | button,
    {
        self.state = self.state | button;
    }

    /// Lets the buttons of `button` go.
    pub fn clear_button(&mut self, button: u8)
        ensures
            final(self).state == old(self).state & !button,
    {
        self.state = self.state & !button;
    }
}

/// A button that is held reads as held until it is let go, and holding or
/// letting go of other buttons does not change how it reads.
pub proof fn lemma_buttons(state: u8, button: u8, other: u8)
    requires
        button != 0,
        button & other == 0,
    ensures
        (state | button) & button != 0,
        (state & !button) & button == 0,
        (state | other) & button == state & button,
        (state & !other) & button == state & button,
{
    assert(button != 0 && button & other == 0 ==> (state | button) & button != 0 && (state
        & !button) & button == 0 && (state | other) & button == state & button && (state & !other)
        & button == state & button) by (bit_vector);
}

/// `rand::rngs::SmallRng`: a small random number generator. Its state is
/// hidden from the proofs.
#[verifier::external_type_specification]
#[verifier::external_body]
pub struct ExSmallRng(SmallRng);

/// `SmallRng::from_entropy`: a generator seeded by the operating system.
/// Nothing is known of the numbers that it will give. The call panics where
/// the operating system gives no entropy.
#[verifier::external_body]
fn rng_from_entropy() -> SmallRng {
    SmallRng::from_entropy()
}

/// `SmallRng::seed_from_u64`: a generator seeded from `seed`. Which one it
/// is depends on the machine, so nothing is claimed of it.
#[verifier::external_body]
fn rng_from_seed(seed: u64) -> SmallRng {
    SmallRng::seed_from_u64(seed)
}

/// `Rng::gen`: the generator's next byte, of which nothing is claimed.
#[verifier::external_body]
fn rng_byte(rng: &mut SmallRng) -> u8 {
    rng.gen()
}

/// `SmallRng::clone`: a generator in the same state.
#[verifier::external_body]
fn rng_clone(rng: &SmallRng) -> SmallRng {
    rng.clone()
}

/// The devices that the machine comes with.
#[derive(Debug)]
pub struct EmbeddedIO {
    pub screen: Screen,
    pub char_display: CharDisplay,
    pub number_display: NumberDisplay,
    pub rng: SmallRng,
    pub controller: Controller,
}

impl Clone for EmbeddedIO {
    /// The same devices with a generator of their own, which begins in the
    /// state of this one.
    fn clone(&self) -> (copy: EmbeddedIO)
        ensures
            copy@ == self@,
    {
        EmbeddedIO {
            screen: self.screen.clone(),
            char_display: self.char_display.clone(),
            number_display: self.number_display,
            rng: rng_clone(&self.rng),
            controller: self.controller.clone(),
        }
    }
}

/// What the devices hold, but for the state of the random number
/// generator.
#[verifier::ext_equal]
pub struct Devices {
    pub x: u8,
    pub y: u8,
    pub screen_buffer: Seq<u32>,
    pub screen_output: Seq<u32>,
    pub char_buffer: Seq<Char>,
    pub char_output: Seq<Char>,
    pub char_head: usize,
    pub number: NumberDisplay,
    pub controller: u8,
}

impl Devices {
    /// The devices after the operation of a port that is written to, with
    /// the byte `value` where the operation takes one.
    pub open spec fn after_write(self, port: Port, value: u8) -> Devices {
        match port {
            Port::PixelX => Devices { x: value % 32, ..self },
            Port::PixelY => Devices { y: value % 32, ..self },
            Port::DrawPixel => Devices {
                screen_buffer: plane_with(self.screen_buffer, self.x, self.y, true),
                ..self
            },
            Port::ClearPixel => Devices {
                screen_buffer: plane_with(self.screen_buffer, self.x, self.y, false),
                ..self
            },
            Port::BufferScreen => Devices { screen_output: self.screen_buffer, ..self },
            Port::ClearScreenBuffer => Devices { screen_buffer: empty_plane(), ..self },
            Port::WriteChar => Devices {
                char_buffer: self.char_buffer.update(self.char_head as int % 10, Char(value)),
                char_head: (self.char_head % 10 + 1) as usize,
                ..self
            },
            Port::BufferChars => Devices { char_output: self.char_buffer, ..self },
            Port::ClearCharsBuffer => Devices {
                char_buffer: blank_places(),
                char_head: 0,
                ..self
            },
            Port::ShowNumber => Devices {
                number: NumberDisplay { value: Some(value), signed: self.number.signed },
                ..self
            },
            Port::ClearNumber => Devices {
                number: NumberDisplay { value: None, signed: self.number.signed },
                ..self
            },
            Port::SignedMode => Devices {
                number: NumberDisplay { value: self.number.value, signed: true },
                ..self
            },
            Port::UnsignedMode => Devices {
                number: NumberDisplay { value: self.number.value, signed: false },
                ..self
            },
            _ => self,
        }
    }
}

impl View for EmbeddedIO {
    type V = Devices;

    open spec fn view(&self) -> Devices {
        Devices {
            x: self.screen.x,
            y: self.screen.y,
            screen_buffer: self.screen.buffer@,
            screen_output: self.screen.output@,
            char_buffer: self.char_display.buffer@,
            char_output: self.char_display.output@,
            char_head: self.char_display.head,
            number: self.number_display,
            controller: self.controller.state,
        }
    }
}

impl EmbeddedIO {
    /// The devices at rest: an empty screen, a display of spaces, no
    /// number, no button held, and a generator seeded by the operating
    /// system.
    pub open spec fn at_rest(self) -> bool {
        self@ == (Devices {
            x: 0,
            y: 0,
            screen_buffer: empty_plane(),
            screen_output: empty_plane(),
            char_buffer: blank_places(),
            char_output: blank_places(),
            char_head: 0,
            number: NumberDisplay { value: None, signed: false },
            controller: 0,
        })
    }

    /// The devices at rest, with a generator seeded by the operating
    /// system. Which generator that is depends on the machine's entropy,
    /// so nothing is said of it.
    pub fn new() -> (io: EmbeddedIO)
        ensures
            io.at_rest(),
    {
        EmbeddedIO::with_rng(rng_from_entropy())
    }

    /// The devices at rest with a generator seeded from `seed`, which
    /// gives the same bytes whenever it is seeded so on the same machine.
    /// Which generator that is depends on the machine, so nothing is said
    /// of it.
    pub fn with_seed(seed: u64) -> (io: EmbeddedIO)
        ensures
            io.at_rest(),
    {
        EmbeddedIO::with_rng(rng_from_seed(seed))
    }

    /// The devices at rest with the generator `rng`.
    pub fn with_rng(rng: SmallRng) -> (io: EmbeddedIO)
        ensures
            io.at_rest(),
            io.rng == rng,
    {
        EmbeddedIO {
            screen: Screen::default(),
            char_display: CharDisplay::default(),
            number_display: NumberDisplay::default(),
            rng,
            controller: Controller::default(),
        }
    }

    /// What a read of the generator's port hands back where the generator
    /// gave `byte`: that byte.
    pub fn rng_reading(byte: u8) -> (out: Result<u8, Infallible>)
        ensures
            out == Ok::<u8, Infallible>(byte),
    {
        Ok(byte)
    }
}

impl IO for EmbeddedIO {
    type Error = Infallible;

    /// No operation fails. A port that is written to changes the devices as
    /// `after_write` says and leaves the generator alone. Reading a pixel
    /// or the controller changes nothing. Reading the generator gives some
    /// byte and changes nothing but the generator.
    open spec fn port_step(
        &self,
        port: Port,
        value: u8,
        after: &Self,
        out: Result<u8, Infallible>,
    ) -> bool {
        match port {
            Port::LoadPixel => {
                &&& after@ == self@
                &&& after.rng == self.rng
                &&& out == Ok::<u8, Infallible>(
                    if plane_pixel(self@.screen_buffer, self@.x, self@.y) {
                        1u8
                    } else {
                        0u8
                    },
                )
            },
            Port::ControllerInput => {
                &&& after@ == self@
                &&& after.rng == self.rng
                &&& out == Ok::<u8, Infallible>(self@.controller)
            },
            Port::Rng => after@ == self@ && out is Ok,
            _ => {
                &&& after@ == self@.after_write(port, value)
                &&& after.rng == self.rng
                &&& out == Ok::<u8, Infallible>(0u8)
            },
        }
    }

    fn set_pixel_x(&mut self, value: u8) -> (out: Result<(), Infallible>) {
        self.screen.x = low_five(value);
        Ok(())
    }

    fn set_pixel_y(&mut self, value: u8) -> (out: Result<(), Infallible>) {
        self.screen.y = low_five(value);
        Ok(())
    }

    fn draw_pixel(&mut self) -> (out: Result<(), Infallible>) {
        let x = self.screen.x;
        let y = self.screen.y;
        self.screen.set_buffer_pixel(x, y, true);
        Ok(())
    }

    fn clear_pixel(&mut self) -> (out: Result<(), Infallible>) {
        let x = self.screen.x;
        let y = self.screen.y;
        self.screen.set_buffer_pixel(x, y, false);
        Ok(())
    }

    fn load_pixel(&mut self) -> (out: Result<u8, Infallible>) {
        if self.screen.get_buffer_pixel(self.screen.x, self.screen.y) {
            Ok(1)
        } else {
            Ok(0)
        }
    }

    fn show_screen_buffer(&mut self) -> (out: Result<(), Infallible>) {
        self.screen.show_buffer();
        Ok(())
    }

    fn clear_screen_buffer(&mut self) -> (out: Result<(), Infallible>) {
        self.screen.clear_buffer();
        Ok(())
    }

    fn write_char(&mut self, value: u8) -> (out: Result<(), Infallible>) {
        self.char_display.write(Char::new(value));
        Ok(())
    }

    fn show_char_buffer(&mut self) -> (out: Result<(), Infallible>) {
        self.char_display.show_buffer();
        Ok(())
    }

    fn clear_char_buffer(&mut self) -> (out: Result<(), Infallible>) {
        self.char_display.clear_buffer();
        Ok(())
    }

    fn show_number(&mut self, value: u8) -> (out: Result<(), Infallible>) {
        self.number_display.set(value);
        Ok(())
    }

    fn clear_number(&mut self) -> (out: Result<(), Infallible>) {
        self.number_display.clear();
        Ok(())
    }

    fn set_number_signed(&mut self) -> (out: Result<(), Infallible>) {
        self.number_display.signed = true;
        Ok(())
    }

    fn set_number_unsigned(&mut self) -> (out: Result<(), Infallible>) {
        self.number_display.signed = false;
        Ok(())
    }

    fn get_rng(&mut self) -> (out: Result<u8, Infallible>) {
        EmbeddedIO::rng_reading(rng_byte(&mut self.rng))
    }

    fn get_controller(&mut self) -> (out: Result<u8, Infallible>) {
        Ok(self.controller.state)
    }
}

} // verus!
