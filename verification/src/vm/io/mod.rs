//! The machine's ports: the sixteen device operations behind the addresses
//! 240 to 255, and the routing of a byte to and from them.

pub mod embedded;

use vstd::prelude::*;

verus! {

/// The operations of the devices, in the order of their addresses from 240.
#[derive(Debug, Copy, Clone, PartialEq, Eq, Structural)]
pub enum Port {
    PixelX,
    PixelY,
    DrawPixel,
    ClearPixel,
    LoadPixel,
    BufferScreen,
    ClearScreenBuffer,
    WriteChar,
    BufferChars,
    ClearCharsBuffer,
    ShowNumber,
    ClearNumber,
    SignedMode,
    UnsignedMode,
    Rng,
    ControllerInput,
}

impl Port {
    /// The address of the port.
    pub open spec fn address(self) -> u8 {
        match self {
            Port::PixelX => 240,
            Port::PixelY => 241,
            Port::DrawPixel => 242,
            Port::ClearPixel => 243,
            Port::LoadPixel => 244,
            Port::BufferScreen => 245,
            Port::ClearScreenBuffer => 246,
            Port::WriteChar => 247,
            Port::BufferChars => 248,
            Port::ClearCharsBuffer => 249,
            Port::ShowNumber => 250,
            Port::ClearNumber => 251,
            Port::SignedMode => 252,
            Port::UnsignedMode => 253,
            Port::Rng => 254,
            Port::ControllerInput => 255,
        }
    }

    /// Whether the port is read from; the others are written to.
    pub open spec fn is_input(self) -> bool {
        self == Port::LoadPixel || self == Port::Rng || self == Port::ControllerInput
    }

    /// The port that a read of `addr` goes to.
    pub open spec fn read_at(addr: u8) -> Option<Port> {
        if addr == 244 {
            Some(Port::LoadPixel)
        } else if addr == 254 {
            Some(Port::Rng)
        } else if addr == 255 {
            Some(Port::ControllerInput)
        } else {
            None
        }
    }

    /// The port that a write to `addr` goes to.
    pub open spec fn written_at(addr: u8) -> Option<Port> {
        if addr == 240 {
            Some(Port::PixelX)
        } else if addr == 241 {
            Some(Port::PixelY)
        } else if addr == 242 {
            Some(Port::DrawPixel)
        } else if addr == 243 {
            Some(Port::ClearPixel)
        } else if addr == 245 {
            Some(Port::BufferScreen)
        } else if addr == 246 {
            Some(Port::ClearScreenBuffer)
        } else if addr == 247 {
            Some(Port::WriteChar)
        } else if addr == 248 {
            Some(Port::BufferChars)
        } else if addr == 249 {
            Some(Port::ClearCharsBuffer)
        } else if addr == 250 {
            Some(Port::ShowNumber)
        } else if addr == 251 {
            Some(Port::ClearNumber)
        } else if addr == 252 {
            Some(Port::SignedMode)
        } else if addr == 253 {
            Some(Port::UnsignedMode)
        } else {
            None
        }
    }
}

/// A read goes to an input port at its address, a write to one of the
/// others at its address, and to no port anywhere else.
pub proof fn lemma_port_addresses(port: Port, addr: u8)
    ensures
        Port::read_at(addr) == Some(port) <==> port.is_input() && port.address() == addr,
        Port::written_at(addr) == Some(port) <==> !port.is_input() && port.address() == addr,
        port.address() >= 240,
{
}

/// The error of a result, if it is one.
pub open spec fn failure<T, E>(out: Result<T, E>) -> Option<E> {
    match out {
        Ok(_) => None,
        Err(error) => Some(error),
    }
}

/// What a device operation that hands back no byte did, in the form in
/// which `IO::port_step` speaks of every operation.
pub open spec fn written<E>(out: Result<(), E>) -> Result<u8, E> {
    match out {
        Ok(()) => Ok(0u8),
        Err(error) => Err(error),
    }
}

/// The devices of the machine, one operation for each port. What an
/// operation may do is the implementation's to say, in `port_step`.
pub trait IO {
    type Error;

    /// Whether the operation of `port`, with the byte `value` where one is
    /// written, may take the devices from `self` to `after` and end with
    /// `out`: the byte read, 0 for a port that is written to, or the error.
    /// Devices that say nothing of themselves may do anything.
    open spec fn port_step(
        &self,
        port: Port,
        value: u8,
        after: &Self,
        out: Result<u8, Self::Error>,
    ) -> bool {
        true
    }

    /// Port 240: chooses the column of the pixel.
    fn set_pixel_x(&mut self, value: u8) -> (out: Result<(), Self::Error>)
        ensures
            old(self).port_step(Port::PixelX, value, final(self), written(out)),
    ;

    /// Port 241: chooses the row of the pixel.
    fn set_pixel_y(&mut self, value: u8) -> (out: Result<(), Self::Error>)
        ensures
            old(self).port_step(Port::PixelY, value, final(self), written(out)),
    ;

    /// Port 242: sets the chosen pixel.
    fn draw_pixel(&mut self) -> (out: Result<(), Self::Error>)
        ensures
            old(self).port_step(Port::DrawPixel, 0, final(self), written(out)),
    ;

    /// Port 243: clears the chosen pixel.
    fn clear_pixel(&mut self) -> (out: Result<(), Self::Error>)
        ensures
            old(self).port_step(Port::ClearPixel, 0, final(self), written(out)),
    ;

    /// Port 244: reads the chosen pixel as 0 or 1.
    fn load_pixel(&mut self) -> (out: Result<u8, Self::Error>)
        ensures
            old(self).port_step(Port::LoadPixel, 0, final(self), out),
    ;

    /// Port 245: shows what was drawn.
    fn show_screen_buffer(&mut self) -> (out: Result<(), Self::Error>)
        ensures
            old(self).port_step(Port::BufferScreen, 0, final(self), written(out)),
    ;

    /// Port 246: clears what was drawn.
    fn clear_screen_buffer(&mut self) -> (out: Result<(), Self::Error>)
        ensures
            old(self).port_step(Port::ClearScreenBuffer, 0, final(self), written(out)),
    ;

    /// Port 247: writes a character to the display.
    fn write_char(&mut self, value: u8) -> (out: Result<(), Self::Error>)
        ensures
            old(self).port_step(Port::WriteChar, value, final(self), written(out)),
    ;

    /// Port 248: shows the characters written.
    fn show_char_buffer(&mut self) -> (out: Result<(), Self::Error>)
        ensures
            old(self).port_step(Port::BufferChars, 0, final(self), written(out)),
    ;

    /// Port 249: clears the characters written.
    fn clear_char_buffer(&mut self) -> (out: Result<(), Self::Error>)
        ensures
            old(self).port_step(Port::ClearCharsBuffer, 0, final(self), written(out)),
    ;

    /// Port 250: shows a number.
    fn show_number(&mut self, value: u8) -> (out: Result<(), Self::Error>)
        ensures
            old(self).port_step(Port::ShowNumber, value, final(self), written(out)),
    ;

    /// Port 251: shows no number.
    fn clear_number(&mut self) -> (out: Result<(), Self::Error>)
        ensures
            old(self).port_step(Port::ClearNumber, 0, final(self), written(out)),
    ;

    /// Port 252: shows numbers as signed.
    fn set_number_signed(&mut self) -> (out: Result<(), Self::Error>)
        ensures
            old(self).port_step(Port::SignedMode, 0, final(self), written(out)),
    ;

    /// Port 253: shows numbers as unsigned.
    fn set_number_unsigned(&mut self) -> (out: Result<(), Self::Error>)
        ensures
            old(self).port_step(Port::UnsignedMode, 0, final(self), written(out)),
    ;

    /// Port 254: reads a random byte.
    fn get_rng(&mut self) -> (out: Result<u8, Self::Error>)
        ensures
            old(self).port_step(Port::Rng, 0, final(self), out),
    ;

    /// Port 255: reads the buttons that are held.
    fn get_controller(&mut self) -> (out: Result<u8, Self::Error>)
        ensures
            old(self).port_step(Port::ControllerInput, 0, final(self), out),
    ;
}

/// The devices as the machine sees them: a byte read from an address and a
/// byte written to one.
pub trait RawIO {
    type Error;

    /// Whether a read of `addr` may take the devices from `self` to `after`
    /// and end with `out`. Devices that say nothing of themselves may do
    /// anything.
    open spec fn read_step(&self, addr: u8, after: &Self, out: Result<u8, Self::Error>) -> bool {
        true
    }

    /// Whether a write of `value` to `addr` may take the devices from `self`
    /// to `after` and end well, or fail with the error `failed`.
    open spec fn write_step(
        &self,
        addr: u8,
        value: u8,
        after: &Self,
        failed: Option<Self::Error>,
    ) -> bool {
        true
    }

    /// Reads a byte from the address `addr`.
    fn read_addr(&mut self, addr: u8) -> (out: Result<u8, Self::Error>)
        ensures
            old(self).read_step(addr, final(self), out),
    ;

    /// Writes the byte `value` to the address `addr`.
    fn write_addr(&mut self, addr: u8, value: u8) -> (out: Result<(), Self::Error>)
        ensures
            old(self).write_step(addr, value, final(self), failure(out)),
    ;
}

/// Every set of devices is reached by address: a read of an input port's
/// address and a write to another port's address are that port's operation;
/// a read of any other address gives 0 and a write to any other address
/// does nothing.
impl<T: IO> RawIO for T {
    type Error = <T as IO>::Error;

    open spec fn read_step(&self, addr: u8, after: &Self, out: Result<u8, Self::Error>) -> bool {
        match Port::read_at(addr) {
            Some(port) => self.port_step(port, 0, after, out),
            None => *after == *self && out == Ok::<u8, Self::Error>(0u8),
        }
    }

    open spec fn write_step(
        &self,
        addr: u8,
        value: u8,
        after: &Self,
        failed: Option<Self::Error>,
    ) -> bool {
        let out = match failed {
            None => Ok::<u8, Self::Error>(0u8),
            Some(error) => Err(error),
        };
        match Port::written_at(addr) {
            Some(Port::PixelX) => self.port_step(Port::PixelX, value, after, out),
            Some(Port::PixelY) => self.port_step(Port::PixelY, value, after, out),
            Some(Port::WriteChar) => self.port_step(Port::WriteChar, value, after, out),
            Some(Port::ShowNumber) => self.port_step(Port::ShowNumber, value, after, out),
            Some(port) => self.port_step(port, 0, after, out),
            None => *after == *self && failed is None,
        }
    }

    fn read_addr(&mut self, addr: u8) -> (out: Result<u8, Self::Error>) {
        match addr {
            244 => self.load_pixel(),
            254 => self.get_rng(),
            255 => self.get_controller(),
            _ => Ok(0),
        }
    }

    fn write_addr(&mut self, addr: u8, value: u8) -> (out: Result<(), Self::Error>) {
        match addr {
            240 => self.set_pixel_x(value),
            241 => self.set_pixel_y(value),
            242 => self.draw_pixel(),
            243 => self.clear_pixel(),
            245 => self.show_screen_buffer(),
            246 => self.clear_screen_buffer(),
            247 => self.write_char(value),
            248 => self.show_char_buffer(),
            249 => self.clear_char_buffer(),
            250 => self.show_number(value),
            251 => self.clear_number(),
            252 => self.set_number_signed(),
            253 => self.set_number_unsigned(),
            _ => Ok(()),
        }
    }
}

} // verus!
