use vstd::prelude::*;

pub mod assembly;
pub mod partition;
pub mod view;

verus! {

/// One pixel of a frame, eight bits per channel.
#[derive(Debug, Clone, Copy, PartialEq, Eq, Structural)]
pub struct RGBAColor {
    pub r: u8,
    pub g: u8,
    pub b: u8,
    pub a: u8,
}

impl RGBAColor {
    /// Creates a new RGBAColor from the given color byte values.
    pub fn new(red: u8, green: u8, blue: u8, alpha: u8) -> (c: RGBAColor)
        ensures
            c == (RGBAColor { r: red, g: green, b: blue, a: alpha }),
    {
        RGBAColor { r: red, g: green, b: blue, a: alpha }
    }

    /// The colour at one sector of the hue wheel. The hue wheel is cut into
    /// six sectors, red to yellow, yellow to green, and so on back to red;
    /// within a sector one channel is at full `brightness`, one at `off`,
    /// and the third rises (`fade_in`) or falls (`fade_out`) across it.
    pub fn from_sector(sector: u32, brightness: u8, fade_in: u8, fade_out: u8, off: u8, alpha: u8) -> (c:
        RGBAColor)
        requires
            sector < 6,
        ensures
            c.a == alpha,
            sector == 0 ==> c.r == brightness && c.g == fade_in && c.b == off,
            sector == 1 ==> c.r == fade_out && c.g == brightness && c.b == off,
            sector == 2 ==> c.r == off && c.g == brightness && c.b == fade_in,
            sector == 3 ==> c.r == off && c.g == fade_out && c.b == brightness,
            sector == 4 ==> c.r == fade_in && c.g == off && c.b == brightness,
            sector == 5 ==> c.r == brightness && c.g == off && c.b == fade_out,
    {
        match sector {
            0 => RGBAColor { r: brightness, g: fade_in, b: off, a: alpha },
            1 => RGBAColor { r: fade_out, g: brightness, b: off, a: alpha },
            2 => RGBAColor { r: off, g: brightness, b: fade_in, a: alpha },
            3 => RGBAColor { r: off, g: fade_out, b: brightness, a: alpha },
            4 => RGBAColor { r: fade_in, g: off, b: brightness, a: alpha },
            _ => RGBAColor { r: brightness, g: off, b: fade_out, a: alpha },
        }
    }

    /// The channels in buffer order: red, green, blue, alpha.
    pub open spec fn bytes(self) -> Seq<u8> {
        seq![self.r, self.g, self.b, self.a]
    }

    /// The four bytes this colour occupies in an RGBA8 frame buffer.
    pub fn to_bytes(self) -> (out: [u8; 4])
        ensures
            out@ == self.bytes(),
    {
        let out = [self.r, self.g, self.b, self.a];
        assert(out@ =~= self.bytes());
        out
    }
}

/// Life cycle of a fractal worker.
#[derive(Debug, Clone, Copy, PartialEq, Eq, Structural)]
pub enum FractalThreadState {
    NotStarted,
    Running,
    Finished,
}

impl FractalThreadState {
    /// Moves a worker into the running state. A worker that is already
    /// running is left alone and is not started a second time: the result
    /// tells whether the caller should start it.
    pub fn begin(&mut self) -> (start: bool)
        ensures
            start == (*old(self) != FractalThreadState::Running),
            *final(self) == FractalThreadState::Running,
    {
        let start = *self != FractalThreadState::Running;
        *self = FractalThreadState::Running;
        start
    }
}

/// The colour a worker computed for one pixel of the frame.
#[derive(Debug, Clone, Copy, PartialEq, Eq, Structural)]
pub struct FractalThreadMessage {
    /// The pixel's position in the frame, row by row from the top left.
    pub index: usize,
    pub color: RGBAColor,
}

/// Why a frame could not be assembled.
#[derive(Debug, Clone, Copy, PartialEq, Eq, Structural)]
pub enum FractalGenerationError {
    /// The worker stopped before handing over every pixel of its share.
    WorkerFailed { worker: usize },
}

} // verus!
