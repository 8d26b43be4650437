use vstd::prelude::*;
use crate::messages::bytestreamreader::{ByteStreamReader, MessageDeserializer};
use crate::messages::{DecodeError, DeserializationResult};
use crate::MAX_LEDS;

verus! {

/// One LED's color, a red/green/blue triple of 8-bit channels.
#[derive(Debug, Clone, Copy, PartialEq, Eq, Structural)]
pub struct Rgb8 {
    pub r: u8,
    pub g: u8,
    pub b: u8,
}

impl Rgb8 {
    /// Reads the three channel bytes, red first, as the wire format orders
    /// them.
    pub fn read_from_bsr(bsr: &mut ByteStreamReader) -> (c: Rgb8)
        requires
            old(bsr).wf(),
            old(bsr).remaining() >= 3,
        ensures
            final(bsr).wf(),
            final(bsr).bytes() == old(bsr).bytes(),
            final(bsr).position() == old(bsr).position() + 3,
            c.r == old(bsr).bytes()[old(bsr).position()],
            c.g == old(bsr).bytes()[old(bsr).position() + 1],
            c.b == old(bsr).bytes()[old(bsr).position() + 2],
    {
        let r = bsr.u8();
        let g = bsr.u8();
        let b = bsr.u8();
        Rgb8 { r, g, b }
    }
}

impl MessageDeserializer for Rgb8 {
    type Result = DeserializationResult<Rgb8>;

    fn deserialize_from(reader: &mut ByteStreamReader) -> (r: Self::Result)
        ensures
            final(reader).wf(),
            final(reader).bytes() == old(reader).bytes(),
            old(reader).remaining() >= 3 ==> ({
                &&& r matches Ok(c)
                &&& c.r == old(reader).bytes()[old(reader).position()]
                &&& c.g == old(reader).bytes()[old(reader).position() + 1]
                &&& c.b == old(reader).bytes()[old(reader).position() + 2]
                &&& final(reader).position() == old(reader).position() + 3
            }),
            old(reader).remaining() < 3 ==> r == Err::<Rgb8, DecodeError>(DecodeError::Truncated)
                && *final(reader) == *old(reader),
    {
        if reader.remaining_len() < 3 {
            return Err(DecodeError::Truncated);
        }
        Ok(Rgb8::read_from_bsr(reader))
    }
}

/// An ordered, bounded run of colors destined for the strip: never longer
/// than `MAX_LEDS`.
#[derive(Debug, PartialEq, Eq)]
pub struct ColorFrame {
    colors: Vec<Rgb8>,
}

impl View for ColorFrame {
    type V = Seq<Rgb8>;

    closed spec fn view(&self) -> Seq<Rgb8> {
        self.colors@
    }
}

impl ColorFrame {
    /// The bound that every frame keeps: it fits the strip.
    pub open spec fn wf(self) -> bool {
        self@.len() <= MAX_LEDS
    }

    pub fn new() -> (f: ColorFrame)
        ensures
            f@ =~= Seq::<Rgb8>::empty(),
            f.wf(),
    {
        ColorFrame { colors: Vec::new() }
    }

    pub fn len(&self) -> (n: usize)
        ensures
            n == self@.len(),
    {
        self.colors.len()
    }

    pub fn push(&mut self, c: Rgb8)
        requires
            old(self)@.len() < MAX_LEDS,
        ensures
            final(self)@ =~= old(self)@.push(c),
            final(self).wf(),
    {
        self.colors.push(c);
    }

    pub fn get(&self, i: usize) -> (c: Rgb8)
        requires
            i < self@.len(),
        ensures
            c == self@[i as int],
    {
        self.colors[i]
    }
}

} // verus!
