use vstd::prelude::*;
use crate::bits::{lemma_byte_bits, lemma_word_bits};

verus! {

/// The serial port: a data byte, a control byte, and the bytes sent so far
/// with the internal clock (there is no link partner).
#[derive(Debug, Clone, PartialEq, Eq)]
pub struct Serial {
    data: u8,
    control: u8,
    output: Vec<u8>,
}

impl Serial {
    pub closed spec fn spec_data(&self) -> u8 {
        self.data
    }

    /// The two meaningful control bits (start flag 0x80, clock select 0x01).
    pub closed spec fn spec_control(&self) -> u8 {
        self.control
    }

    /// The bytes sent and not yet taken, oldest first.
    pub closed spec fn spec_output(&self) -> Seq<u8> {
        self.output@
    }

    pub closed spec fn inv(&self) -> bool {
        self.control & 0x7E == 0
    }

    pub fn new() -> (serial: Self)
        ensures
            serial.inv(),
            serial.spec_data() == 0,
            serial.spec_control() == 0,
            serial.spec_output() == Seq::<u8>::empty(),
    {
        let serial = Serial { data: 0, control: 0, output: Vec::new() };
        assert(0u8 & 0x7E == 0) by {
            lemma_byte_bits();
            lemma_word_bits();
        }
        serial
    }

    pub fn read_data(&self) -> (value: u8)
        ensures
            value == self.spec_data(),
    {
        self.data
    }

    pub fn write_data(&mut self, value: u8)
        ensures
            final(self).spec_data() == value,
            final(self).spec_control() == old(self).spec_control(),
            final(self).spec_output() == old(self).spec_output(),
            old(self).inv() ==> final(self).inv(),
    {
        self.data = value;
    }

    /// The control register reads with its five unused bits set.
    pub fn read_control(&self) -> (value: u8)
        ensures
            value == 0x7E | self.spec_control(),
    {
        0x7E | self.control
    }

    /// Writes the control register. With both the start flag and the
    /// internal clock selected, the data byte is sent at once: it is appended
    /// to the output, the start flag is cleared, and `true` is returned.
    pub fn write_control(&mut self, value: u8) -> (transferred: bool)
        ensures
            final(self).inv(),
            transferred == (value & 0x81 == 0x81),
            final(self).spec_data() == old(self).spec_data(),
            transferred ==> final(self).spec_control() == 0x01,
            transferred ==> final(self).spec_output() == old(self).spec_output().push(
                old(self).spec_data(),
            ),
            !transferred ==> final(self).spec_control() == value & 0x81,
            !transferred ==> final(self).spec_output() == old(self).spec_output(),
    {
        self.control = value & 0x81;
        assert((value & 0x81) & 0x81 == value & 0x81) by {
            lemma_byte_bits();
            lemma_word_bits();
        }
        let internal_clock_transfer = self.control & 0x81 == 0x81;

        if internal_clock_transfer {
            self.output.push(self.data);
            self.control &= !0x80;
        }
        let c = self.control;
        assert(c & 0x7E == 0 && ((value & 0x81 == 0x81) ==> (value & 0x81) & !0x80u8 == 0x01)
            && ((value & 0x81) & 0x81 == value & 0x81)) by (bit_vector)
            requires
                (value & 0x81 == 0x81) ==> c == (value & 0x81) & !0x80u8,
                (value & 0x81 != 0x81) ==> c == value & 0x81,
        ;
        internal_clock_transfer
    }

    /// Takes every byte sent so far, leaving none behind.
    pub fn drain_output(&mut self) -> (sent: Vec<u8>)
        ensures
            sent@ == old(self).spec_output(),
            final(self).spec_output() == Seq::<u8>::empty(),
            final(self).spec_data() == old(self).spec_data(),
            final(self).spec_control() == old(self).spec_control(),
            old(self).inv() ==> final(self).inv(),
    {
        let mut sent = Vec::new();
        core::mem::swap(&mut sent, &mut self.output);
        sent
    }
}

impl Default for Serial {
    fn default() -> (serial: Self)
        ensures
            serial.inv(),
            serial.spec_data() == 0,
            serial.spec_control() == 0,
            serial.spec_output() == Seq::<u8>::empty(),
    {
        Serial::new()
    }
}

} // verus!
