//! The two I/O ports of the embedded controller and the flags of its status
//! byte.

use vstd::prelude::*;

verus! {

/// Address of the status and command port.
pub const EC_SC: u16 = 0x66;

/// Address of the data port.
pub const EC_DATA: u16 = 0x62;

/// Bit position of the output-buffer-full flag in the status byte.
pub const OBF: u8 = 0;

/// Bit position of the input-buffer-full flag in the status byte.
pub const IBF: u8 = 1;

/// One of the two hardware ports through which the controller is reached.
#[derive(Clone, Copy, Debug, PartialEq, Eq, Structural)]
pub enum Port {
    /// Commands are written here and the status byte is read from here.
    Status,
    /// Payload bytes travel through this port.
    Data,
}

impl Port {
    /// The hardware address of the port.
    pub open spec fn spec_address(self) -> u16 {
        match self {
            Port::Status => EC_SC,
            Port::Data => EC_DATA,
        }
    }

    /// The hardware address of the port.
    #[verifier::when_used_as_spec(spec_address)]
    pub fn address(self) -> (address: u16)
        ensures
            address == self.spec_address(),
    {
        match self {
            Port::Status => EC_SC,
            Port::Data => EC_DATA,
        }
    }
}

/// A flag of the status byte.
#[derive(Clone, Copy, Debug, PartialEq, Eq, Structural)]
pub enum StatusFlag {
    /// The controller has placed a byte in its output buffer, ready to be
    /// read from the data port.
    OutputBufferFull,
    /// The controller has not yet consumed the last byte sent to it.
    InputBufferFull,
}

impl StatusFlag {
    /// The position of the flag's bit in the status byte.
    pub open spec fn spec_bit(self) -> u8 {
        match self {
            StatusFlag::OutputBufferFull => OBF,
            StatusFlag::InputBufferFull => IBF,
        }
    }

    /// The position of the flag's bit in the status byte.
    #[verifier::when_used_as_spec(spec_bit)]
    pub fn bit(self) -> (bit: u8)
        ensures
            bit == self.spec_bit(),
    {
        match self {
            StatusFlag::OutputBufferFull => OBF,
            StatusFlag::InputBufferFull => IBF,
        }
    }

    /// Whether the flag is raised in `status`: the binary digit of `status`
    /// at the flag's position is one.
    pub open spec fn is_set(self, status: u8) -> bool {
        match self {
            StatusFlag::OutputBufferFull => status % 2 == 1,
            StatusFlag::InputBufferFull => (status / 2) % 2 == 1,
        }
    }

    /// Whether `status` shows the flag in the state `expected`.
    pub open spec fn shows(self, status: u8, expected: bool) -> bool {
        self.is_set(status) == expected
    }

    /// Tests the flag in a status byte read from the controller.
    pub fn test(self, status: u8) -> (set: bool)
        ensures
            set == self.is_set(status),
    {
        let bit: u8 = self.bit();
        assert((status >> 0u8) & 1u8 == 1u8 <==> status % 2 == 1) by (bit_vector);
        assert((status >> 1u8) & 1u8 == 1u8 <==> (status / 2) % 2 == 1) by (bit_vector);
        (status >> bit) & 1 == 1
    }
}

} // verus!
