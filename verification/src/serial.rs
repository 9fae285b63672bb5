use vstd::prelude::*;

verus! {

/// A serial port, by its I/O base address.
#[derive(Debug, Clone, Copy, PartialEq, Eq, Structural)]
pub enum ComPort {
    Com1,
}

impl ComPort {
    /// The I/O port address of the port's first register.
    pub fn io_port_addr(&self) -> (res: u16)
        ensures
            res == 0x3f8,
    {
        match self {
            ComPort::Com1 => 0x3f8,
        }
    }
}

/// The register writes that set a port up, in order, as (register offset,
/// value): interrupts off, 38400 baud, 8 bits with no parity and one stop
/// bit, FIFOs on and cleared, then loopback mode and the test byte 0xae.
pub fn init_sequence() -> (res: Vec<(u16, u8)>)
    ensures
        res@ == seq![(1u16, 0x00u8), (3, 0x80), (0, 0x03), (1, 0x00), (3, 0x03), (2, 0xc7), (4, 0x0b), (4, 0x1e), (0, 0xae)],
{
    let mut v: Vec<(u16, u8)> = Vec::new();
    v.push((1, 0x00));
    v.push((3, 0x80));
    v.push((0, 0x03));
    v.push((1, 0x00));
    v.push((3, 0x03));
    v.push((2, 0xc7));
    v.push((4, 0x0b));
    v.push((4, 0x1e));
    v.push((0, 0xae));
    assert(v@ =~= seq![(1u16, 0x00u8), (3, 0x80), (0, 0x03), (1, 0x00), (3, 0x03), (2, 0xc7), (4, 0x0b), (4, 0x1e), (0, 0xae)]);
    v
}

/// The chip works when the test byte comes back in loopback mode; it is
/// then put in normal mode by writing 0x0f to register 4.
pub fn loopback_ok(echoed: u8) -> (res: bool)
    ensures
        res == (echoed == 0xae),
{
    echoed == 0xae
}

/// Whether the line status register says a byte has been received.
pub fn is_received_data(line_status: u8) -> (res: bool)
    ensures
        res == (line_status % 2 == 1),
{
    assert(line_status & 0x01 != 0 <==> line_status % 2 == 1) by (bit_vector);
    line_status & 0x01 != 0
}

/// Whether the line status register says the transmitter can take a byte.
pub fn is_transmit_empty(line_status: u8) -> (res: bool)
    ensures
        res == ((line_status / 32) % 2 == 1),
{
    assert(line_status & 0x20 != 0 <==> (line_status / 32) % 2 == 1) by (bit_vector);
    line_status & 0x20 != 0
}

} // verus!
