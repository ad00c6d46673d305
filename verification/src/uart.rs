//! Console transmitter.
//!
//! The console is a polled serial engine that sends one byte at a time. Its
//! registers are memory mapped and out of reach of this crate; the driver
//! here says which registers to write, with what, and how to read the status
//! word. The caller waits until the engine is idle and then makes the writes
//! in order. Receiving is not part of the driver.

use vstd::prelude::*;

verus! {

/// Physical address of the console's register block.
pub const UART_BASE_PHYS: usize = 0x99_4000;

/// Offset of the status register.
pub const SE_GENI_STATUS: usize = 0x40;

/// Status bit that is set while a command is being carried out.
pub const SE_GENI_CMD_ACTIVE: u32 = 0x1;

/// Offset of the register that takes the length of a transmission.
pub const SE_UART_TX_TRANS_LEN: usize = 0x270;

/// Offset of the command register.
pub const SE_GENI_M_CMD0: usize = 0x600;

/// Opcode of the command that starts a transmission.
pub const UART_START_TX: u32 = 0x1;

/// Position of the opcode in a command word.
pub const M_OPCODE_SHIFT: u32 = 27;

/// Offset of the transmit queue.
pub const SE_GENI_TX_FIFON: usize = 0x700;

/// One write of a 32-bit device register.
#[derive(Clone, Copy, Debug, PartialEq, Eq, Structural)]
pub struct MmioWrite {
    pub address: usize,
    pub value: u32,
}

/// The serial engine whose register block starts at `base`.
pub struct QcomUART {
    base: usize,
}

impl View for QcomUART {
    type V = usize;

    closed spec fn view(&self) -> usize {
        self.base
    }
}

/// The writes that announce a transmission of one byte to the engine at
/// `base`: its length, then the start command.
pub open spec fn setup_writes(base: usize) -> Seq<MmioWrite> {
    seq![
        MmioWrite { address: (base + SE_UART_TX_TRANS_LEN) as usize, value: 1 },
        MmioWrite { address: (base + SE_GENI_M_CMD0) as usize, value: 0x0800_0000 },
    ]
}

/// The writes that send byte `c` through the engine at `base`: the
/// announcement of the transmission, then the byte into the transmit queue.
pub open spec fn send_writes(base: usize, c: u8) -> Seq<MmioWrite> {
    setup_writes(base).push(
        MmioWrite { address: (base + SE_GENI_TX_FIFON) as usize, value: c as u32 },
    )
}

impl QcomUART {
    #[verifier::type_invariant]
    spec fn registers_addressable(self) -> bool {
        self.base + SE_GENI_TX_FIFON <= usize::MAX
    }

    /// The engine at `base`. Its registers have to lie in the address space.
    pub fn new(base: usize) -> (uart: QcomUART)
        requires
            base + SE_GENI_TX_FIFON <= usize::MAX,
        ensures
            uart@ == base,
    {
        QcomUART { base }
    }

    /// Address of the status register.
    pub fn status_register(&self) -> (address: usize)
        ensures
            address == self@ + SE_GENI_STATUS,
    {
        proof {
            use_type_invariant(self);
        }
        self.base + SE_GENI_STATUS
    }

    /// Whether the status word `status` says that the engine is carrying out
    /// a command, so that a byte cannot be sent yet.
    pub fn is_busy(&self, status: u32) -> (busy: bool)
        ensures
            busy == (status & SE_GENI_CMD_ACTIVE == 1),
    {
        (status & SE_GENI_CMD_ACTIVE) == 1
    }

    /// The writes that announce a transmission of one byte.
    pub fn setup_tx(&self) -> (writes: [MmioWrite; 2])
        ensures
            writes@ == setup_writes(self@),
    {
        proof {
            use_type_invariant(self);
        }
        assert(UART_START_TX << M_OPCODE_SHIFT == 0x0800_0000) by (bit_vector);
        let writes: [MmioWrite; 2] = [
            MmioWrite { address: self.base + SE_UART_TX_TRANS_LEN, value: 1 },
            MmioWrite { address: self.base + SE_GENI_M_CMD0, value: UART_START_TX << M_OPCODE_SHIFT },
        ];
        assert(writes@ =~= setup_writes(self@));
        writes
    }

    /// The writes that send byte `c`, to be made in order once the engine is
    /// idle.
    pub fn putchar(&self, c: u8) -> (writes: [MmioWrite; 3])
        ensures
            writes@ == send_writes(self@, c),
    {
        proof {
            use_type_invariant(self);
        }
        let setup = self.setup_tx();
        let writes: [MmioWrite; 3] = [
            setup[0],
            setup[1],
            MmioWrite { address: self.base + SE_GENI_TX_FIFON, value: c as u32 },
        ];
        assert(writes@ =~= send_writes(self@, c));
        writes
    }

    /// Takes a received byte, where the driver receives; see
    /// [`QcomUART::receives`]. It writes no register and leaves the engine
    /// as it is.
    pub fn getchar(&mut self) -> (c: Option<u8>)
        requires
            QcomUART::receives(),
        ensures
            final(self)@ == old(self)@,
    {
        None
    }

    /// Whether this driver receives. It drives the engine as a transmitter
    /// only and sets up no receive path, so there is no call of
    /// [`QcomUART::getchar`] or [`console_getchar`] that it can answer.
    pub open spec fn receives() -> bool {
        false
    }
}

/// The writes that send byte `c` to the console.
pub fn console_putchar(c: u8) -> (writes: [MmioWrite; 3])
    ensures
        writes@ == send_writes(UART_BASE_PHYS, c),
{
    QcomUART::new(UART_BASE_PHYS).putchar(c)
}

/// Takes a byte received from the console, where the driver receives; see
/// [`QcomUART::receives`].
pub fn console_getchar() -> (c: Option<u8>)
    requires
        QcomUART::receives(),
{
    let mut uart = QcomUART::new(UART_BASE_PHYS);
    uart.getchar()
}

} // verus!
