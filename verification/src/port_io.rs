//! The two hardware ports besides the display: the control port whose one
//! write ends the machine with a status, and the serial port that carries
//! diagnostic text out of it.

use vstd::prelude::*;
use vstd::string::StringSliceAdditionalSpecFns;

verus! {

/// The port that the hosting machine watches for the exit signal.
pub const EXIT_PORT: u16 = 0xf4;

/// The two outcomes that a run can end with.
#[derive(Debug, Clone, Copy, PartialEq, Eq, Structural)]
pub enum QemuExitCode {
    Success,
    Failed,
}

impl QemuExitCode {
    /// The value that stands for the outcome on the control port.
    pub open spec fn spec_code(self) -> u32 {
        match self {
            QemuExitCode::Success => 0x10,
            QemuExitCode::Failed => 0x11,
        }
    }

    /// The value that stands for the outcome on the control port.
    #[verifier::when_used_as_spec(spec_code)]
    pub fn code(self) -> (value: u32)
        ensures
            value == self.spec_code(),
    {
        match self {
            QemuExitCode::Success => 0x10,
            QemuExitCode::Failed => 0x11,
        }
    }
}

/// One write of a 32-bit value to a port.
#[derive(Debug, Clone, Copy, PartialEq, Eq, Structural)]
pub struct PortWrite {
    pub port: u16,
    pub value: u32,
}

/// The one port write that signals `exit_code` to the hosting machine.
pub open spec fn exit_signal(exit_code: QemuExitCode) -> PortWrite {
    PortWrite { port: EXIT_PORT, value: exit_code.spec_code() }
}

/// The exit signal for `exit_code`: exactly one write, of the outcome's
/// value, to the control port. Performing the write does not halt the
/// caller by itself.
pub fn exit_qemu(exit_code: QemuExitCode) -> (signal: PortWrite)
    ensures
        signal == exit_signal(exit_code),
{
    PortWrite { port: EXIT_PORT, value: exit_code.code() }
}

/// Different outcomes are signalled by different values on the same port.
pub proof fn lemma_exit_signals_distinct(a: QemuExitCode, b: QemuExitCode)
    requires
        a != b,
    ensures
        exit_signal(a).value != exit_signal(b).value,
        exit_signal(a).port == exit_signal(b).port,
{
}

/// The diagnostic channel as a mathematical value: whether the serial
/// device has been configured, and the bytes handed to the channel that
/// the device has yet to transmit, oldest first.
pub struct ChannelState {
    pub configured: bool,
    pub pending: Seq<u8>,
}

impl ChannelState {
    /// The state of a new channel: the device not configured, nothing to
    /// transmit.
    pub open spec fn fresh() -> ChannelState {
        ChannelState { configured: false, pending: Seq::empty() }
    }

    /// The state after a request to configure the device.
    pub open spec fn init(self) -> ChannelState {
        ChannelState { configured: true, ..self }
    }

    /// Whether a request to configure the device, made in this state, has
    /// the device configured.
    pub open spec fn init_configures(self) -> bool {
        !self.configured
    }

    /// The state after `bytes` were handed to the channel.
    pub open spec fn write(self, bytes: Seq<u8>) -> ChannelState {
        ChannelState { pending: self.pending + bytes, ..self }
    }

    /// The state after the pending bytes were taken for transmission.
    pub open spec fn drained(self) -> ChannelState {
        ChannelState { pending: Seq::empty(), ..self }
    }
}

/// The diagnostic channel: a byte sink in front of the serial device. It
/// passes bytes on verbatim and in order, and has the device configured
/// once.
pub struct DiagnosticChannel {
    configured: bool,
    pending: Vec<u8>,
}

impl View for DiagnosticChannel {
    type V = ChannelState;

    closed spec fn view(&self) -> ChannelState {
        ChannelState { configured: self.configured, pending: self.pending@ }
    }
}

impl DiagnosticChannel {
    /// A channel whose device is not configured yet, with nothing to
    /// transmit.
    pub fn new() -> (channel: DiagnosticChannel)
        ensures
            channel@ == ChannelState::fresh(),
    {
        DiagnosticChannel { configured: false, pending: Vec::new() }
    }

    /// Asks for the device to be configured. Returns whether the caller has
    /// to configure it now: `true` on the first call, `false` ever after.
    pub fn init(&mut self) -> (configure: bool)
        ensures
            configure == old(self)@.init_configures(),
            final(self)@ == old(self)@.init(),
    {
        let configure = !self.configured;
        self.configured = true;
        configure
    }

    /// Hands `bytes` to the channel, verbatim and in order.
    pub fn write(&mut self, bytes: &[u8])
        ensures
            final(self)@ == old(self)@.write(bytes@),
    {
        let ghost before = self.pending@;
        let mut i: usize = 0;
        while i < bytes.len()
            invariant
                i <= bytes@.len(),
                self.configured == old(self).configured,
                self.pending@ == before + bytes@.take(i as int),
            decreases bytes@.len() - i,
        {
            self.pending.push(bytes[i]);
            assert(bytes@.take(i + 1) =~= bytes@.take(i as int).push(bytes@[i as int]));
            i += 1;
        }
        assert(bytes@.take(i as int) =~= bytes@);
    }

    /// Takes the bytes that are waiting for transmission, oldest first, and
    /// leaves none behind.
    pub fn take_pending(&mut self) -> (bytes: Vec<u8>)
        ensures
            bytes@ == old(self)@.pending,
            final(self)@ == old(self)@.drained(),
    {
        let mut bytes: Vec<u8> = Vec::new();
        core::mem::swap(&mut bytes, &mut self.pending);
        bytes
    }
}

/// Sends `text` over the diagnostic channel: its bytes, unchanged.
pub fn print_out(channel: &mut DiagnosticChannel, text: &str)
    ensures
        final(channel)@ == old(channel)@.write(text.spec_bytes()),
{
    channel.write(text.as_bytes());
}

/// Configuring the device again changes nothing: after one request, a
/// second one finds the device configured and leaves the channel as the
/// first left it.
pub proof fn lemma_init_idempotent(state: ChannelState)
    ensures
        !state.init().init_configures(),
        state.init().init() == state.init(),
{
}

} // verus!
