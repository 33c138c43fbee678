//! Serial interface (SI): the registers through which the console talks to controllers, and
//! the handling of the commands it sends them.
use vstd::prelude::*;

verus! {

/// Bit `k` of `x`.
pub open spec fn bit(x: u32, k: u32) -> bool {
    (x >> k) & 1 == 1
}

/// `x` with bit `k` set to `v`.
pub open spec fn with_bit(x: u32, k: u32, v: bool) -> u32 {
    if v {
        x | (1u32 << k)
    } else {
        x & !(1u32 << k)
    }
}

/// The `width` bits of `x` from bit `lo` up.
pub open spec fn field(x: u32, lo: u32, width: u32) -> u32 {
    (x >> lo) & !(0xFFFF_FFFFu32 << width)
}

/// `x` with its `width` bits from bit `lo` up replaced by the low bits of `v`.
pub open spec fn with_field(x: u32, lo: u32, width: u32, v: u32) -> u32 {
    (x & !(!(0xFFFF_FFFFu32 << width) << lo)) | ((v & !(0xFFFF_FFFFu32 << width)) << lo)
}

/// Setting a bit changes that bit alone.
pub proof fn law_with_bit(x: u32, k: u32, j: u32, v: bool)
    by (bit_vector)
    requires
        k < 32,
        j < 32,
    ensures
        bit(with_bit(x, k, v), k) == v,
        j != k ==> bit(with_bit(x, k, v), j) == bit(x, j),
{
}

/// Setting a field gives back the (cut) value there, a value that fits the field uncut, and
/// leaves the bits, and any field of the same width, outside it alone.
pub proof fn law_with_field(x: u32, lo: u32, width: u32, v: u32, j: u32, other: u32)
    by (bit_vector)
    requires
        0 < width < 32,
        lo + width <= 32,
        j < 32,
        other + width <= 32,
    ensures
        field(with_field(x, lo, width, v), lo, width) == v & !(0xFFFF_FFFFu32 << width),
        v < (1u32 << width) ==> v & !(0xFFFF_FFFFu32 << width) == v,
        (j < lo || j >= lo + width) ==> bit(with_field(x, lo, width, v), j) == bit(x, j),
        (other + width <= lo || other >= lo + width) ==> field(with_field(x, lo, width, v), other, width) == field(x, other, width),
{
}

/// The mask of six bits.
proof fn lemma_mask6()
    ensures
        !(0xFFFF_FFFFu32 << 6u32) == 0x3F,
        1u32 << 6u32 == 64,
{
    assert(!(0xFFFF_FFFFu32 << 6u32) == 0x3F && 1u32 << 6u32 == 64) by (bit_vector);
}

/// Reads bit `k`.
fn get_bit(x: u32, k: u32) -> (r: bool)
    requires
        k < 32,
    ensures
        r == bit(x, k),
{
    (x >> k) & 1 == 1
}

/// Sets bit `k` to `v`.
fn set_bit(x: u32, k: u32, v: bool) -> (r: u32)
    requires
        k < 32,
    ensures
        r == with_bit(x, k, v),
{
    if v {
        x | (1u32 << k)
    } else {
        x & !(1u32 << k)
    }
}

/// The status of one channel: six flags.
#[derive(Debug, Clone, Copy, PartialEq, Eq, Structural)]
pub struct ChannelStatus(pub u32);

impl ChannelStatus {
    /// A status from its six bits.
    pub fn from_bits(bits: u32) -> (r: ChannelStatus)
        ensures
            r.0 == bits & 0x3F,
    {
        ChannelStatus(bits & 0x3F)
    }

    /// The six bits of this status.
    pub fn to_bits(&self) -> (r: u32)
        ensures
            r == self.0 & 0x3F,
    {
        self.0 & 0x3F
    }

    pub fn underrun(&self) -> (r: bool)
        ensures
            r == bit(self.0, 0),
    {
        get_bit(self.0, 0)
    }

    pub fn overrun(&self) -> (r: bool)
        ensures
            r == bit(self.0, 1),
    {
        get_bit(self.0, 1)
    }

    pub fn collision(&self) -> (r: bool)
        ensures
            r == bit(self.0, 2),
    {
        get_bit(self.0, 2)
    }

    pub fn no_response(&self) -> (r: bool)
        ensures
            r == bit(self.0, 3),
    {
        get_bit(self.0, 3)
    }

    /// Whether the output buffer has not yet been copied.
    pub fn output_not_copied(&self) -> (r: bool)
        ensures
            r == bit(self.0, 4),
    {
        get_bit(self.0, 4)
    }

    /// Whether the input buffer has new data.
    pub fn input_ready(&self) -> (r: bool)
        ensures
            r == bit(self.0, 5),
    {
        get_bit(self.0, 5)
    }

    /// Sets whether the input buffer has new data.
    pub fn set_input_ready(&mut self, v: bool)
        ensures
            final(self).0 == with_bit(old(self).0, 5, v),
    {
        self.0 = set_bit(self.0, 5, v);
    }
}

/// Where the status of channel `n` lies in the status register.
pub open spec fn channel_shift(n: int) -> u32 {
    if n == 0 {
        24
    } else if n == 1 {
        16
    } else if n == 2 {
        8
    } else {
        0
    }
}

/// The status register: the status of each channel, and whether to copy the buffers.
#[derive(Debug, Clone, Copy, PartialEq, Eq, Structural)]
pub struct Status(pub u32);

impl Status {
    /// The status of channel `n`.
    pub fn channel(&self, n: usize) -> (r: ChannelStatus)
        requires
            n < 4,
        ensures
            r.0 == field(self.0, channel_shift(n as int), 6),
    {
        let shift: u32 = if n == 0 {
            24
        } else if n == 1 {
            16
        } else if n == 2 {
            8
        } else {
            0
        };
        proof {
            lemma_mask6();
        }
        ChannelStatus((self.0 >> shift) & 0x3F)
    }

    /// Sets the status of channel `n`.
    pub fn set_channel(&mut self, n: usize, value: ChannelStatus)
        requires
            n < 4,
        ensures
            final(self).0 == with_field(old(self).0, channel_shift(n as int), 6, value.0),
    {
        let shift: u32 = if n == 0 {
            24
        } else if n == 1 {
            16
        } else if n == 2 {
            8
        } else {
            0
        };
        proof {
            lemma_mask6();
        }
        self.0 = (self.0 & !(0x3Fu32 << shift)) | ((value.0 & 0x3F) << shift);
    }

    /// Whether the output buffers are to be copied.
    pub fn copy_buffers(&self) -> (r: bool)
        ensures
            r == bit(self.0, 31),
    {
        get_bit(self.0, 31)
    }
}

/// Device polling configuration.
#[derive(Debug, Clone, Copy, PartialEq, Eq, Structural)]
pub struct Poll(pub u32);

impl Poll {
    /// Whether polling is enabled on port `n`.
    pub fn port_enable_at(&self, n: usize) -> (r: bool)
        requires
            n < 4,
        ensures
            r == bit(self.0, (4 + n) as u32),
    {
        get_bit(self.0, 4 + n as u32)
    }
}

/// The communication control register.
#[derive(Debug, Clone, Copy, PartialEq, Eq, Structural)]
pub struct CommControl(pub u32);

impl CommControl {
    pub fn transfer_start(&self) -> (r: bool)
        ensures
            r == bit(self.0, 0),
    {
        get_bit(self.0, 0)
    }

    /// The channel the transfer is on.
    pub fn channel(&self) -> (r: u32)
        ensures
            r == field(self.0, 1, 2),
            r < 4,
    {
        let bits = self.0;
        let r = (bits >> 1u32) & 3;
        assert(r < 4 && r == (bits >> 1u32) & !(0xFFFF_FFFFu32 << 2u32)) by (bit_vector)
            requires
                r == (bits >> 1u32) & 3,
        ;
        r
    }

    pub fn read_interrupt_mask(&self) -> (r: bool)
        ensures
            r == bit(self.0, 27),
    {
        get_bit(self.0, 27)
    }

    pub fn read_interrupt(&self) -> (r: bool)
        ensures
            r == bit(self.0, 28),
    {
        get_bit(self.0, 28)
    }

    pub fn transfer_interrupt_mask(&self) -> (r: bool)
        ensures
            r == bit(self.0, 30),
    {
        get_bit(self.0, 30)
    }

    pub fn transfer_interrupt(&self) -> (r: bool)
        ensures
            r == bit(self.0, 31),
    {
        get_bit(self.0, 31)
    }
}

/// The mask of the fields that a write of the communication control register copies as
/// written: the transfer start, channel, callback and command enables, lengths, channel
/// enable and number, and the two interrupt masks.
pub const COMM_CONTROL_COPIED: u32 = 0x4F7F_7FC7;

/// A channel's output buffer.
#[derive(Debug, Clone, Copy, PartialEq, Eq, Structural)]
pub struct ChannelOutput {
    pub data: u32,
    pub dirty: bool,
}

/// A channel's input buffer.
#[derive(Debug, Clone, Copy, PartialEq, Eq, Structural)]
pub struct ChannelInput {
    pub low: u32,
    pub high: u32,
}

/// The state of a standard controller.
#[derive(Debug, Clone, Copy, PartialEq, Eq, Structural)]
pub struct ControllerState {
    pub analog_x: u8,
    pub analog_y: u8,
    pub analog_sub_x: u8,
    pub analog_sub_y: u8,
    pub analog_trigger_left: u8,
    pub analog_trigger_right: u8,
    pub pad_left: bool,
    pub pad_right: bool,
    pub pad_down: bool,
    pub pad_up: bool,
    pub trigger_z: bool,
    pub trigger_right: bool,
    pub trigger_left: bool,
    pub button_a: bool,
    pub button_b: bool,
    pub button_x: bool,
    pub button_y: bool,
    pub button_start: bool,
}

/// `1` for `true`, `0` for `false`.
pub open spec fn b2n(b: bool) -> u32 {
    if b {
        1
    } else {
        0
    }
}

/// The high word of a controller's poll response: the analog stick, the pad, the digital
/// triggers and the buttons.
pub open spec fn response_high(c: ControllerState) -> u32 {
    c.analog_y as u32 | (c.analog_x as u32) << 8u32 | b2n(c.pad_left) << 16u32 | b2n(c.pad_right) << 17u32
        | b2n(c.pad_down) << 18u32 | b2n(c.pad_up) << 19u32 | b2n(c.trigger_z) << 20u32 | b2n(
        c.trigger_right,
    ) << 21u32 | b2n(c.trigger_left) << 22u32 | b2n(c.button_a) << 24u32 | b2n(c.button_b) << 25u32
        | b2n(c.button_x) << 26u32 | b2n(c.button_y) << 27u32 | b2n(c.button_start) << 28u32
}

/// The low word of a controller's poll response: the analog triggers and the C stick.
pub open spec fn response_low(c: ControllerState) -> u32 {
    c.analog_trigger_right as u32 | (c.analog_trigger_left as u32) << 8u32 | (c.analog_sub_y as u32) << 16u32
        | (c.analog_sub_x as u32) << 24u32
}

fn flag_bit(b: bool) -> (r: u32)
    ensures
        r == b2n(b),
{
    if b {
        1
    } else {
        0
    }
}

/// The serial interface registers and buffer.
#[derive(Debug, Clone, Copy)]
pub struct Interface {
    pub channel_output: [ChannelOutput; 4],
    pub channel_input: [ChannelInput; 4],
    pub poll: Poll,
    pub comm_control: CommControl,
    pub status: Status,
    pub buffer: [u8; 128],
}

/// The commands a controller understands.
pub open spec fn known_command(cmd: u8) -> bool {
    cmd == 0x00 || cmd == 0x40 || cmd == 0x41 || cmd == 0x42
}

/// The origin (and calibration) response of a standard controller.
pub open spec fn origin_response() -> Seq<u8> {
    seq![0x00u8, 0x00, 0x80, 0x80, 0x80, 0x80, 0x00, 0x00, 0x00, 0x00]
}

/// What commands change: the channels' inputs, the status and communication control
/// registers, and the buffer.
pub struct SerialState {
    pub inputs: Seq<ChannelInput>,
    pub status: u32,
    pub comm: u32,
    pub buffer: Seq<u8>,
}

/// What commands can change of an interface.
pub open spec fn serial_state(i: Interface) -> SerialState {
    SerialState { inputs: i.channel_input@, status: i.status.0, comm: i.comm_control.0, buffer: i.buffer@ }
}

/// The state after polling channel `ch` with polling configuration `poll`: where polling is
/// enabled on the port and a controller is plugged in, its response goes to the channel's
/// input, the channel's status marks its input ready and the read interrupt is raised.
pub open spec fn polled_state(s: SerialState, poll: u32, ch: int, controller: Option<ControllerState>) -> SerialState {
    if bit(poll, (4 + ch) as u32) && controller is Some {
        let c = controller->0;
        let shift = channel_shift(ch);
        SerialState {
            inputs: s.inputs.update(ch, ChannelInput { low: response_low(c), high: response_high(c) }),
            status: with_field(s.status, shift, 6, with_bit(field(s.status, shift, 6), 5, true)),
            comm: with_bit(s.comm, 28, true),
            buffer: s.buffer,
        }
    } else {
        s
    }
}

/// The state after running the command in the buffer for channel `ch`.
pub open spec fn cmd_state(s: SerialState, poll: u32, ch: int, controller: Option<ControllerState>) -> SerialState {
    let cmd = s.buffer[0];
    if cmd == 0x00 {
        SerialState { buffer: seq![0x09u8, 0x00, 0x00] + s.buffer.skip(3), ..s }
    } else if cmd == 0x40 {
        polled_state(s, poll, ch, controller)
    } else if cmd == 0x41 || cmd == 0x42 {
        SerialState { buffer: origin_response() + s.buffer.skip(10), ..s }
    } else {
        s
    }
}

/// The state with the low three bytes of `data`, high first, at the start of the buffer.
pub open spec fn with_data(s: SerialState, data: u32) -> SerialState {
    SerialState {
        buffer: seq![((data >> 16u32) & 0xFF) as u8, ((data >> 8u32) & 0xFF) as u8, (data & 0xFF) as u8] + s.buffer.skip(3),
        ..s
    }
}

/// The state after copying the waiting ones of the first `k` channel outputs: each puts its
/// data in the buffer and runs the command there.
pub open spec fn status_copy(
    s: SerialState,
    outputs: Seq<ChannelOutput>,
    poll: u32,
    controllers: Seq<Option<ControllerState>>,
    k: int,
) -> SerialState
    decreases k,
{
    if k <= 0 {
        s
    } else {
        let prev = status_copy(s, outputs, poll, controllers, k - 1);
        let j = k - 1;
        if outputs[j].dirty {
            cmd_state(with_data(prev, outputs[j].data), poll, j, controllers[j])
        } else {
            prev
        }
    }
}

/// Whether the command of every waiting channel output is one a controller understands.
pub open spec fn commands_known(outputs: Seq<ChannelOutput>) -> bool {
    forall|i: int| 0 <= i < 4 && #[trigger] outputs[i].dirty ==> known_command(((outputs[i].data >> 16u32) & 0xFF) as u8)
}

impl Interface {
    /// The interface after reset: every register and the buffer zero.
    pub fn new() -> (r: Interface)
        ensures
            r.poll.0 == 0,
            r.comm_control.0 == 0,
            r.status.0 == 0,
            forall|i: int| 0 <= i < 4 ==> r.channel_output[i] == (ChannelOutput { data: 0, dirty: false }),
            forall|i: int| 0 <= i < 4 ==> r.channel_input[i] == (ChannelInput { low: 0, high: 0 }),
            forall|i: int| 0 <= i < 128 ==> r.buffer[i] == 0,
    {
        Interface {
            channel_output: [ChannelOutput { data: 0, dirty: false }; 4],
            channel_input: [ChannelInput { low: 0, high: 0 }; 4],
            poll: Poll(0),
            comm_control: CommControl(0),
            status: Status(0),
            buffer: [0u8; 128],
        }
    }

    /// Whether an unmasked read or transfer interrupt is raised.
    pub fn any_interrupt(&self) -> (r: bool)
        ensures
            r == ((bit(self.comm_control.0, 28) && bit(self.comm_control.0, 27)) || (bit(
                self.comm_control.0,
                31,
            ) && bit(self.comm_control.0, 30))),
    {
        let read = self.comm_control.read_interrupt() && self.comm_control.read_interrupt_mask();
        let transfer = self.comm_control.transfer_interrupt() && self.comm_control.transfer_interrupt_mask();
        read || transfer
    }

    /// Answers a poll of `channel` with the state of its controller: where polling is enabled
    /// on the port and a controller is plugged in, its response goes to the channel's input,
    /// the channel's input is marked ready and the read interrupt raised.
    pub fn poll_controller(&mut self, channel: usize, controller: Option<ControllerState>)
        requires
            channel < 4,
        ensures
            serial_state(*final(self)) == polled_state(serial_state(*old(self)), old(self).poll.0, channel as int, controller),
            final(self).channel_output == old(self).channel_output,
            final(self).poll == old(self).poll,
    {
        if !self.poll.port_enable_at(channel) {
            return;
        }
        let c = match controller {
            Some(c) => c,
            None => return,
        };
        let high: u32 = c.analog_y as u32 | (c.analog_x as u32) << 8u32 | flag_bit(c.pad_left) << 16u32
            | flag_bit(c.pad_right) << 17u32 | flag_bit(c.pad_down) << 18u32 | flag_bit(c.pad_up) << 19u32
            | flag_bit(c.trigger_z) << 20u32 | flag_bit(c.trigger_right) << 21u32 | flag_bit(c.trigger_left)
            << 22u32 | flag_bit(c.button_a) << 24u32 | flag_bit(c.button_b) << 25u32 | flag_bit(c.button_x)
            << 26u32 | flag_bit(c.button_y) << 27u32 | flag_bit(c.button_start) << 28u32;
        let low: u32 = c.analog_trigger_right as u32 | (c.analog_trigger_left as u32) << 8u32
            | (c.analog_sub_y as u32) << 16u32 | (c.analog_sub_x as u32) << 24u32;
        self.channel_input[channel] = ChannelInput { low, high };
        let mut status = self.status.channel(channel);
        status.set_input_ready(true);
        self.status.set_channel(channel, status);
        self.comm_control.0 = set_bit(self.comm_control.0, 28, true);
        assert(serial_state(*self) =~= polled_state(serial_state(*old(self)), old(self).poll.0, channel as int, controller));
    }

    /// Runs the command in the buffer for `channel`: an info request answers the controller's
    /// type, a poll polls it, an origin or calibration request answers its neutral state.
    pub fn process_cmd(&mut self, channel: usize, controller: Option<ControllerState>)
        requires
            channel < 4,
            known_command(old(self).buffer[0]),
        ensures
            serial_state(*final(self)) == cmd_state(serial_state(*old(self)), old(self).poll.0, channel as int, controller),
            final(self).channel_output == old(self).channel_output,
            final(self).poll == old(self).poll,
    {
        let cmd = self.buffer[0];
        if cmd == 0x00 {
            self.buffer[0] = 0x09;
            self.buffer[1] = 0x00;
            self.buffer[2] = 0x00;
            assert(self.buffer@ =~= seq![0x09u8, 0x00, 0x00] + old(self).buffer@.skip(3));
        } else if cmd == 0x40 {
            self.poll_controller(channel, controller);
        } else {
            self.buffer[0] = 0x00;
            self.buffer[1] = 0x00;
            self.buffer[2] = 0x80;
            self.buffer[3] = 0x80;
            self.buffer[4] = 0x80;
            self.buffer[5] = 0x80;
            self.buffer[6] = 0x00;
            self.buffer[7] = 0x00;
            self.buffer[8] = 0x00;
            self.buffer[9] = 0x00;
            assert(self.buffer@ =~= origin_response() + old(self).buffer@.skip(10));
        }
        assert(serial_state(*self) =~= cmd_state(serial_state(*old(self)), old(self).poll.0, channel as int, controller));
    }

    /// Writes the communication control register: most fields are copied, a written interrupt
    /// flag clears that interrupt. Gives whether a transfer is to be started.
    pub fn write_comm_control(&mut self, value: CommControl) -> (start: bool)
        ensures
            start == bit(value.0, 0),
            final(self).comm_control.0 == (value.0 & COMM_CONTROL_COPIED) | (if bit(old(self).comm_control.0, 28)
                && !bit(value.0, 28) { 1u32 << 28u32 } else { 0 }) | (if bit(old(self).comm_control.0, 31)
                && !bit(value.0, 31) { 1u32 << 31u32 } else { 0 }) | (old(self).comm_control.0 & 0x2080_8038),
            final(self).channel_output == old(self).channel_output,
            final(self).channel_input == old(self).channel_input,
            final(self).status == old(self).status,
            final(self).buffer == old(self).buffer,
    {
        let old_bits = self.comm_control.0;
        let read = get_bit(old_bits, 28) && !get_bit(value.0, 28);
        let transfer = get_bit(old_bits, 31) && !get_bit(value.0, 31);
        self.comm_control.0 = (value.0 & COMM_CONTROL_COPIED) | (if read { 1u32 << 28u32 } else { 0 }) | (
        if transfer { 1u32 << 31u32 } else { 0 }) | (old_bits & 0x2080_8038);
        get_bit(value.0, 0)
    }

    /// Finishes a transfer: runs the command for the transfer's channel, ends the transfer and
    /// raises the transfer interrupt.
    pub fn do_transfer(&mut self, controllers: &[Option<ControllerState>; 4])
        requires
            known_command(old(self).buffer[0]),
        ensures
            ({
                let ch = field(old(self).comm_control.0, 1, 2) as int;
                let s = cmd_state(serial_state(*old(self)), old(self).poll.0, ch, controllers@[ch]);
                serial_state(*final(self)) == SerialState { comm: with_bit(with_bit(s.comm, 0, false), 31, true), ..s }
            }),
            final(self).channel_output == old(self).channel_output,
            final(self).poll == old(self).poll,
    {
        let channel = self.comm_control.channel() as usize;
        self.process_cmd(channel, controllers[channel]);
        let bits = set_bit(self.comm_control.0, 0, false);
        self.comm_control.0 = set_bit(bits, 31, true);
    }

    /// Writes the status register: where it asks for the buffers to be copied, each channel
    /// whose output is waiting, in order, has its output marked taken, the output's low three
    /// bytes (high first) put in the buffer and the command there run.
    pub fn write_status(&mut self, value: Status, controllers: &[Option<ControllerState>; 4])
        requires
            bit(value.0, 31) ==> commands_known(old(self).channel_output@),
        ensures
            !bit(value.0, 31) ==> *final(self) == *old(self),
            bit(value.0, 31) ==> {
                &&& serial_state(*final(self)) == status_copy(serial_state(*old(self)), old(self).channel_output@, old(self).poll.0, controllers@, 4)
                &&& forall|i: int| 0 <= i < 4 ==> (#[trigger] final(self).channel_output[i]) == (ChannelOutput { dirty: false, ..old(self).channel_output[i] })
                &&& final(self).poll == old(self).poll
            },
    {
        if !value.copy_buffers() {
            return;
        }
        let ghost outputs = self.channel_output@;
        let mut channel: usize = 0;
        while channel < 4
            invariant
                channel <= 4,
                outputs == old(self).channel_output@,
                commands_known(outputs),
                self.poll == old(self).poll,
                serial_state(*self) == status_copy(serial_state(*old(self)), outputs, old(self).poll.0, controllers@, channel as int),
                forall|i: int| 0 <= i < 4 ==> (#[trigger] self.channel_output[i]) == (if i < channel {
                    ChannelOutput { dirty: false, ..outputs[i] }
                } else {
                    outputs[i]
                }),
            decreases 4 - channel,
        {
            if self.channel_output[channel].dirty {
                self.channel_output[channel].dirty = false;
                let data = self.channel_output[channel].data;
                self.buffer[0] = ((data >> 16u32) & 0xFF) as u8;
                self.buffer[1] = ((data >> 8u32) & 0xFF) as u8;
                self.buffer[2] = (data & 0xFF) as u8;
                proof {
                    let prev = status_copy(serial_state(*old(self)), outputs, old(self).poll.0, controllers@, channel as int);
                    assert(self.buffer@ =~= with_data(prev, data).buffer);
                    assert(serial_state(*self) =~= with_data(prev, data));
                }
                self.process_cmd(channel, controllers[channel]);
            }
            channel += 1;
        }
    }
}

} // verus!

verus! {

/// Setting the status of channel `n` to a 6 bit value reads back that value on channel `n`,
/// and leaves the other channels and the buffer copy bit as they were.
pub proof fn law_channel_read_back(status: u32, n: int, m: int, v: u32)
    requires
        0 <= n < 4,
        0 <= m < 4,
        v < 64,
    ensures
        field(with_field(status, channel_shift(n), 6, v), channel_shift(n), 6) == v,
        m != n ==> field(with_field(status, channel_shift(n), 6, v), channel_shift(m), 6) == field(status, channel_shift(m), 6),
        bit(with_field(status, channel_shift(n), 6, v), 31) == bit(status, 31),
{
    lemma_mask6();
    law_with_field(status, channel_shift(n), 6, v, 31, channel_shift(m));
}

} // verus!

verus! {

/// The fields of the two response words, read back.
proof fn lemma_response_fields(
    ay: u32, ax: u32, l: u32, r: u32, d: u32, u: u32, z: u32, tr: u32, tl: u32, a: u32, b: u32, x: u32, y: u32, s: u32,
    atr: u32, atl: u32, sy: u32, sx: u32,
)
    by (bit_vector)
    requires
        ay < 256, ax < 256, atr < 256, atl < 256, sy < 256, sx < 256,
        l <= 1, r <= 1, d <= 1, u <= 1, z <= 1, tr <= 1, tl <= 1, a <= 1, b <= 1, x <= 1, y <= 1, s <= 1,
    ensures
        ({
            let w = ay | ax << 8u32 | l << 16u32 | r << 17u32 | d << 18u32 | u << 19u32 | z << 20u32 | tr << 21u32
                | tl << 22u32 | a << 24u32 | b << 25u32 | x << 26u32 | y << 27u32 | s << 28u32;
            &&& w & 0xFF == ay
            &&& (w >> 8u32) & 0xFF == ax
            &&& (w >> 16u32) & 1 == l
            &&& (w >> 17u32) & 1 == r
            &&& (w >> 18u32) & 1 == d
            &&& (w >> 19u32) & 1 == u
            &&& (w >> 20u32) & 1 == z
            &&& (w >> 21u32) & 1 == tr
            &&& (w >> 22u32) & 1 == tl
            &&& (w >> 23u32) & 1 == 0
            &&& (w >> 24u32) & 1 == a
            &&& (w >> 25u32) & 1 == b
            &&& (w >> 26u32) & 1 == x
            &&& (w >> 27u32) & 1 == y
            &&& (w >> 28u32) & 1 == s
            &&& w >> 29u32 == 0
        }),
        ({
            let v = atr | atl << 8u32 | sy << 16u32 | sx << 24u32;
            &&& v & 0xFF == atr
            &&& (v >> 8u32) & 0xFF == atl
            &&& (v >> 16u32) & 0xFF == sy
            &&& (v >> 24u32) & 0xFF == sx
        }),
{
}

/// Where a controller's state sits in its poll response. The high word holds the main stick
/// (Y in bits 0..8, X in bits 8..16), the pad (left, right, down, up in bits 16..20), Z and
/// the digital triggers (right, left) in bits 20..23, and the buttons A, B, X, Y and Start in
/// bits 24..29; bit 23 and bits 29..32 stay clear. The low word holds the analog triggers
/// (right, then left) and the C stick (Y, then X), a byte each from the bottom.
#[verifier::rlimit(50)]
pub proof fn law_poll_response_layout(c: ControllerState)
    ensures
        response_high(c) & 0xFF == c.analog_y,
        (response_high(c) >> 8u32) & 0xFF == c.analog_x,
        bit(response_high(c), 16) == c.pad_left,
        bit(response_high(c), 17) == c.pad_right,
        bit(response_high(c), 18) == c.pad_down,
        bit(response_high(c), 19) == c.pad_up,
        bit(response_high(c), 20) == c.trigger_z,
        bit(response_high(c), 21) == c.trigger_right,
        bit(response_high(c), 22) == c.trigger_left,
        !bit(response_high(c), 23),
        bit(response_high(c), 24) == c.button_a,
        bit(response_high(c), 25) == c.button_b,
        bit(response_high(c), 26) == c.button_x,
        bit(response_high(c), 27) == c.button_y,
        bit(response_high(c), 28) == c.button_start,
        response_high(c) >> 29u32 == 0,
        response_low(c) & 0xFF == c.analog_trigger_right,
        (response_low(c) >> 8u32) & 0xFF == c.analog_trigger_left,
        (response_low(c) >> 16u32) & 0xFF == c.analog_sub_y,
        (response_low(c) >> 24u32) & 0xFF == c.analog_sub_x,
{
    let w = response_high(c);
    let v = response_low(c);
    assert(forall|k: bool| #[trigger] b2n(k) <= 1 && (b2n(k) == 1 <==> k));
    lemma_response_fields(
        c.analog_y as u32, c.analog_x as u32, b2n(c.pad_left), b2n(c.pad_right), b2n(c.pad_down), b2n(c.pad_up),
        b2n(c.trigger_z), b2n(c.trigger_right), b2n(c.trigger_left), b2n(c.button_a), b2n(c.button_b),
        b2n(c.button_x), b2n(c.button_y), b2n(c.button_start), c.analog_trigger_right as u32,
        c.analog_trigger_left as u32, c.analog_sub_y as u32, c.analog_sub_x as u32,
    );
}

} // verus!
