use lazuli::serial::{ChannelStatus, CommControl, ControllerState, Interface, Poll, Status};

fn controller() -> ControllerState {
    ControllerState {
        analog_x: 0x80,
        analog_y: 0x7F,
        analog_sub_x: 0x10,
        analog_sub_y: 0x20,
        analog_trigger_left: 0x30,
        analog_trigger_right: 0x40,
        pad_left: false,
        pad_right: true,
        pad_down: false,
        pad_up: false,
        trigger_z: false,
        trigger_right: false,
        trigger_left: false,
        button_a: true,
        button_b: false,
        button_x: false,
        button_y: false,
        button_start: true,
    }
}

#[test]
fn status_channels_are_six_bit_fields() {
    let mut s = Status(0);
    s.set_channel(0, ChannelStatus(0x3F));
    assert_eq!(s.0, 0x3F00_0000);
    s.set_channel(3, ChannelStatus(0x21));
    assert_eq!(s.0, 0x3F00_0021);
    assert_eq!(s.channel(0).0, 0x3F);
    assert_eq!(s.channel(3).0, 0x21);
    assert_eq!(s.channel(1).0, 0);
    s.set_channel(1, ChannelStatus(0xFF));
    assert_eq!(s.channel(1).0, 0x3F);
    assert!(!Status(0).copy_buffers());
    assert!(Status(0x8000_0000).copy_buffers());
}

#[test]
fn poll_fills_channel_input() {
    let mut si = Interface::new();
    si.poll = Poll(1 << 4);
    si.poll_controller(0, Some(controller()));
    assert_eq!(si.channel_input[0].high, 0x1102_807F);
    assert_eq!(si.channel_input[0].low, 0x1020_3040);
    assert!(si.status.channel(0).input_ready());
    assert!(si.comm_control.read_interrupt());
}

#[test]
fn poll_of_disabled_port_does_nothing() {
    let mut si = Interface::new();
    si.poll_controller(1, Some(controller()));
    assert_eq!(si.channel_input[1].high, 0);
    assert!(!si.comm_control.read_interrupt());
    si.poll = Poll(1 << 5);
    si.poll_controller(1, None);
    assert_eq!(si.channel_input[1].high, 0);
}

#[test]
fn commands_answer_in_buffer() {
    let mut si = Interface::new();
    si.buffer[0] = 0x00;
    si.process_cmd(0, None);
    assert_eq!(&si.buffer[..3], &[0x09, 0x00, 0x00]);
    si.buffer[0] = 0x41;
    si.buffer[10] = 0x55;
    si.process_cmd(0, None);
    assert_eq!(&si.buffer[..11], &[0, 0, 0x80, 0x80, 0x80, 0x80, 0, 0, 0, 0, 0x55]);
    si.buffer[0] = 0x42;
    si.buffer[2] = 0x11;
    si.process_cmd(0, None);
    assert_eq!(&si.buffer[..3], &[0, 0, 0x80]);
}

#[test]
fn comm_control_write_clears_written_interrupts() {
    let mut si = Interface::new();
    si.comm_control = CommControl(0x9000_0000);
    let start = si.write_comm_control(CommControl(0x1000_0001 | 0x0000_0006));
    assert!(start);
    assert!(!si.comm_control.read_interrupt());
    assert!(si.comm_control.transfer_interrupt());
    assert_eq!(si.comm_control.channel(), 3);
    assert!(si.comm_control.transfer_start());
}

#[test]
fn transfer_runs_command_on_channel() {
    let mut si = Interface::new();
    si.poll = Poll(1 << 6);
    si.comm_control = CommControl(0x0000_0005);
    si.buffer[0] = 0x40;
    let controllers = [None, None, Some(controller()), None];
    si.do_transfer(&controllers);
    assert_eq!(si.channel_input[2].low, 0x1020_3040);
    assert!(!si.comm_control.transfer_start());
    assert!(si.comm_control.transfer_interrupt());
}

#[test]
fn status_write_copies_dirty_outputs() {
    let mut si = Interface::new();
    si.channel_output[1].data = 0x0000_0000;
    si.channel_output[1].dirty = true;
    si.write_status(Status(0x8000_0000), &[None; 4]);
    assert!(!si.channel_output[1].dirty);
    assert_eq!(&si.buffer[..3], &[0x09, 0x00, 0x00]);
    si.channel_output[2].data = 0x0041_0000;
    si.channel_output[2].dirty = true;
    si.write_status(Status(0), &[None; 4]);
    assert!(si.channel_output[2].dirty);
}

#[test]
fn any_interrupt_needs_mask() {
    let mut si = Interface::new();
    si.comm_control = CommControl(1 << 28);
    assert!(!si.any_interrupt());
    si.comm_control = CommControl((1 << 28) | (1 << 27));
    assert!(si.any_interrupt());
    si.comm_control = CommControl((1 << 31) | (1 << 30));
    assert!(si.any_interrupt());
}

#[test]
fn status_write_runs_channels_in_order() {
    let mut si = Interface::new();
    si.poll = Poll(1 << 7);
    // Channel 0 asks for its origin, channel 3 polls; channel 1 waits for nothing.
    si.channel_output[0] = lazuli::serial::ChannelOutput { data: 0x0041_0000, dirty: true };
    si.channel_output[1] = lazuli::serial::ChannelOutput { data: 0x0000_0000, dirty: false };
    si.channel_output[3] = lazuli::serial::ChannelOutput { data: 0x0040_0302, dirty: true };
    let controllers = [None, None, None, Some(controller())];
    si.write_status(Status(0x8000_0000), &controllers);
    assert!(si.channel_output.iter().all(|c| !c.dirty));
    // The last command's bytes lead the buffer; the origin response's tail stays after them.
    assert_eq!(&si.buffer[..10], &[0x40, 0x03, 0x02, 0x80, 0x80, 0x80, 0, 0, 0, 0]);
    assert_eq!(si.channel_input[3].low, 0x1020_3040);
    assert!(si.status.channel(3).input_ready());
    assert!(!si.status.channel(0).input_ready());
    assert!(si.comm_control.read_interrupt());
}

#[test]
fn set_channel_reads_back_and_keeps_the_rest() {
    let mut s = Status(0x8000_0000 | 0x0102_0304);
    s.set_channel(1, ChannelStatus(0x2A));
    assert_eq!(s.channel(1).0, 0x2A);
    assert_eq!(s.channel(0).0, 0x01);
    assert_eq!(s.channel(2).0, 0x03);
    assert_eq!(s.channel(3).0, 0x04);
    assert!(s.copy_buffers());
}
