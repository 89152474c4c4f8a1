use driver_and_task_library::memory;
use driver_and_task_library::{
    Access, Bus, BusState, Function, GPIOPort, Pin, Pull, ReadablePinOptions, RegisterFile,
    UsableBoard,
};

fn board() -> UsableBoard {
    driver_and_task_library::setup_board()
}

#[test]
fn a_fresh_register_file_holds_zero() {
    let registers = RegisterFile::new();
    assert_eq!(registers.peek(0x4002_5400), 0);
    assert_eq!(registers.peek(0), 0);
    assert_eq!(registers.peek(u32::MAX), 0);
    assert!(registers.journal().is_empty());
}

#[test]
fn a_write_is_read_back_and_journalled() {
    let mut registers = RegisterFile::new();
    memory::write(&mut registers, 0x4002_5400, 0xAB);
    assert_eq!(memory::read(&mut registers, 0x4002_5400), 0xAB);
    assert_eq!(memory::read(&mut registers, 0x4002_5404), 0);
    assert_eq!(
        registers.journal().as_slice(),
        &[
            Access::Write { address: 0x4002_5400, word: 0xAB },
            Access::Read { address: 0x4002_5400 },
            Access::Read { address: 0x4002_5404 },
        ]
    );
}

#[test]
fn a_later_write_replaces_an_earlier_one() {
    let mut registers = RegisterFile::new();
    registers.write(0x10, 1);
    registers.write(0x20, 2);
    registers.write(0x10, 3);
    assert_eq!(registers.peek(0x10), 3);
    assert_eq!(registers.peek(0x20), 2);
    registers.write(0x20, 4);
    assert_eq!(registers.peek(0x10), 3);
    assert_eq!(registers.peek(0x20), 4);
}

#[test]
fn peek_and_poke_leave_no_trace() {
    let mut registers = RegisterFile::new();
    registers.poke(0x4000_C018, 0x20);
    assert_eq!(registers.peek(0x4000_C018), 0x20);
    assert!(registers.journal().is_empty());
    assert_eq!(registers.read(0x4000_C018), 0x20);
    assert_eq!(registers.journal().as_slice(), &[Access::Read { address: 0x4000_C018 }]);
}

#[test]
fn a_no_op_is_journalled_and_changes_no_word() {
    let mut registers = RegisterFile::new();
    registers.poke(0x30, 7);
    registers.no_op();
    registers.no_op();
    assert_eq!(registers.journal().as_slice(), &[Access::NoOp, Access::NoOp]);
    assert_eq!(registers.peek(0x30), 7);
}

#[test]
fn released_inputs_settle_at_their_pull_level() {
    let mut registers = RegisterFile::new();
    let port = GPIOPort::B;
    // pins 0 and 1 are outputs; pin 2 is pulled up, pin 3 pulled down, pin 4 has neither
    registers.poke(port.direction(), 0b0_0011);
    registers.poke(port.pull_up_select(), 0b0_0101);
    registers.poke(port.pull_down_select(), 0b0_1010);
    let pins = [Pin::Zero, Pin::One, Pin::Two, Pin::Three, Pin::Four];
    let data = port.data(&pins);
    registers.poke(data, 0b1_1010);
    registers.release_inputs(port, pins);
    // outputs 0 and 1 keep 0 and 1; pin 2 goes high, pin 3 goes low, pin 4 stays high
    assert_eq!(registers.peek(data), 0b1_0110);
    assert!(registers.journal().is_empty());
}

#[test]
fn undriven_inputs_with_pull_up_read_high() {
    let mut registers = RegisterFile::new();
    let port_f = board().setup_gpio_port(&mut registers, GPIOPort::F);
    let switches = port_f
        .setup_readable_pins(
            &mut registers,
            [Pin::Zero, Pin::Four],
            ReadablePinOptions { function: Function::Digital, pull: Pull::Up },
        )
        .unwrap();
    registers.release_inputs(GPIOPort::F, [Pin::Zero, Pin::Four]);
    assert_eq!(switches.read_all(&mut registers), [true, true]);
}

#[test]
fn undriven_inputs_with_pull_down_read_low() {
    let mut registers = RegisterFile::new();
    let port_f = board().setup_gpio_port(&mut registers, GPIOPort::F);
    let pins = [Pin::Zero, Pin::Four];
    registers.poke(GPIOPort::F.data(&pins), 0b1_0001);
    let switches = port_f
        .setup_readable_pins(
            &mut registers,
            pins,
            ReadablePinOptions { function: Function::Digital, pull: Pull::Down },
        )
        .unwrap();
    registers.release_inputs(GPIOPort::F, pins);
    assert_eq!(switches.read_all(&mut registers), [false, false]);
}

struct Counting {
    reads: u32,
    writes: Vec<(u32, u32)>,
}

impl Bus for Counting {
    // The model of the bus exists for the verifier alone and is never asked for when the program
    // runs.
    fn view(&self) -> BusState {
        unreachable!()
    }

    fn read(&mut self, _address: u32) -> u32 {
        self.reads += 1;
        self.reads
    }

    fn write(&mut self, address: u32, word: u32) {
        self.writes.push((address, word));
    }

    fn no_op(&mut self) {}
}

#[test]
fn a_bus_of_the_callers_own_can_be_plugged_in() {
    let mut bus = Counting { reads: 0, writes: Vec::new() };
    assert_eq!(memory::read(&mut bus, 0), 1);
    assert_eq!(memory::read(&mut bus, 0), 2);
    memory::set_bits(&mut bus, 0x40, &[4]);
    assert_eq!(bus.writes, vec![(0x40, 3 | 0x10)]);
}
