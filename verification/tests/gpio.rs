use driver_and_task_library::gpio::pins::{rejection, setup_readable_pins, setup_writable_pins};
use driver_and_task_library::gpio::ports::setup_gpio_port;
use driver_and_task_library::{
    Access, ConfigError, Function, GPIOPort, GPIOPortOptions, Pin, Pull, ReadablePinOptions,
    RegisterFile, WritablePinOptions, H, L,
};

const PORTS: [GPIOPort; 6] =
    [GPIOPort::A, GPIOPort::B, GPIOPort::C, GPIOPort::D, GPIOPort::E, GPIOPort::F];

const PINS: [Pin; 8] = [
    Pin::Zero,
    Pin::One,
    Pin::Two,
    Pin::Three,
    Pin::Four,
    Pin::Five,
    Pin::Six,
    Pin::Seven,
];

const FUNCTIONS: [Function; 6] = [
    Function::Analog,
    Function::Digital,
    Function::CAN,
    Function::I2C,
    Function::PWM,
    Function::UART,
];

const PULLS: [Pull; 3] = [Pull::Down, Pull::Up, Pull::Neither];

fn configuration_registers(port: GPIOPort) -> [u32; 9] {
    [
        port.lock(),
        port.commit(),
        port.direction(),
        port.alternate_function_select(),
        port.pull_up_select(),
        port.pull_down_select(),
        port.analog_mode_select(),
        port.port_control(),
        port.digital_enable(),
    ]
}

fn digital() -> WritablePinOptions {
    WritablePinOptions { function: Function::Digital }
}

#[test]
fn the_ports_start_where_the_data_sheet_puts_them() {
    assert_eq!(GPIOPort::A.base(), 0x4000_4000);
    assert_eq!(GPIOPort::B.base(), 0x4000_5000);
    assert_eq!(GPIOPort::C.base(), 0x4000_6000);
    assert_eq!(GPIOPort::D.base(), 0x4000_7000);
    assert_eq!(GPIOPort::E.base(), 0x4002_4000);
    assert_eq!(GPIOPort::F.base(), 0x4002_5000);
}

#[test]
fn each_register_lies_at_its_offset_from_the_base() {
    for port in PORTS {
        let base = port.base();
        assert_eq!(port.direction(), base + 0x400);
        assert_eq!(port.alternate_function_select(), base + 0x420);
        assert_eq!(port.pull_up_select(), base + 0x510);
        assert_eq!(port.pull_down_select(), base + 0x514);
        assert_eq!(port.digital_enable(), base + 0x51C);
        assert_eq!(port.lock(), base + 0x520);
        assert_eq!(port.commit(), base + 0x524);
        assert_eq!(port.analog_mode_select(), base + 0x528);
        assert_eq!(port.port_control(), base + 0x52C);
    }
}

#[test]
fn no_two_registers_of_a_port_share_an_address() {
    for port in PORTS {
        let registers = configuration_registers(port);
        for (i, first) in registers.iter().enumerate() {
            for second in &registers[i + 1..] {
                assert_ne!(first, second);
            }
        }
    }
}

#[test]
fn the_data_alias_depends_on_the_pins_that_are_grouped() {
    assert_eq!(GPIOPort::F.data(&[]), 0x4002_5000);
    assert_eq!(GPIOPort::F.data(&[Pin::Zero]), 0x4002_5004);
    assert_eq!(GPIOPort::F.data(&[Pin::Seven]), 0x4002_5200);
    assert_eq!(GPIOPort::F.data(&[Pin::One, Pin::Three, Pin::Two]), 0x4002_5038);
    assert_eq!(GPIOPort::F.data(&[Pin::Zero, Pin::Four]), 0x4002_5044);
    assert_eq!(GPIOPort::A.data(&PINS), 0x4000_43FC);
    assert_eq!(GPIOPort::A.data(&[Pin::Two, Pin::Two]), 0x4000_4010);
}

#[test]
fn each_port_has_its_clock_gate_bit() {
    let bits: Vec<u32> = PORTS.iter().map(|port| port.run_mode_clock_gate_control()).collect();
    assert_eq!(bits, vec![0, 1, 2, 3, 4, 5]);
}

#[test]
fn setting_up_a_port_opens_its_clock_gate_alone() {
    let mut registers = RegisterFile::new();
    registers.poke(0x400F_E608, 0b1);
    setup_gpio_port(&mut registers, GPIOPort::F, GPIOPortOptions);
    assert_eq!(registers.peek(0x400F_E608), 0b10_0001);
    assert_eq!(
        registers.journal().as_slice(),
        &[
            Access::Read { address: 0x400F_E608 },
            Access::Write { address: 0x400F_E608, word: 0b10_0001 },
        ]
    );
}

#[test]
fn the_mux_codes_are_those_of_the_data_sheet() {
    assert_eq!(Function::Analog.mux_code(), None);
    assert_eq!(Function::Digital.mux_code(), Some(0));
    assert_eq!(Function::CAN.mux_code(), Some(8));
    assert_eq!(Function::I2C.mux_code(), Some(3));
    assert_eq!(Function::PWM.mux_code(), Some(5));
    assert_eq!(Function::UART.mux_code(), Some(1));
}

#[test]
fn only_analog_and_digital_are_no_alternate_functions() {
    assert!(!Function::Analog.is_alternate());
    assert!(!Function::Digital.is_alternate());
    assert!(Function::CAN.is_alternate());
    assert!(Function::I2C.is_alternate());
    assert!(Function::PWM.is_alternate());
    assert!(Function::UART.is_alternate());
}

#[test]
fn the_digital_buffer_is_defined_for_analog_digital_and_uart() {
    assert_eq!(Function::Analog.digital_enable(), Some(false));
    assert_eq!(Function::Digital.digital_enable(), Some(true));
    assert_eq!(Function::UART.digital_enable(), Some(true));
    assert_eq!(Function::CAN.digital_enable(), None);
    assert_eq!(Function::I2C.digital_enable(), None);
    assert_eq!(Function::PWM.digital_enable(), None);
}

#[test]
fn the_rejected_combinations_are_exactly_these() {
    for function in FUNCTIONS {
        for pull in PULLS {
            let expected = match (function, pull) {
                (Function::CAN | Function::I2C | Function::PWM, _) => {
                    Some(ConfigError::UnsupportedFunction)
                }
                (Function::Analog, Pull::Up | Pull::Down) => Some(ConfigError::PullOnAnalog),
                _ => None,
            };
            assert_eq!(rejection(function, pull), expected);
        }
    }
}

#[test]
fn a_rejected_request_writes_nothing() {
    for function in FUNCTIONS {
        for pull in PULLS {
            let mut registers = RegisterFile::new();
            let result = setup_readable_pins(
                &mut registers,
                GPIOPort::D,
                [Pin::Two],
                ReadablePinOptions { function, pull },
            );
            match rejection(function, pull) {
                Some(error) => {
                    assert_eq!(result.err(), Some(error));
                    assert!(registers.journal().is_empty());
                }
                None => {
                    assert!(result.is_ok());
                    assert!(!registers.journal().is_empty());
                }
            }
        }
    }
}

#[test]
fn an_unsupported_function_is_refused_for_outputs_too() {
    for function in [Function::CAN, Function::I2C, Function::PWM] {
        let mut registers = RegisterFile::new();
        let result = setup_writable_pins(
            &mut registers,
            GPIOPort::B,
            [Pin::Four, Pin::Five],
            WritablePinOptions { function },
        );
        assert_eq!(result.err(), Some(ConfigError::UnsupportedFunction));
        assert!(registers.journal().is_empty());
    }
}

#[test]
fn a_pull_on_an_analog_pin_is_refused() {
    let mut registers = RegisterFile::new();
    let result = setup_readable_pins(
        &mut registers,
        GPIOPort::E,
        [Pin::Three],
        ReadablePinOptions { function: Function::Analog, pull: Pull::Up },
    );
    assert_eq!(result.err(), Some(ConfigError::PullOnAnalog));
    assert!(registers.journal().is_empty());
}

#[test]
fn the_registers_are_written_in_the_order_of_the_protocol() {
    let mut registers = RegisterFile::new();
    let port = GPIOPort::F;
    setup_readable_pins(
        &mut registers,
        port,
        [Pin::Four],
        ReadablePinOptions { function: Function::Digital, pull: Pull::Up },
    )
    .unwrap();
    let base = 0x4002_5000;
    assert_eq!(
        registers.journal().as_slice(),
        &[
            Access::Write { address: base + 0x520, word: 0x4C4F_434B },
            Access::Read { address: base + 0x524 },
            Access::Write { address: base + 0x524, word: 0x10 },
            Access::Read { address: base + 0x400 },
            Access::Write { address: base + 0x400, word: 0 },
            Access::Read { address: base + 0x420 },
            Access::Write { address: base + 0x420, word: 0 },
            Access::Read { address: base + 0x514 },
            Access::Write { address: base + 0x514, word: 0 },
            Access::Read { address: base + 0x510 },
            Access::Write { address: base + 0x510, word: 0x10 },
            Access::Read { address: base + 0x528 },
            Access::Write { address: base + 0x528, word: 0 },
            Access::Read { address: base + 0x52C },
            Access::Write { address: base + 0x52C, word: 0 },
            Access::Read { address: base + 0x51C },
            Access::Write { address: base + 0x51C, word: 0x10 },
            Access::Write { address: base + 0x520, word: 0 },
        ]
    );
}

#[test]
fn an_analog_pin_gets_no_mux_code() {
    let mut registers = RegisterFile::new();
    let port = GPIOPort::E;
    registers.poke(port.port_control(), 0x1234_5678);
    registers.poke(port.digital_enable(), 0xFF);
    setup_readable_pins(
        &mut registers,
        port,
        [Pin::Three],
        ReadablePinOptions { function: Function::Analog, pull: Pull::Neither },
    )
    .unwrap();
    assert_eq!(registers.peek(port.port_control()), 0x1234_5678);
    assert!(!registers
        .journal()
        .iter()
        .any(|access| matches!(access, Access::Read { address } | Access::Write { address, .. } if *address == port.port_control())));
    assert_eq!(registers.peek(port.analog_mode_select()), 0b1000);
    assert_eq!(registers.peek(port.digital_enable()), 0xF7);
    assert_eq!(registers.peek(port.alternate_function_select()), 0);
}

#[test]
fn a_uart_pin_gets_its_alternate_function_and_mux_code() {
    let mut registers = RegisterFile::new();
    let port = GPIOPort::A;
    registers.poke(port.port_control(), 0xFFFF_FFFF);
    registers.poke(port.analog_mode_select(), 0xFF);
    setup_writable_pins(
        &mut registers,
        port,
        [Pin::One],
        WritablePinOptions { function: Function::UART },
    )
    .unwrap();
    assert_eq!(registers.peek(port.port_control()), 0xFFFF_FF1F);
    assert_eq!(registers.peek(port.alternate_function_select()), 0b10);
    assert_eq!(registers.peek(port.digital_enable()), 0b10);
    assert_eq!(registers.peek(port.analog_mode_select()), 0xFD);
    assert_eq!(registers.peek(port.direction()), 0b10);
    assert_eq!(registers.peek(port.commit()), 0b10);
    assert_eq!(registers.peek(port.lock()), 0);
}

#[test]
fn the_mux_code_of_pin_seven_fills_the_top_four_bits_alone() {
    for before in [0u32, 0xFFFF_FFFF, 0x0ABC_DEF5, 0xF600_0000] {
        let mut registers = RegisterFile::new();
        let port = GPIOPort::C;
        registers.poke(port.port_control(), before);
        setup_readable_pins(
            &mut registers,
            port,
            [Pin::Seven],
            ReadablePinOptions { function: Function::UART, pull: Pull::Neither },
        )
        .unwrap();
        let after = registers.peek(port.port_control());
        assert_eq!(after >> 28, 1);
        assert_eq!(after & 0x0FFF_FFFF, before & 0x0FFF_FFFF);
        assert_eq!((after >> 24) & 0xF, (before >> 24) & 0xF);
    }
}

#[test]
fn each_pin_has_its_own_four_bits_of_port_control() {
    for (index, pin) in PINS.iter().enumerate() {
        let mut registers = RegisterFile::new();
        let port = GPIOPort::B;
        registers.poke(port.port_control(), 0xFFFF_FFFF);
        setup_writable_pins(&mut registers, port, [*pin], digital()).unwrap();
        assert_eq!(registers.peek(port.port_control()), !(0xFu32 << (4 * index)));
    }
}

#[test]
fn a_pull_up_switches_the_pull_down_off_and_the_other_way_round() {
    let port = GPIOPort::F;
    let pins = [Pin::Zero, Pin::Four];
    for (pull, up, down) in [
        (Pull::Up, 0xFF, 0xEE),
        (Pull::Down, 0xEE, 0xFF),
        (Pull::Neither, 0xEE, 0xEE),
    ] {
        let mut registers = RegisterFile::new();
        registers.poke(port.pull_up_select(), 0xFF);
        registers.poke(port.pull_down_select(), 0xFF);
        setup_readable_pins(
            &mut registers,
            port,
            pins,
            ReadablePinOptions { function: Function::Digital, pull },
        )
        .unwrap();
        assert_eq!(registers.peek(port.pull_up_select()), up);
        assert_eq!(registers.peek(port.pull_down_select()), down);
    }
}

#[test]
fn the_unwanted_pull_goes_off_before_the_wanted_one_comes_on() {
    let port = GPIOPort::F;
    let mut registers = RegisterFile::new();
    setup_readable_pins(
        &mut registers,
        port,
        [Pin::Zero],
        ReadablePinOptions { function: Function::Digital, pull: Pull::Down },
    )
    .unwrap();
    let writes: Vec<u32> = registers
        .journal()
        .iter()
        .filter_map(|access| match access {
            Access::Write { address, .. }
                if *address == port.pull_up_select() || *address == port.pull_down_select() =>
            {
                Some(*address)
            }
            _ => None,
        })
        .collect();
    assert_eq!(writes, vec![port.pull_up_select(), port.pull_down_select()]);
}

#[test]
fn outputs_get_no_pull_resistor() {
    let port = GPIOPort::D;
    let mut registers = RegisterFile::new();
    registers.poke(port.pull_up_select(), 0b110);
    registers.poke(port.pull_down_select(), 0b011);
    setup_writable_pins(&mut registers, port, [Pin::One], digital()).unwrap();
    assert_eq!(registers.peek(port.pull_up_select()), 0b100);
    assert_eq!(registers.peek(port.pull_down_select()), 0b001);
    assert_eq!(registers.peek(port.direction()), 0b010);
}

#[test]
fn configuring_twice_leaves_the_registers_as_configuring_once() {
    let pins = [Pin::One, Pin::Six, Pin::Seven];
    for port in [GPIOPort::A, GPIOPort::F] {
        for function in [Function::Analog, Function::Digital, Function::UART] {
            for pull in PULLS {
                if rejection(function, pull).is_some() {
                    continue;
                }
                let mut once = RegisterFile::new();
                let mut twice = RegisterFile::new();
                for (i, address) in configuration_registers(port).iter().enumerate() {
                    let word = 0x9E37_79B9u32.wrapping_mul(i as u32 + 1);
                    once.poke(*address, word);
                    twice.poke(*address, word);
                }
                let options = || ReadablePinOptions { function, pull };
                setup_readable_pins(&mut once, port, pins, options()).unwrap();
                setup_readable_pins(&mut twice, port, pins, options()).unwrap();
                setup_readable_pins(&mut twice, port, pins, options()).unwrap();
                for address in configuration_registers(port) {
                    assert_eq!(once.peek(address), twice.peek(address));
                }
                assert_eq!(twice.journal().len(), 2 * once.journal().len());
            }
        }
    }
}

#[test]
fn configuration_leaves_the_bits_of_other_pins_alone() {
    let port = GPIOPort::B;
    let mut registers = RegisterFile::new();
    for address in configuration_registers(port) {
        registers.poke(address, 0xFFFF_FFFF);
    }
    setup_readable_pins(
        &mut registers,
        port,
        [Pin::Two, Pin::Five],
        ReadablePinOptions { function: Function::Digital, pull: Pull::Neither },
    )
    .unwrap();
    let cleared = !0b10_0100u32;
    assert_eq!(registers.peek(port.lock()), 0);
    assert_eq!(registers.peek(port.commit()), 0xFFFF_FFFF);
    assert_eq!(registers.peek(port.direction()), cleared);
    assert_eq!(registers.peek(port.alternate_function_select()), cleared);
    assert_eq!(registers.peek(port.pull_up_select()), cleared);
    assert_eq!(registers.peek(port.pull_down_select()), cleared);
    assert_eq!(registers.peek(port.analog_mode_select()), cleared);
    assert_eq!(registers.peek(port.digital_enable()), 0xFFFF_FFFF);
    assert_eq!(registers.peek(port.port_control()), 0xFF0F_F0FF);
}

#[test]
fn digital_enable_and_analog_mode_are_never_both_on() {
    for function in [Function::Analog, Function::Digital, Function::UART] {
        let port = GPIOPort::E;
        let mut registers = RegisterFile::new();
        registers.poke(port.analog_mode_select(), 0xFF);
        registers.poke(port.digital_enable(), 0xFF);
        setup_readable_pins(
            &mut registers,
            port,
            [Pin::Zero, Pin::Three],
            ReadablePinOptions { function, pull: Pull::Neither },
        )
        .unwrap();
        let both = registers.peek(port.analog_mode_select()) & registers.peek(port.digital_enable());
        assert_eq!(both & 0b1001, 0);
    }
}

#[test]
fn writable_pins_read_back_what_was_written() {
    let mut registers = RegisterFile::new();
    let port_f = setup_gpio_port(&mut registers, GPIOPort::F, GPIOPortOptions);
    let mut pins = port_f
        .setup_writable_pins(&mut registers, [Pin::One, Pin::Two, Pin::Three], digital())
        .unwrap();
    pins.write_all(&mut registers, [true, false, true]);
    assert_eq!(pins.read_all(&mut registers), [true, false, true]);
    assert_eq!(registers.peek(0x4002_5038), 0b1010);
}

#[test]
fn every_pattern_written_to_every_pair_of_pins_is_read_back() {
    for first in PINS {
        for second in PINS {
            if first == second {
                continue;
            }
            for values in [[L, L], [L, H], [H, L], [H, H]] {
                let mut registers = RegisterFile::new();
                registers.poke(GPIOPort::C.data(&[first, second]), 0xA5);
                let mut pins =
                    setup_writable_pins(&mut registers, GPIOPort::C, [first, second], digital())
                        .unwrap();
                pins.write_all(&mut registers, values);
                assert_eq!(pins.read_all(&mut registers), values);
            }
        }
    }
}

#[test]
fn the_order_of_the_pins_is_the_order_of_the_levels() {
    let mut registers = RegisterFile::new();
    let mut rgb_led = setup_writable_pins(
        &mut registers,
        GPIOPort::F,
        [Pin::One, Pin::Three, Pin::Two],
        digital(),
    )
    .unwrap();
    rgb_led.write_all(&mut registers, [H, H, L]);
    assert_eq!(registers.peek(0x4002_5038), 0b1010);
    assert_eq!(rgb_led.read_all(&mut registers), [H, H, L]);
}

#[test]
fn a_group_is_set_cleared_and_toggled_as_a_whole() {
    let mut registers = RegisterFile::new();
    let port = GPIOPort::F;
    let group = [Pin::One, Pin::Two, Pin::Three];
    let data = port.data(&group);
    let mut pins = setup_writable_pins(&mut registers, port, group, digital()).unwrap();
    registers.poke(data, 0b1_0001);
    pins.set_all(&mut registers);
    assert_eq!(registers.peek(data), 0b1_1111);
    pins.clear_all(&mut registers);
    assert_eq!(registers.peek(data), 0b1_0001);
    pins.write_all(&mut registers, [H, L, L]);
    pins.toggle_all(&mut registers);
    assert_eq!(registers.peek(data), 0b1_1101);
    assert_eq!(pins.read_all(&mut registers), [L, H, H]);
}

#[test]
fn update_all_is_one_read_and_one_write() {
    let mut registers = RegisterFile::new();
    let port = GPIOPort::F;
    let group = [Pin::One, Pin::Two, Pin::Three];
    let data = port.data(&group);
    let mut pins = setup_writable_pins(&mut registers, port, group, digital()).unwrap();
    pins.write_all(&mut registers, [H, L, L]);
    let before = registers.journal().len();
    pins.update_all(&mut registers, &|levels: [bool; 3]| [levels[2], levels[0], levels[1]]);
    assert_eq!(pins.read_all(&mut registers), [L, H, L]);
    assert_eq!(
        &registers.journal()[before..before + 2],
        &[Access::Read { address: data }, Access::Write { address: data, word: 0b0100 }]
    );
    assert_eq!(registers.journal().len(), before + 3);
}

#[test]
fn single_pins_are_driven_through_the_groups_data_address() {
    let mut registers = RegisterFile::new();
    let port = GPIOPort::F;
    let group = [Pin::One, Pin::Three];
    let data = port.data(&group);
    let pins = setup_writable_pins(&mut registers, port, group, digital()).unwrap();
    let [mut red, mut green] = pins.pins();
    red.set(&mut registers);
    assert_eq!(registers.peek(data), 0b0010);
    green.toggle(&mut registers);
    assert_eq!(registers.peek(data), 0b1010);
    assert!(red.read(&mut registers));
    red.clear(&mut registers);
    assert_eq!(registers.peek(data), 0b1000);
    assert!(!red.read(&mut registers));
    assert!(green.read(&mut registers));
    assert_eq!(pins.read_all(&mut registers), [L, H]);
}

#[test]
fn readable_pins_are_read_singly_and_together() {
    let mut registers = RegisterFile::new();
    let port = GPIOPort::F;
    let group = [Pin::Zero, Pin::Four];
    let switches = setup_readable_pins(
        &mut registers,
        port,
        group,
        ReadablePinOptions { function: Function::Digital, pull: Pull::Up },
    )
    .unwrap();
    registers.poke(port.data(&group), 0b1_0000);
    assert_eq!(switches.read_all(&mut registers), [L, H]);
    let [sw1, sw2] = switches.pins();
    assert!(!sw1.read(&mut registers));
    assert!(sw2.read(&mut registers));
}

#[test]
fn a_group_of_no_pins_can_be_configured() {
    let mut registers = RegisterFile::new();
    let mut pins = setup_writable_pins(&mut registers, GPIOPort::A, [], digital()).unwrap();
    assert_eq!(registers.peek(GPIOPort::A.direction()), 0);
    pins.write_all(&mut registers, []);
    assert_eq!(pins.read_all(&mut registers), []);
    assert_eq!(pins.pins().len(), 0);
}
