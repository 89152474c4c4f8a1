use driver_and_task_library::memory;
use driver_and_task_library::{Access, Bus, RegisterFile};

const ADDRESS: u32 = 0x4002_5510;

fn holding(word: u32) -> RegisterFile {
    let mut registers = RegisterFile::new();
    registers.poke(ADDRESS, word);
    registers
}

fn one_read_modify_write(registers: &RegisterFile, word: u32) {
    assert_eq!(
        registers.journal().as_slice(),
        &[Access::Read { address: ADDRESS }, Access::Write { address: ADDRESS, word }]
    );
}

#[test]
fn update_reads_once_and_writes_once() {
    let mut registers = holding(41);
    memory::update(&mut registers, ADDRESS, &|word| word + 1);
    assert_eq!(registers.peek(ADDRESS), 42);
    one_read_modify_write(&registers, 42);
}

#[test]
fn read_bits_returns_the_bits_in_the_order_asked() {
    let mut registers = holding(0b1010_0110);
    assert_eq!(
        memory::read_bits(&mut registers, ADDRESS, &[0, 1, 2, 7, 31]),
        [false, true, true, true, false]
    );
    assert_eq!(memory::read_bits(&mut registers, ADDRESS, &[7, 0, 1]), [true, false, true]);
    assert_eq!(memory::read_bits(&mut registers, ADDRESS, &[]), []);
    assert_eq!(registers.peek(ADDRESS), 0b1010_0110);
    assert_eq!(registers.journal().len(), 3);
}

#[test]
fn read_bits_reaches_the_top_bit() {
    let mut registers = holding(0x8000_0000);
    assert_eq!(memory::read_bits(&mut registers, ADDRESS, &[31, 30]), [true, false]);
}

#[test]
fn write_bits_changes_the_named_bits_alone() {
    let mut registers = holding(0xFFFF_0000);
    memory::write_bits(&mut registers, ADDRESS, &[0, 16, 31, 4], [true, false, false, true]);
    assert_eq!(registers.peek(ADDRESS), 0x7FFE_0011);
    one_read_modify_write(&registers, 0x7FFE_0011);
}

#[test]
fn write_bits_lets_the_last_naming_of_a_bit_win() {
    let mut registers = holding(0);
    memory::write_bits(&mut registers, ADDRESS, &[3, 3], [true, false]);
    assert_eq!(registers.peek(ADDRESS), 0);
    memory::write_bits(&mut registers, ADDRESS, &[3, 3], [false, true]);
    assert_eq!(registers.peek(ADDRESS), 8);
}

#[test]
fn set_bits_sets_the_named_bits_alone() {
    let mut registers = holding(0b0100);
    memory::set_bits(&mut registers, ADDRESS, &[0, 2, 5]);
    assert_eq!(registers.peek(ADDRESS), 0b10_0101);
    one_read_modify_write(&registers, 0b10_0101);
}

#[test]
fn clear_bits_clears_the_named_bits_alone() {
    let mut registers = holding(0xFF);
    memory::clear_bits(&mut registers, ADDRESS, &[0, 7, 9]);
    assert_eq!(registers.peek(ADDRESS), 0x7E);
    one_read_modify_write(&registers, 0x7E);
}

#[test]
fn toggle_bits_inverts_the_named_bits_alone() {
    let mut registers = holding(0b1100);
    memory::toggle_bits(&mut registers, ADDRESS, &[2, 1]);
    assert_eq!(registers.peek(ADDRESS), 0b1010);
    one_read_modify_write(&registers, 0b1010);
}

#[test]
fn toggling_a_bit_twice_in_one_call_leaves_it() {
    let mut registers = holding(0b1100);
    memory::toggle_bits(&mut registers, ADDRESS, &[2, 2, 0]);
    assert_eq!(registers.peek(ADDRESS), 0b1101);
}

#[test]
fn operations_on_no_bits_write_the_word_back_unchanged() {
    let mut registers = holding(0xDEAD_BEEF);
    memory::set_bits(&mut registers, ADDRESS, &[]);
    memory::clear_bits(&mut registers, ADDRESS, &[]);
    memory::toggle_bits(&mut registers, ADDRESS, &[]);
    memory::write_bits(&mut registers, ADDRESS, &[], []);
    assert_eq!(registers.peek(ADDRESS), 0xDEAD_BEEF);
    assert_eq!(registers.journal().len(), 8);
}

#[test]
fn setting_or_clearing_twice_is_the_same_as_once() {
    for word in [0u32, 0xFFFF_FFFF, 0x1234_5678] {
        let mut once = holding(word);
        memory::set_bits(&mut once, ADDRESS, &[3, 30]);
        let mut twice = holding(word);
        memory::set_bits(&mut twice, ADDRESS, &[3, 30]);
        memory::set_bits(&mut twice, ADDRESS, &[3, 30]);
        assert_eq!(once.peek(ADDRESS), twice.peek(ADDRESS));

        let mut once = holding(word);
        memory::clear_bits(&mut once, ADDRESS, &[3, 30]);
        let mut twice = holding(word);
        memory::clear_bits(&mut twice, ADDRESS, &[3, 30]);
        memory::clear_bits(&mut twice, ADDRESS, &[3, 30]);
        assert_eq!(once.peek(ADDRESS), twice.peek(ADDRESS));
    }
}

#[test]
fn bits_written_are_the_bits_read_back() {
    let bits = [1u32, 9, 17, 31];
    for pattern in 0u32..16 {
        let values = [pattern & 1 != 0, pattern & 2 != 0, pattern & 4 != 0, pattern & 8 != 0];
        for word in [0u32, 0xFFFF_FFFF, 0xA5A5_5A5A] {
            let mut registers = holding(word);
            memory::write_bits(&mut registers, ADDRESS, &bits, values);
            assert_eq!(memory::read_bits(&mut registers, ADDRESS, &bits), values);
        }
    }
}

#[test]
fn the_pure_bit_functions_agree_with_the_register_ones() {
    assert_eq!(memory::bits_of_word(0b101, &[0, 1, 2]), [true, false, true]);
    assert_eq!(memory::word_with_bits(0b101, &[0, 1], &[false, true]), 0b110);
    assert_eq!(memory::word_with_bits_set(0, &[31, 0]), 0x8000_0001);
    assert_eq!(memory::word_with_bits_cleared(0xFFFF_FFFF, &[31, 0]), 0x7FFF_FFFE);
    assert_eq!(memory::word_with_bits_toggled(0xF0, &[4, 0]), 0xE1);
}

#[test]
fn plain_read_and_write_go_through_the_bus() {
    let mut registers = RegisterFile::new();
    memory::write(&mut registers, ADDRESS, 5);
    assert_eq!(memory::read(&mut registers, ADDRESS), 5);
    assert_eq!(registers.read(ADDRESS), 5);
}
