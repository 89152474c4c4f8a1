use driver_and_task_library::utils::{pins_to_bits, reverse_array};
use driver_and_task_library::{Pin, H, L};

#[test]
fn pins_become_their_numbers_in_order() {
    assert_eq!(pins_to_bits(&[Pin::One, Pin::Three, Pin::Two]), [1, 3, 2]);
    assert_eq!(
        pins_to_bits(&[
            Pin::Zero,
            Pin::One,
            Pin::Two,
            Pin::Three,
            Pin::Four,
            Pin::Five,
            Pin::Six,
            Pin::Seven
        ]),
        [0, 1, 2, 3, 4, 5, 6, 7]
    );
    assert_eq!(pins_to_bits(&[]), [0u32; 0]);
    assert_eq!(pins_to_bits(&[Pin::Seven, Pin::Seven]), [7, 7]);
}

#[test]
fn each_pin_has_its_index() {
    assert_eq!(Pin::Zero.index(), 0);
    assert_eq!(Pin::Four.index(), 4);
    assert_eq!(Pin::Seven.index(), 7);
}

#[test]
fn reverse_array_turns_the_order_round() {
    assert_eq!(reverse_array([H, L, L, L]), [L, L, L, H]);
    assert_eq!(reverse_array([1u32, 2, 3]), [3, 2, 1]);
    assert_eq!(reverse_array([7u8]), [7]);
    assert_eq!(reverse_array::<0, u32>([]), []);
}

#[test]
fn reversing_twice_gives_the_array_back() {
    let array = [5u32, 8, 13, 21, 34];
    assert_eq!(reverse_array(reverse_array(array)), array);
}

#[test]
fn levels_are_booleans() {
    assert!(H);
    assert!(!L);
}
