use stm32f4d::output::{deactivation_text, press_line, press_text, sample_line, sample_text};

#[test]
fn sample_text_pads_to_five_digits() {
    assert_eq!(sample_text(100, 200), "00100 -- 00200");
    assert_eq!(sample_text(101, 201), "00101 -- 00201");
    assert_eq!(sample_text(102, 202), "00102 -- 00202");
}

#[test]
fn sample_text_extremes() {
    assert_eq!(sample_text(0, 0), "00000 -- 00000");
    assert_eq!(sample_text(65535, 9), "65535 -- 00009");
    assert_eq!(sample_text(1023, 12345), "01023 -- 12345");
}

#[test]
fn sample_text_is_fourteen_bytes() {
    assert_eq!(sample_text(7, 70).len(), 14);
}

#[test]
fn sample_line_ends_with_cr_lf() {
    assert_eq!(sample_line(100, 200), "00100 -- 00200\r\n");
    assert_eq!(sample_line(1, 60000), format!("{:05} -- {:05}\r\n", 1, 60000));
}

#[test]
fn sample_text_agrees_with_std_formatting() {
    for (a, b) in [(0u16, 1u16), (9, 10), (99, 100), (999, 1000), (9999, 10000), (54321, 65535)] {
        assert_eq!(sample_text(a, b), format!("{:05} -- {:05}", a, b));
    }
}

#[test]
fn press_text_pads_to_two_digits() {
    assert_eq!(press_text(1), "Button Press 01 Woohoo!!");
    assert_eq!(press_text(5), "Button Press 05 Woohoo!!");
    assert_eq!(press_text(0), "Button Press 00 Woohoo!!");
    assert_eq!(press_text(42), "Button Press 42 Woohoo!!");
    assert_eq!(press_text(99), "Button Press 99 Woohoo!!");
}

#[test]
fn press_text_takes_three_digits_from_100() {
    assert_eq!(press_text(100), "Button Press 100 Woohoo!!");
    assert_eq!(press_text(255), "Button Press 255 Woohoo!!");
}

#[test]
fn press_line_ends_with_cr_lf() {
    assert_eq!(press_line(3), "Button Press 03 Woohoo!!\r\n");
    for n in [0u8, 9, 10, 99, 100, 200, 255] {
        assert_eq!(press_line(n), format!("Button Press {:02} Woohoo!!\r\n", n));
    }
}

#[test]
fn deactivation_text_value() {
    assert_eq!(deactivation_text(), "Deactivating program...");
}
