use mican::readline::color::{dark_blue, gray, light_blue, white};
use mican::readline::terminal::{
    clear_to_screen_end, move_down, move_left, move_right, move_to, move_under_line_first, move_up,
    push_decimal, raw_mode, LineDiscipline,
};

#[test]
fn cursor_sequences_carry_their_parameter() {
    assert_eq!(move_to(5), "\x1b[5G");
    assert_eq!(move_up(12), "\x1b[12A");
    assert_eq!(move_down(3), "\x1b[3B");
    assert_eq!(move_right(40), "\x1b[40C");
    assert_eq!(move_left(7), "\x1b[7D");
    assert_eq!(move_under_line_first(1), "\x1b[1E");
    assert_eq!(clear_to_screen_end(), "\x1b[0J");
}

#[test]
fn cursor_sequence_with_zero() {
    assert_eq!(move_to(0), "\x1b[0G");
    assert_eq!(move_left(0), "\x1b[0D");
}

#[test]
fn decimal_numerals_match_the_standard_formatting() {
    let samples: [usize; 12] =
        [0, 1, 9, 10, 11, 99, 100, 101, 1000, 65535, 4294967296, usize::MAX];
    for n in samples {
        let mut s = String::from("x");
        push_decimal(&mut s, n);
        assert_eq!(s, format!("x{}", n));
    }
}

#[test]
fn colours_wrap_the_text() {
    assert_eq!(light_blue("ls"), "\x1B[44mls\x1B[m");
    assert_eq!(dark_blue(" bin "), "\x1B[48;5;24m bin \x1B[m");
    assert_eq!(gray(" "), "\x1B[48;5;240m \x1B[m");
    assert_eq!(white("ls"), "\x1B[7mls\x1B[m");
    assert_eq!(white(""), "\x1B[7m\x1B[m");
}

#[test]
fn raw_mode_switches_everything_off() {
    let cooked = LineDiscipline {
        canonical: true,
        echo: true,
        nl_to_cr: true,
        cr_to_nl: true,
        min_read: 1,
        read_timeout: 5,
    };
    let raw = raw_mode(cooked);
    assert_eq!(
        raw,
        LineDiscipline {
            canonical: false,
            echo: false,
            nl_to_cr: false,
            cr_to_nl: false,
            min_read: 0,
            read_timeout: 0,
        }
    );
    assert_eq!(raw_mode(raw), raw);
}
