use mican::readline::signal::{conv_signal, LastSignal, Signal, NO_SIGNAL};

#[test]
fn the_four_signals_are_told_apart() {
    assert_eq!(conv_signal(libc::SIGINT as usize), Some(Signal::Interrupt));
    assert_eq!(conv_signal(libc::SIGTSTP as usize), Some(Signal::Suspend));
    assert_eq!(conv_signal(libc::SIGCONT as usize), Some(Signal::Continue));
    assert_eq!(conv_signal(libc::SIGQUIT as usize), Some(Signal::Quit));
}

#[test]
fn other_numbers_are_no_signal_to_listen_for() {
    assert_eq!(conv_signal(NO_SIGNAL), None);
    assert_eq!(conv_signal(0), None);
    assert_eq!(conv_signal(libc::SIGTERM as usize), None);
    assert_eq!(conv_signal(libc::SIGHUP as usize), None);
    assert_eq!(conv_signal(32), None);
    assert_eq!(conv_signal(1000), None);
    for n in 0..64usize {
        if let Some(_) = conv_signal(n) {
            assert!(0 < n && n < 32);
        }
    }
}

#[test]
fn only_the_low_bits_count() {
    let n = (1usize << 32) + libc::SIGINT as usize;
    assert_eq!(conv_signal(n), Some(Signal::Interrupt));
}

#[test]
fn the_cell_is_emptied_by_taking() {
    let mut cell = LastSignal::new();
    assert_eq!(cell.take(), None);
    cell.set_raw_signal(libc::SIGINT as usize);
    assert_eq!(cell.take(), Some(Signal::Interrupt));
    assert_eq!(cell.take(), None);
    cell.set_raw_signal(libc::SIGQUIT as usize);
    cell.set_raw_signal(libc::SIGCONT as usize);
    assert_eq!(cell.take(), Some(Signal::Continue));
    assert_eq!(cell.take(), None);
}

#[test]
fn taking_gives_the_signal_that_the_stored_number_names() {
    for (number, signal) in [
        (libc::SIGINT, Some(Signal::Interrupt)),
        (libc::SIGTSTP, Some(Signal::Suspend)),
        (libc::SIGCONT, Some(Signal::Continue)),
        (libc::SIGQUIT, Some(Signal::Quit)),
        (libc::SIGTERM, None),
        (libc::SIGWINCH, None),
        (0, None),
    ] {
        let mut cell = LastSignal::new();
        cell.set_raw_signal(number as usize);
        assert_eq!(cell.take(), signal);
        assert_eq!(cell.take(), conv_signal(NO_SIGNAL));
        assert_eq!(conv_signal(number as usize), signal);
    }
}
