use pir::client::leading_scalar;
use pir::duration::{render, DisplayDuration};
use pir::error::PirError;
use pir::grid::{cell_of, grid_side, integer_sqrt, Cell};
use pir::input::parse_index;
use std::time::Duration;

#[test]
fn integer_square_roots() {
    assert_eq!(integer_sqrt(0), 0);
    assert_eq!(integer_sqrt(1), 1);
    assert_eq!(integer_sqrt(3), 1);
    assert_eq!(integer_sqrt(4), 2);
    assert_eq!(integer_sqrt(99), 9);
    assert_eq!(integer_sqrt(100), 10);
    assert_eq!(integer_sqrt(101), 10);
    assert_eq!(integer_sqrt(usize::MAX), (1usize << (usize::BITS / 2)) - 1);
}

#[test]
fn grid_side_of_squares_only() {
    assert_eq!(grid_side(100), Ok(10));
    assert_eq!(grid_side(99), Err(PirError::Configuration));
    assert_eq!(grid_side(0), Ok(0));
    assert_eq!(grid_side(1), Ok(1));
    assert_eq!(grid_side(2), Err(PirError::Configuration));
    assert_eq!(grid_side(usize::MAX), Err(PirError::Configuration));
}

#[test]
fn cells_are_row_major() {
    assert_eq!(cell_of(42, 10), Cell { row: 4, column: 2 });
    assert_eq!(cell_of(0, 10), Cell { row: 0, column: 0 });
    assert_eq!(cell_of(99, 10), Cell { row: 9, column: 9 });
    assert_eq!(cell_of(7, 1), Cell { row: 7, column: 0 });
}

#[test]
fn two_sides_are_fewer_than_the_whole_from_seven_on() {
    for n in 5usize..200 {
        let floor = integer_sqrt(n);
        let ceil = if floor * floor == n { floor } else { floor + 1 };
        assert_eq!(2 * ceil < n, n != 5 && n != 6);
    }
}

#[test]
fn leading_scalar_is_the_first_slot() {
    assert_eq!(leading_scalar(&vec![7, 0, 0]), Ok(7));
    assert_eq!(leading_scalar(&Vec::new()), Err(PirError::Configuration));
}

#[test]
fn durations_in_nanoseconds() {
    assert_eq!(render(0), "0 ns");
    assert_eq!(render(27), "27 ns");
    assert_eq!(render(999), "999 ns");
}

#[test]
fn durations_in_microseconds() {
    assert_eq!(render(1_000), "1 \u{3bc}s");
    assert_eq!(render(1_499), "1 \u{3bc}s");
    assert_eq!(render(1_500), "2 \u{3bc}s");
    assert_eq!(render(350_000), "350 \u{3bc}s");
    assert_eq!(render(999_499), "999 \u{3bc}s");
    assert_eq!(render(999_500), "1000 \u{3bc}s");
}

#[test]
fn durations_in_milliseconds() {
    assert_eq!(render(1_000_000), "1 ms");
    assert_eq!(render(1_049_999), "1 ms");
    assert_eq!(render(1_050_000), "1.1 ms");
    assert_eq!(render(10_500_000), "10.5 ms");
    assert_eq!(render(10_549_999), "10.5 ms");
    assert_eq!(render(10_550_000), "10.6 ms");
    assert_eq!(render(9_950_000), "10 ms");
    assert_eq!(render(123_456_789_000), "123456.8 ms");
    assert_eq!(render(u128::MAX), "340282366920938463463374607431768.2 ms");
}

#[test]
fn durations_below_two_to_the_53_tenths_agree_with_floating_point_display() {
    let last = ((1u128 << 53) - 1) * 100_000;
    for ns in [1_000_000u128, 1_234_567, 10_500_000, 99_999_999, 100_000_000, 7_654_321_987, last] {
        let tenths = (ns + 50_000) / 100_000;
        assert_eq!(render(ns), format!("{} ms", (tenths as f64) / 10.0));
    }
}

#[test]
fn longer_durations_keep_every_digit() {
    let tenths = (1u128 << 60) + 1;
    let ns = tenths * 100_000;
    assert_eq!(render(ns), "115292150460684697.7 ms");
    assert_ne!(render(ns), format!("{} ms", (tenths as f64) / 10.0));
}

#[test]
fn display_duration_shows_its_nanoseconds() {
    assert_eq!(DisplayDuration(Duration::from_nanos(27)).fmt(), "27 ns");
    assert_eq!(DisplayDuration(Duration::from_micros(350)).fmt(), "350 \u{3bc}s");
    assert_eq!(DisplayDuration(Duration::from_micros(10_500)).fmt(), "10.5 ms");
    assert_eq!(DisplayDuration(Duration::from_secs(2)).fmt(), "2000 ms");
}

#[test]
fn index_is_read_from_a_line() {
    assert_eq!(parse_index("42\n"), Ok(42));
    assert_eq!(parse_index("  0  "), Ok(0));
    assert_eq!(parse_index("+7"), Ok(7));
    assert_eq!(parse_index("007"), Ok(7));
    assert_eq!(parse_index("\u{2003}99\u{a0}\r\n"), Ok(99));
    assert_eq!(parse_index(&usize::MAX.to_string()), Ok(usize::MAX));
}

#[test]
fn malformed_index_is_an_input_error() {
    assert_eq!(parse_index(""), Err(PirError::Input));
    assert_eq!(parse_index("   "), Err(PirError::Input));
    assert_eq!(parse_index("+"), Err(PirError::Input));
    assert_eq!(parse_index("-1"), Err(PirError::Input));
    assert_eq!(parse_index("4 2"), Err(PirError::Input));
    assert_eq!(parse_index("forty-two"), Err(PirError::Input));
    assert_eq!(parse_index("++1"), Err(PirError::Input));
    assert_eq!(parse_index("1.5"), Err(PirError::Input));
    assert_eq!(parse_index("\u{661}"), Err(PirError::Input));
    assert_eq!(parse_index(&format!("{}0", usize::MAX)), Err(PirError::Input));
    let one_more = usize::MAX as u128 + 1;
    assert_eq!(parse_index(&one_more.to_string()), Err(PirError::Input));
}

#[test]
fn index_reading_agrees_with_the_standard_parser() {
    for line in ["12", " 12 ", "+12", "-12", "1_2", "", "+", "0x10", "18446744073709551616", "\t5\n", "5\u{200b}"] {
        assert_eq!(parse_index(line).ok(), line.trim().parse::<usize>().ok());
    }
}
