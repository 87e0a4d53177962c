use textstream::text::{append, print_lines, right_align, write_decimal};

#[test]
fn write_decimal_writes_numerals() {
    assert_eq!(write_decimal(0), b"0".to_vec());
    assert_eq!(write_decimal(7), b"7".to_vec());
    assert_eq!(write_decimal(10), b"10".to_vec());
    assert_eq!(write_decimal(1234567), b"1234567".to_vec());
    assert_eq!(write_decimal(usize::MAX), usize::MAX.to_string().into_bytes());
}

#[test]
fn write_decimal_agrees_with_std() {
    for n in 0..2000usize {
        assert_eq!(write_decimal(n), n.to_string().into_bytes());
    }
}

#[test]
fn right_align_pads_on_the_left() {
    assert_eq!(right_align(&b"1".to_vec(), 6), b"     1".to_vec());
    assert_eq!(right_align(&b"123456".to_vec(), 6), b"123456".to_vec());
    assert_eq!(right_align(&b"1234567".to_vec(), 6), b"1234567".to_vec());
    assert_eq!(right_align(&b"".to_vec(), 3), b"   ".to_vec());
    assert_eq!(right_align(&b"ab".to_vec(), 0), b"ab".to_vec());
}

#[test]
fn right_align_agrees_with_std_formatting() {
    for n in [0usize, 9, 10, 99999, 100000, 999999, 1000000, 123456789] {
        assert_eq!(right_align(&write_decimal(n), 6), format!("{:>6}", n).into_bytes());
    }
}

#[test]
fn append_adds_at_the_end() {
    let mut out = b"ab".to_vec();
    append(&mut out, b"cd");
    assert_eq!(out, b"abcd".to_vec());
    append(&mut out, b"");
    assert_eq!(out, b"abcd".to_vec());
}

#[test]
fn print_lines_ends_every_line() {
    assert_eq!(print_lines(&vec![]), b"".to_vec());
    assert_eq!(print_lines(&vec![b"a".to_vec(), b"".to_vec(), b"b".to_vec()]), b"a\n\nb\n".to_vec());
}
