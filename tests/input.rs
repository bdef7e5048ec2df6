use tree_sitter_driver::adapter::{read_request, read_utf16, read_utf8, InputEncoding};
use tree_sitter_driver::input::{Borrowing, Cloning, Input};
use tree_sitter_driver::point::{Point, RawPoint};

#[test]
fn borrowing_reads_from_offset() {
    let text: &'static [u8] = b"let x = 1;";
    let mut input = Borrowing::new(|byte: usize, _p: Point| &text[byte..]);
    assert_eq!(input.read(4, Point::new(0, 4)), b"x = 1;");
    assert_eq!(input.read(10, Point::new(0, 10)), b"");
}

#[test]
fn cloning_keeps_latest_fragment() {
    let text = b"abcdef".to_vec();
    let mut input = Cloning::new(|byte: usize, _p: Point| text[byte..].to_vec());
    let first = input.read(0, Point::new(0, 0)).to_vec();
    assert_eq!(first, b"abcdef".to_vec());
    assert_eq!(input.read(3, Point::new(0, 3)), b"def");
    assert_eq!(first, b"abcdef".to_vec());
}

#[test]
fn utf8_read_passes_offsets_through() {
    let text: &'static [u8] = b"a\nbc";
    let mut seen = Vec::new();
    let mut input = Borrowing::new(|byte: usize, p: Point| {
        seen.push((byte, p));
        &text[byte..]
    });
    let (units, bytes) = read_utf8(&mut input, 2, RawPoint { row: 1, column: 0 });
    assert_eq!(units, b"bc");
    assert_eq!(bytes, 2);
    drop(input);
    assert_eq!(seen, vec![(2, Point::new(1, 0))]);
}

#[test]
fn utf16_read_halves_request_and_doubles_count() {
    let text: Vec<u16> = "hello\nworld".encode_utf16().collect();
    let mut seen = Vec::new();
    let mut input = Cloning::new(|byte: usize, p: Point| {
        seen.push((byte, p));
        text[byte..].to_vec()
    });
    let (units, bytes) = read_utf16(&mut input, 12, RawPoint { row: 1, column: 2 });
    assert_eq!(units.len(), 5);
    assert_eq!(bytes, 10);
    drop(input);
    assert_eq!(seen, vec![(6, Point::new(1, 1))]);
}

#[test]
fn utf16_reported_bytes_twice_units_for_every_split() {
    let text: Vec<u16> = "fn main() {}".encode_utf16().collect();
    for offset in 0..=text.len() {
        let mut input = Borrowing::new(|byte: usize, _p: Point| &text[byte..]);
        let raw = RawPoint { row: 0, column: (offset * 2) as u32 };
        let (units, bytes) = read_utf16(&mut input, (offset * 2) as u32, raw);
        assert_eq!(units.len(), text.len() - offset);
        assert_eq!(bytes as usize, units.len() * 2);
    }
}

#[test]
fn end_of_input_reports_zero_bytes() {
    let text: Vec<u16> = Vec::new();
    let mut input = Borrowing::new(|byte: usize, _p: Point| &text[byte..]);
    let (units, bytes) = read_utf16(&mut input, 0, RawPoint { row: 0, column: 0 });
    assert!(units.is_empty());
    assert_eq!(bytes, 0);
}

#[test]
fn request_translation_per_encoding() {
    let p = RawPoint { row: 3, column: 9 };
    assert_eq!(read_request(InputEncoding::Utf8, 9, p), (9, Point::new(3, 9)));
    assert_eq!(read_request(InputEncoding::Utf16, 9, p), (4, Point::new(3, 4)));
    assert_eq!(Point::from_raw(p), Point::new(3, 9));
}

#[test]
fn cloning_accepts_string_fragments() {
    let text = "héllo";
    let mut input = Cloning::new(|byte: usize, _p: Point| text[byte..].to_string());
    assert_eq!(input.read(0, Point::new(0, 0)), "héllo".as_bytes());
    assert_eq!(input.read(3, Point::new(0, 3)), b"llo");
    let (units, bytes) = read_utf8(&mut input, 1, RawPoint { row: 0, column: 1 });
    assert_eq!(units, "éllo".as_bytes());
    assert_eq!(bytes, 5);
}
