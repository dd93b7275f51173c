use gear_opt::memory::dump::{dump_around, hex_digit, shown};
use gear_opt::memory::Memory;

fn text(bytes: Vec<u8>) -> String {
    String::from_utf8(bytes).unwrap()
}

#[test]
fn hexadecimal_digits_are_lower_case() {
    let digits: Vec<u8> = (0..16).map(hex_digit).collect();
    assert_eq!(text(digits), "0123456789abcdef");
}

#[test]
fn text_column_shows_visible_characters() {
    assert_eq!(shown(b'A'), b'A');
    assert_eq!(shown(b' '), b' ');
    assert_eq!(shown(b'~'), b'~');
    assert_eq!(shown(0x1f), b'.');
    assert_eq!(shown(0x7f), b'.');
    assert_eq!(shown(0x00), b'.');
    assert_eq!(shown(0xff), b'.');
}

#[test]
fn dump_of_a_part_of_one_line() {
    let bytes = b"Hello, world!\x00\x01\xff";
    let dump = text(dump_around(bytes, 0x1000, 4, 2, 6));
    let expected = format!(
        "00001000:{} 6c6c 6f2c 2077 6f72{}    llo, wor      \n",
        " ".repeat(5),
        " ".repeat(15),
    );
    assert_eq!(dump, expected);
}

#[test]
fn dump_of_a_whole_line() {
    let bytes = b"Hello, world!\x00\x01\xff";
    let dump = text(dump_around(bytes, 0x1000, 0, 0, 16));
    assert_eq!(
        dump,
        "00001000: 4865 6c6c 6f2c 2077 6f72 6c64 2100 01ff  Hello, world!...\n"
    );
    // The window ends with the bytes, and begins with them.
    assert_eq!(text(dump_around(bytes, 0x1000, 8, 100, usize::MAX)), dump);
}

#[test]
fn dump_across_two_lines() {
    let bytes = [0x00, 0x41, 0x7f, 0x20, 0xff];
    let dump = text(dump_around(&bytes, 0x1e, 0, 0, 100));
    let blank_pair = "     ";
    let expected = format!(
        "00000010:{} 0041  {}.A\n00000020: 7f20 ff  {}  . .{}\n",
        blank_pair.repeat(7),
        " ".repeat(14),
        blank_pair.repeat(6),
        " ".repeat(13),
    );
    assert_eq!(dump, expected);
}

#[test]
fn dump_of_nothing() {
    // An empty window on a line boundary gives no line.
    assert_eq!(text(dump_around(b"abc", 0x20, 0, 0, 0)), "");
    // Elsewhere it gives the line that it lies on, blank.
    let dump = text(dump_around(b"abc", 0x20, 1, 0, 0));
    assert_eq!(dump, format!("00000020:{}  {}\n", "     ".repeat(8), " ".repeat(16)));
}

#[test]
fn dump_with_a_long_address() {
    let dump = text(dump_around(b"x", 0x1_0000_0000, 0, 0, 1));
    assert_eq!(dump, format!("100000000: 78  {}  x{}\n", "     ".repeat(7), " ".repeat(15)));
}

#[test]
fn dump_around_an_address_of_a_memory() {
    let low = b"0123456789abcdef";
    let high = b"ABCDEFGHIJKLMNOPQRSTUVWXYZ";
    let seg_data: Vec<(&[u8], u64)> = vec![(&low[..], 0x100), (&high[..], 0x400)];
    let mem = Memory::new(&seg_data);
    assert_eq!(mem.get_dump_around_addr(0xff, 4, 4), None);
    assert_eq!(
        mem.get_dump_around_addr(0x408, 8, 8).map(text).unwrap(),
        "00000400: 4142 4344 4546 4748 494a 4b4c 4d4e 4f50  ABCDEFGHIJKLMNOP\n"
    );
    assert_eq!(
        mem.get_dump_around_addr(0x104, 0, 2).map(text).unwrap(),
        format!(
            "00000100:{} 3435{}  {}45{}\n",
            "     ".repeat(2),
            "     ".repeat(5),
            " ".repeat(4),
            " ".repeat(10),
        )
    );
    // Behind the end of the lower segment, and still governed by it.
    assert_eq!(
        mem.get_dump_around_addr(0x110, 1, 5).map(text).unwrap(),
        format!("00000100:{}   66  {}f\n", "     ".repeat(7), " ".repeat(15))
    );
    assert_eq!(mem.get_dump_around_addr(0x120, 4, 4), None);
    assert_eq!(
        text(mem.dump_around_addr(0x408, 8, 8)),
        "00000400: 4142 4344 4546 4748 494a 4b4c 4d4e 4f50  ABCDEFGHIJKLMNOP\n"
    );
}
