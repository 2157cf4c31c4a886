use fission_web::hex::format_hex;
use fission_web::hexdump::hex_dump;

#[test]
fn format_hex_renders_lower_case_without_padding() {
    assert_eq!(format_hex(0), "0");
    assert_eq!(format_hex(0xf), "f");
    assert_eq!(format_hex(0x10), "10");
    assert_eq!(format_hex(0x401000), "401000");
    assert_eq!(format_hex(0x1400010a0), "1400010a0");
    assert_eq!(format_hex(u64::MAX), "ffffffffffffffff");
}

#[test]
fn hex_dump_two_lines_with_gap_quirk() {
    let data: Vec<u8> = (0u8..17).collect();
    assert_eq!(
        hex_dump(&data, 4096),
        "00000000  00 01 02 03 04 05 06 07  0809 0a 0b 0c 0d 0e 0f    ................\n\
         00000010  10                                                 .\n"
    );
}

#[test]
fn hex_dump_shows_printable_characters() {
    assert_eq!(
        hex_dump(b"Hello, World!", 4096),
        "00000000  48 65 6c 6c 6f 2c 20 57  6f72 6c 64 21             Hello, World!\n"
    );
}

#[test]
fn hex_dump_truncates_at_limit() {
    assert_eq!(
        hex_dump(b"ABCDEFGHIJKLMNOPQRS", 16),
        "00000000  41 42 43 44 45 46 47 48  494a 4b 4c 4d 4e 4f 50    ABCDEFGHIJKLMNOP\n\n[truncated]\n"
    );
}

#[test]
fn hex_dump_exactly_limit_bytes_is_reported_truncated() {
    assert_eq!(
        hex_dump(&[0x7f, 0x20, 0x7e, 0xff], 4),
        "00000000  7f 20 7e ff                                        . ~.\n\n[truncated]\n"
    );
}

#[test]
fn hex_dump_empty_input() {
    assert_eq!(hex_dump(&[], 5), "");
    assert_eq!(hex_dump(&[], 0), "\n[truncated]\n");
}

#[test]
fn hex_dump_line_count_and_offsets() {
    let data = vec![0u8; 4096 + 100];
    let out = hex_dump(&data, 4096);
    let lines: Vec<&str> = out.lines().collect();
    assert_eq!(lines.len(), 256 + 2);
    assert!(lines[255].starts_with("00000ff0  "));
    assert_eq!(lines[256], "");
    assert_eq!(lines[257], "[truncated]");
    for line in &lines[..256] {
        assert_eq!(line.chars().count(), 8 + 2 + 49 + 2 + 16);
    }
}
