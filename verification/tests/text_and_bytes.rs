use incode::bytes::{hex_list_text, hexdump_text, le_words_of, parse_byte_list, parse_hex_bytes};
use incode::text::{
    dec_string, hex_address, hex_string, parse_i64, parse_unsigned_str, replace_text, split_lines,
    split_on, split_words, str_contains, str_ends_with, str_starts_with, trim_char_str, trim_str,
};
use incode::tools::memory_inspection::{DumpMemoryTool, SearchMemoryTool, WriteMemoryTool};
use incode::tools::{parse_address, parse_u32};

#[test]
fn hexadecimal_and_decimal_texts() {
    assert_eq!(hex_string(0), "0");
    assert_eq!(hex_string(255), "ff");
    assert_eq!(hex_address(0x1000_0000), "0x10000000");
    assert_eq!(hex_address(u64::MAX), "0xffffffffffffffff");
    assert_eq!(dec_string(0), "0");
    assert_eq!(dec_string(1234567890), "1234567890");
}

#[test]
fn reported_address_reads_back() {
    for n in [0u64, 1, 0xdead_beef, 0x7fff_1234_5000, u64::MAX] {
        assert_eq!(parse_address(&hex_address(n)), Some(n));
    }
    assert_eq!(parse_address("1000"), Some(0x1000));
    assert_eq!(parse_address("0x"), None);
    assert_eq!(parse_address("0xzz"), None);
    assert_eq!(parse_address("0x1ffffffffffffffff"), None);
}

#[test]
fn reported_number_reads_back() {
    for n in [0u64, 9, 10, 4096, u64::MAX] {
        assert_eq!(parse_unsigned_str(&dec_string(n), 10, u64::MAX), Some(n));
    }
}

#[test]
fn unsigned_numbers_read_like_from_str_radix() {
    assert_eq!(parse_unsigned_str("+17", 10, u64::MAX), Some(17));
    assert_eq!(parse_unsigned_str("", 10, u64::MAX), None);
    assert_eq!(parse_unsigned_str("+", 10, u64::MAX), None);
    assert_eq!(parse_unsigned_str("-1", 10, u64::MAX), None);
    assert_eq!(parse_unsigned_str("256", 10, 255), None);
    assert_eq!(parse_unsigned_str("FF", 16, 255), Some(255));
    assert_eq!(parse_u32("4294967295"), Some(u32::MAX));
    assert_eq!(parse_u32("4294967296"), None);
}

#[test]
fn signed_numbers_read_like_parse_i64() {
    assert_eq!(parse_i64("-9223372036854775808"), Some(i64::MIN));
    assert_eq!(parse_i64("9223372036854775807"), Some(i64::MAX));
    assert_eq!(parse_i64("9223372036854775808"), None);
    assert_eq!(parse_i64("+5"), Some(5));
    assert_eq!(parse_i64("-"), None);
    assert_eq!(parse_i64("-+5"), None);
    assert_eq!(parse_i64("12a"), None);
}

#[test]
fn searching_and_trimming_text() {
    assert!(str_contains("system(\"ls\")", "system("));
    assert!(!str_contains("abc", "abcd"));
    assert!(str_contains("abc", ""));
    assert!(str_starts_with("0x1f", "0x"));
    assert!(str_ends_with("\"quoted\"", "\""));
    assert_eq!(trim_str("  a b \n\t"), "a b");
    assert_eq!(trim_str(" \u{3000}x\u{a0}"), "x");
    assert_eq!(trim_char_str("\"\"hi\"", '"'), "hi");
    assert_eq!(replace_text("aXbXXc", "X", "--"), "a--b----c");
}

#[test]
fn splitting_text() {
    assert_eq!(split_on("a.b..c", '.'), vec!["a", "b", "", "c"]);
    assert_eq!(split_on("", '.'), vec![""]);
    assert_eq!(split_words("  ps  aux \n x"), vec!["ps", "aux", "x"]);
    assert_eq!(split_lines("one\r\ntwo\nthree"), vec!["one", "two", "three"]);
    assert_eq!(split_lines("end\n"), vec!["end"]);
}

#[test]
fn bytes_as_a_hex_list() {
    assert_eq!(hex_list_text(&vec![]), "[]");
    assert_eq!(hex_list_text(&vec![0xde, 0x0a]), "[de, 0a]");
}

#[test]
fn hexdump_lines() {
    let text = hexdump_text(&vec![0x41, 0x42, 0x00, 0x20, 0x7f], 0x1000);
    let expected = format!("00001000: {:<48} |AB. .|\n", "41 42 00 20 7f");
    assert_eq!(text, expected);
    assert_eq!(hexdump_text(&vec![], 0), "");
    let data: Vec<u8> = (0u8..17).collect();
    let dump = DumpMemoryTool::format_as_hexdump(&data, 0);
    let lines: Vec<&str> = dump.lines().collect();
    assert_eq!(lines.len(), 2);
    assert!(lines[1].starts_with("00000010: 10 "));
}

#[test]
fn hexdump_addresses_wrap_around() {
    let data: Vec<u8> = vec![1; 17];
    let dump = DumpMemoryTool::format_as_hexdump(&data, u64::MAX - 7);
    let lines: Vec<&str> = dump.lines().collect();
    assert!(lines[0].starts_with("fffffffffffffff8: "));
    assert!(lines[1].starts_with("00000008: "));
}

#[test]
fn dumped_hex_writes_back_the_same_bytes() {
    let data = vec![0x00u8, 0x0f, 0xa0, 0xff, 0x7e];
    let hex = DumpMemoryTool::format_as_hex(&data);
    assert_eq!(hex, "000fa0ff7e");
    assert_eq!(WriteMemoryTool::parse_hex_data(&hex).unwrap(), data);
}

#[test]
fn hex_byte_strings() {
    assert_eq!(parse_hex_bytes("de ad 0xbe ef", "odd").unwrap(), vec![0xde, 0xad, 0xbe, 0xef]);
    assert_eq!(parse_hex_bytes("abc", "odd").unwrap_err().message(), "MCP protocol error: odd");
    assert_eq!(
        WriteMemoryTool::parse_hex_data("zz").unwrap_err().message(),
        "MCP protocol error: Invalid hex byte: zz"
    );
    assert_eq!(
        SearchMemoryTool::parse_hex_pattern("a").unwrap_err().message(),
        "MCP protocol error: Hex pattern must have even number of characters"
    );
    assert_eq!(
        WriteMemoryTool::parse_hex_data("aéb").unwrap_err().message(),
        "MCP protocol error: Invalid hex characters"
    );
    assert_eq!(
        WriteMemoryTool::parse_hex_data("é").unwrap_err().message(),
        "MCP protocol error: Invalid hex byte: é"
    );
}

#[test]
fn byte_lists() {
    assert_eq!(parse_byte_list("1, 0x2a ,255").unwrap(), vec![1, 0x2a, 255]);
    assert_eq!(
        parse_byte_list("1,256").unwrap_err().message(),
        "MCP protocol error: Invalid byte value: 256"
    );
    assert_eq!(
        WriteMemoryTool::parse_byte_array("").unwrap_err().message(),
        "MCP protocol error: Invalid byte value: "
    );
}

#[test]
fn little_endian_words() {
    let data = vec![0x01, 0x02, 0x03, 0x04, 0x05];
    assert_eq!(le_words_of(&data, 2), vec![0x0201, 0x0403]);
    assert_eq!(le_words_of(&data, 4), vec![0x04030201]);
}
