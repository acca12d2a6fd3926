use glypheris::export::{binary_file_name, hex_dump, hex_report, json_file_name, report_file_name, session_prefix};
use glypheris::hex::format_hex;

#[test]
fn session_prefix_is_eight_bytes() {
    assert_eq!(session_prefix("1b4e28ba-2fa1-11d2-883f-0016d3cca427"), "1b4e28ba");
    assert_eq!(session_prefix("abcdéfgh"), "abcdéfg");
}

#[test]
fn file_names() {
    let id = "1b4e28ba-2fa1-11d2-883f-0016d3cca427";
    assert_eq!(
        binary_file_name("20240102_030405", "GestureCommand", id, 42),
        "20240102_030405_gesturecommand_1b4e28ba_42.bin"
    );
    assert_eq!(
        json_file_name("20240102_030405", "ExecutionPlan", id, "{\"é\":1}"),
        "20240102_030405_executionplan_1b4e28ba_8.json"
    );
    assert_eq!(
        report_file_name("20240102_030405", "InferencePacket", id),
        "20240102_030405_inferencepacket_hexreport_1b4e28ba.txt"
    );
}

fn xxd_reference(binary: &[u8]) -> String {
    let mut hex_dump = String::new();
    for (i, chunk) in binary.chunks(16).enumerate() {
        let offset = format!("{:08X}", i * 16);
        let hex_row: Vec<String> = chunk.iter().map(|b| format!("{:02X}", b)).collect();
        let ascii_row: String = chunk
            .iter()
            .map(|&b| if b >= 0x20 && b < 0x7F { b as char } else { '.' })
            .collect();
        hex_dump.push_str(&format!("{}  {:<47}  |{}|\n", offset, hex_row.join(" "), ascii_row));
    }
    hex_dump
}

#[test]
fn dump_rows() {
    let bytes: Vec<u8> = (0x1Eu8..0x32).collect();
    assert_eq!(
        hex_dump(&bytes),
        "00000000  1E 1F 20 21 22 23 24 25 26 27 28 29 2A 2B 2C 2D  |.. !\"#$%&'()*+,-|\n\
00000010  2E 2F 30 31                                      |./01|\n"
    );
    assert_eq!(hex_dump(&[]), "");
}

#[test]
fn dump_matches_format_macros() {
    let bytes: Vec<u8> = (0..=255u8).chain(0..=40u8).collect();
    assert_eq!(hex_dump(&bytes), xxd_reference(&bytes));
    let sixteen: Vec<u8> = (0x70..0x80u8).collect();
    assert_eq!(hex_dump(&sixteen), xxd_reference(&sixteen));
}

#[test]
fn report_layout() {
    let binary = [0x08u8, 0x01];
    let hex = format_hex(&binary);
    let report = hex_report(&binary, "{\"action\":\"JUMP\"}", &hex, "GestureCommand", "jump", "sess", "2024-01-01 10:00:00", &format!("{:.2}", 3.14159f32));
    let rule = "═══════════════════════════════════════════════════════════════════════";
    let expected = format!(
        "{rule}\n  GLYPHERIS COMPILER — HEX DUMP REPORT\n  Session ID : sess\n  Timestamp  : 2024-01-01 10:00:00\n  Schema     : GestureCommand\n  Byte Count : 2 bytes\n  TPS        : 3.14\n{rule}\n\n[ ORIGINAL INTENT ]\njump\n\n[ GBNF-VALIDATED JSON PAYLOAD ]\n{{\"action\":\"JUMP\"}}\n\n[ PROTOBUF BINARY — HEX INLINE ]\n08 01\n\n[ PROTOBUF BINARY — xxd DUMP ]\n00000000  {row}  |..|\n\n{rule}\n",
        row = format!("{:<47}", "08 01")
    );
    assert_eq!(report, expected);
}
