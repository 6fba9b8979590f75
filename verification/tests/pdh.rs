//! Counter instance names, multi-strings and process names.
use hypomnesis::gpu::names::{basename_from_path, kernel_name_for_pid, szexefile_to_string};
use hypomnesis::gpu::pdh::{parse_adapter_instance_name, parse_instance_name, parse_multi_string};

fn szexefile_buf(name: &str) -> [u16; 260] {
    let mut buf = [0_u16; 260];
    for (slot, ch) in buf.iter_mut().zip(name.encode_utf16()) {
        *slot = ch;
    }
    buf
}

#[test]
fn szexefile_to_string_decodes_nul_terminated_name() {
    assert_eq!(szexefile_to_string(&szexefile_buf("dwm.exe")), "dwm.exe");
}

#[test]
fn szexefile_to_string_empty_buffer_yields_empty_string() {
    assert_eq!(szexefile_to_string(&[0_u16; 260]), "");
}

#[test]
fn szexefile_to_string_unterminated_buffer_uses_full_length() {
    let buf = [u16::from(b'a'); 260];
    let decoded = szexefile_to_string(&buf);
    assert_eq!(decoded.chars().count(), 260);
}

#[test]
fn parse_instance_name_basic() {
    let (pid, luid, seg) =
        parse_instance_name("pid_24168_luid_0x00000000_0x00012345_phys_0").unwrap();
    assert_eq!(pid, 24168);
    assert_eq!(luid, (0, 0x0001_2345));
    assert_eq!(seg, 0);
}

#[test]
fn parse_instance_name_nonzero_segment() {
    let (pid, _luid, seg) =
        parse_instance_name("pid_4242_luid_0x00000000_0x00000abc_phys_3").unwrap();
    assert_eq!(pid, 4242);
    assert_eq!(seg, 3);
}

#[test]
fn parse_instance_name_high_bit_luid() {
    let (_pid, luid, _seg) =
        parse_instance_name("pid_1_luid_0xFFFFFFFF_0x00000001_phys_0").unwrap();
    assert_eq!(luid.0, -1_i32);
    assert_eq!(luid.1, 1);
}

#[test]
fn parse_instance_name_full_low_part() {
    let (_pid, luid, _seg) =
        parse_instance_name("pid_1_luid_0x00000000_0xDEADBEEF_phys_0").unwrap();
    assert_eq!(luid, (0, 0xDEAD_BEEF));
}

#[test]
fn parse_instance_name_rejects_missing_prefix() {
    assert!(parse_instance_name("luid_0x00000000_0x00000001_phys_0").is_none());
    assert!(parse_instance_name("_Total").is_none());
    assert!(parse_instance_name("").is_none());
}

#[test]
fn parse_instance_name_rejects_non_hex_luid() {
    assert!(parse_instance_name("pid_1_luid_0xZZZZZZZZ_0x00000001_phys_0").is_none());
    assert!(parse_instance_name("pid_1_luid_0x00000000_0xZZZZZZZZ_phys_0").is_none());
}

#[test]
fn parse_instance_name_rejects_non_numeric_pid() {
    assert!(parse_instance_name("pid_abc_luid_0x00000000_0x00000001_phys_0").is_none());
}

#[test]
fn parse_instance_name_rejects_missing_phys_suffix() {
    assert!(parse_instance_name("pid_1_luid_0x00000000_0x00000001").is_none());
    assert!(parse_instance_name("pid_1_luid_0x00000000_0x00000001_phys_").is_none());
}

#[test]
fn parse_adapter_instance_name_basic() {
    let (luid, seg) = parse_adapter_instance_name("luid_0x00000000_0x0000F391_phys_0").unwrap();
    assert_eq!(luid, (0, 0x0000_F391));
    assert_eq!(seg, 0);
}

#[test]
fn parse_adapter_instance_name_high_bit_luid() {
    let (luid, _seg) =
        parse_adapter_instance_name("luid_0xFFFFFFFF_0x00000001_phys_2").unwrap();
    assert_eq!(luid.0, -1_i32);
    assert_eq!(luid.1, 1);
}

#[test]
fn parse_adapter_instance_name_rejects_total() {
    assert!(parse_adapter_instance_name("_Total").is_none());
    assert!(parse_adapter_instance_name("").is_none());
}

#[test]
fn parse_adapter_instance_name_rejects_pid_prefixed() {
    assert!(
        parse_adapter_instance_name("pid_1234_luid_0x00000000_0x0000F391_phys_0").is_none()
    );
}

#[test]
fn parse_adapter_instance_name_rejects_missing_phys() {
    assert!(parse_adapter_instance_name("luid_0x00000000_0x0000F391").is_none());
    assert!(parse_adapter_instance_name("luid_0x00000000_0x0000F391_phys_").is_none());
}

#[test]
fn parse_multi_string_basic() {
    let buf: Vec<u16> = "foo\0bar\0\0".encode_utf16().collect();
    let parsed = parse_multi_string(&buf);
    assert_eq!(parsed, vec!["foo".to_owned(), "bar".to_owned()]);
}

#[test]
fn parse_multi_string_empty() {
    let buf: Vec<u16> = vec![0, 0];
    let parsed = parse_multi_string(&buf);
    assert!(parsed.is_empty());
}

#[test]
fn parse_multi_string_single_entry() {
    let buf: Vec<u16> = "only\0\0".encode_utf16().collect();
    let parsed = parse_multi_string(&buf);
    assert_eq!(parsed, vec!["only".to_owned()]);
}

#[test]
fn basename_from_path_windows_backslashes() {
    assert_eq!(
        basename_from_path("C:\\Program Files\\Mozilla Firefox\\firefox.exe"),
        "firefox.exe"
    );
}

#[test]
fn basename_from_path_forward_slashes() {
    assert_eq!(
        basename_from_path("C:/Users/Eric/AppData/ollama.exe"),
        "ollama.exe"
    );
}

#[test]
fn basename_from_path_mixed_separators() {
    assert_eq!(
        basename_from_path("C:\\Users/Eric\\AppData/ollama.exe"),
        "ollama.exe"
    );
}

#[test]
fn basename_from_path_no_separator() {
    assert_eq!(basename_from_path("System"), "System");
    assert_eq!(basename_from_path("idle.exe"), "idle.exe");
}

#[test]
fn basename_from_path_empty_input() {
    assert_eq!(basename_from_path(""), "");
}

#[test]
fn basename_from_path_trailing_separator() {
    assert_eq!(basename_from_path("C:\\Windows\\"), "");
    assert_eq!(basename_from_path("/tmp/"), "");
}

#[test]
fn basename_from_path_single_separator() {
    assert_eq!(basename_from_path("\\"), "");
    assert_eq!(basename_from_path("/"), "");
}

#[test]
fn kernel_name_for_pid_recognises_pid_4() {
    assert_eq!(kernel_name_for_pid(4), Some("[kernel]"));
}

#[test]
fn kernel_name_for_pid_returns_none_for_other_pids() {
    assert_eq!(kernel_name_for_pid(0), None);
    assert_eq!(kernel_name_for_pid(1), None);
    assert_eq!(kernel_name_for_pid(3), None);
    assert_eq!(kernel_name_for_pid(5), None);
    assert_eq!(kernel_name_for_pid(1000), None);
    assert_eq!(kernel_name_for_pid(u32::MAX), None);
}
