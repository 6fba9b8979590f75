//! Figures and texts against the formatting of the standard library.
use hypomnesis::cli::spill::exit_code_byte;
use hypomnesis::error::HypomnesisError;
use hypomnesis::json::json_escape;
use hypomnesis::number::{decimal_string, parse_unsigned, push_signed, IntError};
use hypomnesis::table::{column_width, push_padded};
use hypomnesis::text::{lines, order_chars, order_names, space, split_once, trim};
use hypomnesis::time::{
    duration_ms, elapsed_label, format_secs, next_sleep_chunk, parse_duration, read_duration,
    DurationError,
};
use hypomnesis::units::{format_delta, format_vram, signed_delta};
use hypomnesis::utf::{decode_until_nul, decode_utf16};
use hypomnesis::{Duration, GpuDeviceInfo, MemoryReport, Snapshot};

/// A spread of numbers: small ones, powers of two and their neighbours, and the ends.
fn spread() -> Vec<u64> {
    let mut v: Vec<u64> = (0..40).collect();
    for shift in 6..64 {
        let p = 1u64 << shift;
        v.push(p - 1);
        v.push(p);
        v.push(p + 1);
        v.push(p + p / 3);
        v.push(p + p / 20);
    }
    let mut x: u64 = 0x9E37_79B9_7F4A_7C15;
    for _ in 0..2000 {
        x ^= x << 13;
        x ^= x >> 7;
        x ^= x << 17;
        v.push(x >> (x % 50));
    }
    v.push(u64::MAX - 1);
    v.push(u64::MAX);
    v
}

#[test]
fn vram_text_agrees_with_binary64() {
    const GIB: u64 = 1024 * 1024 * 1024;
    for bytes in spread() {
        let expected = if bytes >= GIB {
            format!("{:.1} GiB", bytes as f64 / GIB as f64)
        } else {
            format!("{} MiB", bytes / (1024 * 1024))
        };
        assert_eq!(format_vram(bytes), expected, "{bytes}");
    }
}

#[test]
fn vram_text_rounds_ties_to_even() {
    // 1.25 GiB and 1.75 GiB lie halfway between two tenths.
    assert_eq!(format_vram(1_342_177_280), "1.2 GiB");
    assert_eq!(format_vram(1_879_048_192), "1.8 GiB");
    assert_eq!(format_vram(1_073_741_823), "1023 MiB");
}

#[test]
fn seconds_agree_with_binary64() {
    for n in spread() {
        let millis = n % 100_000_000_000;
        let expected = format!("{:.1}s", std::time::Duration::from_millis(millis).as_secs_f64());
        assert_eq!(format_secs(Duration::from_millis(millis)), expected, "{millis}");
        assert_eq!(elapsed_label(Duration::from_millis(millis)), format!("+{expected}"));
    }
    for n in spread() {
        let d = Duration::from_nanos(n as u128).unwrap();
        let expected = format!("{:.1}s", std::time::Duration::from_nanos(n).as_secs_f64());
        assert_eq!(format_secs(d), expected, "{n} ns");
    }
}

#[test]
fn durations_agree_with_std() {
    for n in spread() {
        let ours = Duration::from_millis(n);
        let theirs = std::time::Duration::from_millis(n);
        assert_eq!(ours.as_nanos(), theirs.as_nanos());
        assert_eq!(ours.as_secs(), theirs.as_secs());
        assert_eq!(ours.subsec_nanos(), theirs.subsec_nanos());
        assert_eq!(ours.as_millis(), theirs.as_millis());
    }
    assert_eq!(Duration::from_nanos(std::time::Duration::MAX.as_nanos()).unwrap().as_nanos(),
        std::time::Duration::MAX.as_nanos());
    assert!(Duration::from_nanos(std::time::Duration::MAX.as_nanos() + 1).is_none());
    assert_eq!(duration_ms(Duration::from_secs(u64::MAX)), u64::MAX);
    let one = Duration::from_secs(1);
    let two = Duration::from_secs(2);
    assert_eq!(one.saturating_sub(two), Duration::zero());
    assert_eq!(two.saturating_sub(one), one);
    assert!(two.at_least(&one) && one.at_least(&one) && !one.at_least(&two));
    assert_eq!(two.shorter(one), one);
}

#[test]
fn deltas_keep_sign_and_size() {
    assert_eq!(format_delta(1), "+0 MiB");
    for small in [-1, -1023, -1_048_575] {
        assert_eq!(format_delta(small), "+0 B");
    }
    assert_eq!(format_delta(-1_048_576), "-1 MiB");
    assert_eq!(format_delta(-(1 << 30)), "-1.0 GiB");
    assert_eq!(format_delta(i64::MIN), format!("-{}", format_vram(1u64 << 63)));
    assert_eq!(format_delta(i64::MAX), format!("+{}", format_vram(i64::MAX as u64)));
    assert_eq!(signed_delta(u64::MAX, 0), -1);
    assert_eq!(signed_delta(0, i64::MAX as u64), -i64::MAX);
}

#[test]
fn decimals_round_trip() {
    for n in spread() {
        let text = decimal_string(n);
        assert_eq!(text, n.to_string());
        let chars: Vec<char> = text.chars().collect();
        assert_eq!(parse_unsigned(&chars, 10, u64::MAX), Ok(n));
        let mut signed = String::new();
        push_signed(&mut signed, n as i64);
        assert_eq!(signed, (n as i64).to_string());
    }
}

#[test]
fn integers_parse_like_std() {
    let cases = vec![
        "", "+", "-", "+5", "-5", "00012", "4294967295", "4294967296", "12x", "x", " 1", "1 ",
        "+0", "99999999999999999999", "٣",
    ];
    for c in cases {
        let chars: Vec<char> = c.chars().collect();
        let ours = parse_unsigned(&chars, 10, u32::MAX as u64);
        match c.parse::<u32>() {
            Ok(n) => assert_eq!(ours, Ok(n as u64), "{c:?}"),
            Err(e) => assert_eq!(ours.unwrap_err().message(), e.to_string(), "{c:?}"),
        }
    }
    let hex: Vec<char> = "DeadBeef".chars().collect();
    assert_eq!(parse_unsigned(&hex, 16, u32::MAX as u64), Ok(0xDEAD_BEEF));
    let none: Vec<char> = Vec::new();
    assert_eq!(parse_unsigned(&none, 10, 9), Err(IntError::Empty));
    assert_eq!(parse_unsigned(&['a'], 10, 9), Err(IntError::InvalidDigit));
    assert_eq!(parse_unsigned(&['1', '0'], 10, 9), Err(IntError::TooLarge));
}

#[test]
fn duration_errors_quote_the_input() {
    assert_eq!(
        parse_duration("s\"x").unwrap_err(),
        format!(
            "invalid duration {:?}: expected digits followed by an optional unit (ms, s, m, h)",
            "s\"x"
        )
    );
    assert_eq!(
        parse_duration("99999999999999999999s").unwrap_err(),
        "invalid duration \"99999999999999999999s\": \"99999999999999999999\" is not a whole number"
    );
    assert_eq!(
        parse_duration("30x\n").unwrap_err(),
        "invalid duration \"30x\\n\": unknown unit \"x\" (expected ms, s, m, or h)"
    );
    assert_eq!(
        parse_duration("0h").unwrap_err(),
        "invalid duration \"0h\": must be greater than zero"
    );
    assert!(matches!(read_duration(""), Err(DurationError::NoDigits)));
    assert!(matches!(read_duration("0"), Err(DurationError::NotPositive)));
    assert!(matches!(read_duration("1d"), Err(DurationError::UnknownUnit(_))));
    assert!(matches!(read_duration("18446744073709551616"), Err(DurationError::NotWhole(_))));
    // A product beyond 64 bits stays at the largest number of milliseconds.
    assert_eq!(
        parse_duration("18446744073709551615h").unwrap(),
        Duration::from_millis(u64::MAX)
    );
}

#[test]
fn long_sleeps_come_in_chunks() {
    let mut left = Duration::from_millis(450);
    let mut steps: Vec<u128> = Vec::new();
    while let Some((step, rest)) = next_sleep_chunk(left, false) {
        steps.push(step.as_millis());
        left = rest;
    }
    assert_eq!(steps, vec![200, 200, 50]);
    assert!(next_sleep_chunk(Duration::from_secs(5), true).is_none());
}

#[test]
fn escapes_cover_every_control_character() {
    for code in 0..0x3000u32 {
        if let Some(c) = char::from_u32(code) {
            let expected = match c {
                '"' => "\\\"".to_owned(),
                '\\' => "\\\\".to_owned(),
                '\n' => "\\n".to_owned(),
                '\r' => "\\r".to_owned(),
                '\t' => "\\t".to_owned(),
                c if c.is_control() => format!("\\u{code:04x}"),
                c => c.to_string(),
            };
            assert_eq!(json_escape(&c.to_string()), expected);
        }
    }
}

/// What stands between the quotes of a JSON string literal, read back.
fn unescaped(body: &str) -> Option<String> {
    let mut out = String::new();
    let mut chars = body.chars();
    while let Some(c) = chars.next() {
        out.push(match c {
            '"' => return None,
            '\\' => match chars.next()? {
                c @ ('"' | '\\' | '/') => c,
                'b' => '\u{8}',
                'f' => '\u{c}',
                'n' => '\n',
                'r' => '\r',
                't' => '\t',
                'u' => {
                    let digits: String = chars.by_ref().take(4).collect();
                    char::from_u32(u32::from_str_radix(&digits, 16).ok()?)?
                }
                _ => return None,
            },
            c if c < ' ' => return None,
            c => c,
        });
    }
    Some(out)
}

#[test]
fn escaped_texts_are_literal_bodies_and_read_back() {
    assert_eq!(json_escape("\\\""), r#"\\\""#);
    assert_eq!(json_escape("\u{8}\u{c}\u{7f}"), r"\u0008\u000c\u007f");
    for text in ["", "\\", "\\\\\"", "a\u{0}b\u{9f}", "\u{8}\u{c}/", "C:\\new\\\"t\"", "é 漢 😀\t"] {
        assert_eq!(unescaped(&json_escape(text)).as_deref(), Some(text));
    }
}

#[test]
fn columns_count_bytes_and_pad_characters() {
    assert_eq!(column_width("ΔCOMMIT", &["x"]), 8);
    let mut s = String::from("|");
    push_padded(&mut s, "Δx", 4);
    push_padded(&mut s, "long", 2);
    assert_eq!(s, format!("|{:<4}{:<2}", "Δx", "long"));
}

#[test]
fn utf16_decodes_like_std() {
    let cases: Vec<Vec<u16>> = vec![
        vec![],
        "plain é 漢 😀".encode_utf16().collect(),
        vec![0xD800],
        vec![0xDC00, 0x41],
        vec![0xD83D, 0x41],
        vec![0xD83D, 0xDE00, 0xD83D],
        vec![0xDBFF, 0xDFFF, 0xE000, 0xFFFF],
    ];
    for c in cases {
        assert_eq!(decode_utf16(&c), String::from_utf16_lossy(&c));
    }
    assert_eq!(decode_until_nul(&[0x41, 0, 0x42]), "A");
}

#[test]
fn every_error_has_its_message() {
    let cases = vec![
        (HypomnesisError::Ram("x".to_owned()), "RAM query failed: x"),
        (HypomnesisError::Nvml("x".to_owned()), "NVML error: x"),
        (HypomnesisError::Dxgi("x".to_owned()), "DXGI error: x"),
        (HypomnesisError::Pdh("x".to_owned()), "PDH error: x"),
        (HypomnesisError::NvidiaSmi("x".to_owned()), "nvidia-smi error: x"),
        (
            HypomnesisError::DeviceIndexOutOfRange { index: 3, count: 2 },
            "device index 3 out of range (have 2 devices)",
        ),
        (
            HypomnesisError::NoGpuSource,
            "no GPU measurement source available (NVML, DXGI, PDH, and nvidia-smi all failed or are disabled)",
        ),
        (HypomnesisError::Io("broken pipe".to_owned()), "broken pipe"),
    ];
    for (e, text) in cases {
        assert_eq!(e.message(), text);
    }
}

#[test]
fn only_a_successful_child_reports_success() {
    for code in -3..600 {
        assert_eq!(exit_code_byte(Some(code)) == 0, code == 0);
    }
}

fn ram_only(ram_bytes: u64) -> Snapshot {
    Snapshot { ram_bytes, gpu: None, gpu_device: None }
}

#[test]
fn report_lines_agree_with_binary64() {
    let all = spread();
    for (i, before) in all.iter().enumerate() {
        for step in [1usize, 7, 61] {
            let after = all[(i + step) % all.len()];
            let mb = |b: u64| b as f64 / 1_048_576.0;
            let delta = mb(after) - mb(*before);
            let report = MemoryReport::new(ram_only(*before), ram_only(after));
            assert_eq!(report.format_delta("x"), format!("  x: RAM {delta:+.0} MB\n"));
            assert_eq!(
                report.format_before_after("x"),
                format!("  x: RAM {:.0} MB → {:.0} MB ({delta:+.0} MB)\n", mb(*before), mb(after))
            );
        }
        let d = GpuDeviceInfo::builder().free_bytes(*before).build();
        assert_eq!(
            d.format_free(),
            format!("  GPU 0: free {:.0} MB / 0 MB\n", *before as f64 / 1_048_576.0)
        );
    }
}

#[test]
fn the_load_generator_counts_chunks() {
    assert_eq!(hypomnesis::forge::argument_or(Some("7"), 20), 7);
    assert_eq!(hypomnesis::forge::argument_or(Some("x"), 20), 20);
    assert_eq!(hypomnesis::forge::argument_or(None, 20), 20);
    assert_eq!(hypomnesis::forge::target_chunks(20), 80);
    assert_eq!(hypomnesis::forge::progress(6), None);
    assert_eq!(
        hypomnesis::forge::progress(7).unwrap(),
        "spillforge: allocated+uploaded 2 GiB"
    );
    assert_eq!(
        hypomnesis::forge::churn_notice(80, 10),
        "spillforge: churning 20 GiB working set for 10 s..."
    );
    assert_eq!(hypomnesis::forge::touched_buffer(83, 80), 3);
}

#[test]
fn whitespace_and_lines_agree_with_std() {
    for code in 0..0x11_0000u32 {
        if let Some(c) = char::from_u32(code) {
            assert_eq!(space(c), c.is_whitespace(), "{code:x}");
        }
    }
    let texts = vec![
        "", "\n", "a", "a\n", "a\r\nb", "a\rb\n\n", "\r\n", "a\n\r\n b \n", "\u{85}x\u{a0}", " é\t",
    ];
    for t in texts {
        let chars: Vec<char> = t.chars().collect();
        let ours: Vec<String> = lines(&chars).iter().map(|l| l.iter().collect()).collect();
        assert_eq!(ours, t.lines().map(str::to_owned).collect::<Vec<String>>(), "{t:?}");
        let trimmed: String = trim(&chars).iter().collect();
        assert_eq!(trimmed, t.trim(), "{t:?}");
        let halves = split_once(&chars, "\n")
            .map(|(a, b)| (a.iter().collect::<String>(), b.iter().collect::<String>()));
        assert_eq!(halves, t.split_once('\n').map(|(a, b)| (a.to_owned(), b.to_owned())));
    }
}

#[test]
fn names_are_ordered_like_std() {
    let names = vec!["", "a", "ab", "b", "é", "\u{FFFF}", "😀", "Z"];
    for a in &names {
        for b in &names {
            let ours = order_chars(
                &a.chars().collect::<Vec<char>>(),
                &b.chars().collect::<Vec<char>>(),
            );
            assert_eq!(ours.signum(), a.cmp(b) as i32, "{a:?} {b:?}");
            let some = (Some((*a).to_owned()), Some((*b).to_owned()));
            assert_eq!(order_names(&some.0, &some.1).signum(), some.0.cmp(&some.1) as i32);
            assert_eq!(order_names(&None, &some.1).signum(), None.cmp(&some.1) as i32);
        }
    }
}
