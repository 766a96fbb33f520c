use ferrisetw::classic::{
    encode_strings_as_user_data, parse_classic_user_data, read_i64_le, read_null_terminated_wstring,
    read_u16_le, read_wstring_by_len, sid_to_string, ClassicMetadata, ClassicParseError,
    EVENTLOG_CLASSIC_KEYWORD,
};
use ferrisetw::native::{SddlNativeError, TdhNativeError};

/// The UTF-16LE bytes of a text, without a terminator.
fn wide(text: &str) -> Vec<u8> {
    let mut bytes = Vec::new();
    for unit in text.encode_utf16() {
        bytes.extend_from_slice(&unit.to_le_bytes());
    }
    bytes
}

/// The bytes of a record.
fn record(
    time: i64,
    id: u16,
    qualifier: u16,
    name: &str,
    sid: &[u8],
    strings: &[&str],
) -> Vec<u8> {
    let mut data = Vec::new();
    data.extend_from_slice(&time.to_le_bytes());
    data.extend_from_slice(&id.to_le_bytes());
    data.extend_from_slice(&qualifier.to_le_bytes());
    let name_units = name.encode_utf16().count() as u16 + 1;
    data.extend_from_slice(&name_units.to_le_bytes());
    data.extend_from_slice(&wide(name));
    data.extend_from_slice(&[0, 0]);
    data.extend_from_slice(&(sid.len() as u16).to_le_bytes());
    data.extend_from_slice(sid);
    data.extend_from_slice(&(strings.len() as u16).to_le_bytes());
    for s in strings {
        data.extend_from_slice(&wide(s));
        data.extend_from_slice(&[0, 0]);
    }
    data
}

const SID: [u8; 12] = [1, 1, 0, 0, 0, 0, 0, 5, 18, 0, 0, 0];

fn short(result: Result<ferrisetw::classic::RawClassicRecord, ClassicParseError>) -> String {
    match result {
        Err(ClassicParseError::DataTooShort(s)) => s,
        _ => panic!("the data should be too short"),
    }
}

#[test]
fn keyword_value() {
    assert_eq!(EVENTLOG_CLASSIC_KEYWORD, 1u64 << 55);
}

#[test]
fn u16_is_little_endian() {
    let data = [0xAA, 0x85, 0x1B];
    let mut offset = 1;
    assert_eq!(read_u16_le(&data, &mut offset).unwrap(), 7045);
    assert_eq!(offset, 3);
}

#[test]
fn u16_past_the_end() {
    let data = [1, 2, 3];
    let mut offset = 2;
    match read_u16_le(&data, &mut offset) {
        Err(ClassicParseError::DataTooShort(s)) => {
            assert_eq!(s, "need u16 at offset 2, have 1 bytes remaining")
        }
        _ => panic!("one byte is no u16"),
    }
    assert_eq!(offset, 2);
}

#[test]
fn i64_is_little_endian_and_signed() {
    for value in [0i64, 1, -1, i64::MAX, i64::MIN, 133_500_000_000_000_000, -2] {
        let mut data = vec![9];
        data.extend_from_slice(&value.to_le_bytes());
        let mut offset = 1;
        assert_eq!(read_i64_le(&data, &mut offset).unwrap(), value);
        assert_eq!(offset, 9);
    }
}

#[test]
fn i64_past_the_end() {
    let mut offset = 0;
    match read_i64_le(&[0; 7], &mut offset) {
        Err(ClassicParseError::DataTooShort(s)) => {
            assert_eq!(s, "need i64 at offset 0, have 7 bytes remaining")
        }
        _ => panic!("seven bytes are no i64"),
    }
    assert_eq!(offset, 0);
}

#[test]
fn null_terminated_strings_follow_each_other() {
    let mut data = wide("ab");
    data.extend_from_slice(&[0, 0]);
    data.extend_from_slice(&wide("\u{1D11E}c"));
    data.extend_from_slice(&[0, 0]);
    let mut offset = 0;
    assert_eq!(read_null_terminated_wstring(&data, &mut offset), "ab");
    assert_eq!(offset, 6);
    assert_eq!(read_null_terminated_wstring(&data, &mut offset), "\u{1D11E}c");
    assert_eq!(offset, 14);
    assert_eq!(read_null_terminated_wstring(&data, &mut offset), "");
    assert_eq!(offset, 14);
}

#[test]
fn unterminated_string_ends_with_the_data() {
    let mut data = wide("xy");
    data.push(7);
    let mut offset = 0;
    assert_eq!(read_null_terminated_wstring(&data, &mut offset), "xy");
    assert_eq!(offset, 4);
    assert_eq!(read_null_terminated_wstring(&data, &mut offset), "");
    assert_eq!(offset, 4);
}

#[test]
fn string_past_the_end_is_empty() {
    let mut offset = 9;
    assert_eq!(read_null_terminated_wstring(&[65, 0], &mut offset), "");
    assert_eq!(offset, 9);
}

#[test]
fn unpaired_surrogates_are_replaced() {
    let units: [u16; 9] = [
        0xD834, 0xDD1E, 0x006d, 0x0075, 0x0073, 0xDD1E, 0x0069, 0x0063, 0xD834,
    ];
    let mut data = Vec::new();
    for unit in units {
        data.extend_from_slice(&unit.to_le_bytes());
    }
    let mut offset = 0;
    assert_eq!(
        read_null_terminated_wstring(&data, &mut offset),
        "\u{1D11E}mus\u{FFFD}ic\u{FFFD}"
    );
    assert_eq!(offset, 18);
}

#[test]
fn surrogate_halves_in_every_order() {
    let some: [u16; 7] = [0x41, 0xD7FF, 0xD800, 0xDBFF, 0xDC00, 0xDFFF, 0xE000];
    for a in some {
        for b in some {
            for c in some {
                let units = [a, b, c];
                let mut data = Vec::new();
                for unit in units {
                    data.extend_from_slice(&unit.to_le_bytes());
                }
                let mut expected = String::new();
                for decoded in char::decode_utf16(units) {
                    expected.push(decoded.unwrap_or('\u{FFFD}'));
                }
                let mut offset = 0;
                assert_eq!(read_null_terminated_wstring(&data, &mut offset), expected);
            }
        }
    }
}

#[test]
fn counted_string_is_cut_at_the_first_null() {
    let mut data = wide("name");
    data.extend_from_slice(&[0, 0]);
    data.extend_from_slice(&wide("z"));
    let mut offset = 0;
    assert_eq!(read_wstring_by_len(&data, &mut offset, 6).unwrap(), "name");
    assert_eq!(offset, 12);
}

#[test]
fn counted_string_without_null() {
    let data = wide("name");
    let mut offset = 2;
    assert_eq!(read_wstring_by_len(&data, &mut offset, 2).unwrap(), "am");
    assert_eq!(offset, 6);
    assert_eq!(read_wstring_by_len(&data, &mut offset, 0).unwrap(), "");
    assert_eq!(offset, 6);
}

#[test]
fn counted_string_past_the_end() {
    let data = wide("name");
    let mut offset = 2;
    match read_wstring_by_len(&data, &mut offset, 10) {
        Err(ClassicParseError::DataTooShort(s)) => {
            assert_eq!(s, "need 20 bytes for wstring at offset 2, have 6")
        }
        _ => panic!("six bytes are not twenty"),
    }
    assert_eq!(offset, 2);
}

#[test]
fn a_record_reads_back() {
    let data = record(
        133_500_000_000_000_000,
        7045,
        0x4000,
        "Service Control Manager",
        &SID,
        &["test", "C:\\test.exe", "user mode service", "demand start", ""],
    );
    let raw = parse_classic_user_data(&data).unwrap();
    assert_eq!(raw.time_created, 133_500_000_000_000_000);
    assert_eq!(raw.real_event_id, 7045);
    assert_eq!(raw.qualifier, 16384);
    assert_eq!(raw.source_name, "Service Control Manager");
    assert_eq!(raw.sid_bytes, SID.to_vec());
    assert_eq!(
        raw.strings,
        vec!["test", "C:\\test.exe", "user mode service", "demand start", ""]
    );
}

#[test]
fn a_record_without_sid_and_strings() {
    let raw = parse_classic_user_data(&record(-1, 0, 0xFFFF, "", &[], &[])).unwrap();
    assert_eq!(raw.time_created, -1);
    assert_eq!(raw.real_event_id, 0);
    assert_eq!(raw.qualifier, 0xFFFF);
    assert_eq!(raw.source_name, "");
    assert!(raw.sid_bytes.is_empty());
    assert!(raw.strings.is_empty());
}

#[test]
fn bytes_after_the_strings_are_ignored() {
    let mut data = record(1, 2, 3, "s", &[], &["a"]);
    data.extend_from_slice(&[1, 2, 3]);
    assert_eq!(parse_classic_user_data(&data).unwrap().strings, vec!["a"]);
}

#[test]
fn every_cut_of_the_header_is_too_short() {
    let data = record(1, 2, 3, "ab", &[5, 6, 7], &["x"]);
    let expected = |n: usize| -> String {
        match n {
            0..=7 => format!("need i64 at offset 0, have {} bytes remaining", n),
            8..=9 => format!("need u16 at offset 8, have {} bytes remaining", n - 8),
            10..=11 => format!("need u16 at offset 10, have {} bytes remaining", n - 10),
            12..=13 => format!("need u16 at offset 12, have {} bytes remaining", n - 12),
            14..=19 => format!("need 6 bytes for wstring at offset 14, have {}", n - 14),
            20..=21 => format!("need u16 at offset 20, have {} bytes remaining", n - 20),
            22..=24 => format!("not enough data for SID at offset 22: need 3, have {}", n - 22),
            25..=26 => format!("need u16 at offset 25, have {} bytes remaining", n - 25),
            _ => format!("ran out of data reading string 1 of 1 at offset {}", n),
        }
    };
    for n in 0..=27 {
        assert_eq!(short(parse_classic_user_data(&data[..n])), expected(n));
    }
    assert!(parse_classic_user_data(&data[..28]).is_ok());
}

#[test]
fn a_missing_string_is_reported_with_its_number() {
    let mut data = record(1, 2, 3, "ab", &[], &["x", "y"]);
    let at = data.len();
    data[22] = 5;
    assert_eq!(
        short(parse_classic_user_data(&data)),
        format!("ran out of data reading string 3 of 5 at offset {}", at)
    );
}

#[test]
fn an_odd_last_byte_gives_empty_strings() {
    let mut data = record(1, 2, 3, "ab", &[], &["x", "y"]);
    data[22] = 5;
    data.push(1);
    assert_eq!(
        parse_classic_user_data(&data).unwrap().strings,
        vec!["x", "y", "", "", ""]
    );
}

#[test]
fn a_source_name_of_no_units_is_invalid() {
    let data = [0u8; 14];
    match parse_classic_user_data(&data) {
        Err(ClassicParseError::InvalidField(s)) => {
            assert_eq!(s, "SourceName wchar count is zero")
        }
        _ => panic!("the count is zero"),
    }
}

#[test]
fn strings_are_encoded_with_terminators() {
    let strings = vec!["a\u{1D11E}".to_string(), String::new(), "\u{FFFF}".to_string()];
    assert_eq!(
        encode_strings_as_user_data(&strings),
        vec![0x61, 0, 0x34, 0xD8, 0x1E, 0xDD, 0, 0, 0, 0, 0xFF, 0xFF, 0, 0]
    );
    assert!(encode_strings_as_user_data(&[]).is_empty());
}

#[test]
fn encoded_strings_read_back() {
    let strings = vec![
        "plain".to_string(),
        String::new(),
        "\u{10FFFF}\u{10000}\u{E000}\u{D7FF}".to_string(),
        "z".to_string(),
    ];
    let buffer = encode_strings_as_user_data(&strings);
    let mut offset = 0;
    for s in &strings {
        assert_eq!(&read_null_terminated_wstring(&buffer, &mut offset), s);
    }
    assert_eq!(offset, buffer.len());
}

#[test]
fn sid_texts() {
    let failed = || {
        Err(SddlNativeError {
            text: "bad sid".to_string(),
        })
    };
    assert_eq!(sid_to_string(&SID, Ok("S-1-5-18".to_string())), "S-1-5-18");
    assert_eq!(sid_to_string(&SID, failed()), "010100000000000512000000");
    assert_eq!(sid_to_string(&[0xAB, 0x0F, 0xF0], failed()), "ab0ff0");
    assert_eq!(sid_to_string(&[], Ok("S-1-5-18".to_string())), "");
    assert_eq!(sid_to_string(&[], failed()), "");
}

#[test]
fn every_byte_in_hexadecimal() {
    for b in 0..=255u8 {
        let failed = Err(SddlNativeError {
            text: String::new(),
        });
        assert_eq!(sid_to_string(&[b], failed), format!("{:02x}", b));
    }
}

#[test]
fn messages_of_parse_errors() {
    assert_eq!(
        ClassicParseError::DataTooShort("x".to_string()).message(),
        "data too short: x"
    );
    assert_eq!(
        ClassicParseError::InvalidField("y".to_string()).message(),
        "invalid field: y"
    );
    let tdh = TdhNativeError {
        text: "no such event".to_string(),
    };
    assert_eq!(
        ClassicParseError::from(tdh).message(),
        "TDH resolution failed: no such event"
    );
    let sddl = SddlNativeError {
        text: "bad sid".to_string(),
    };
    assert_eq!(ClassicParseError::from(sddl).message(), "SDDL error: bad sid");
}

#[test]
fn metadata_clone_and_hexadecimal_sid() {
    let metadata = ClassicMetadata {
        time_created: 5,
        real_event_id: 7045,
        qualifier: 16384,
        source_name: "s".to_string(),
        sid_string: "S-1-5-18".to_string(),
        raw_sid: vec![0x01, 0xFE],
        channel: "System".to_string(),
        event_message: "m".to_string(),
    };
    let copy = metadata.clone();
    assert_eq!(copy.raw_sid_hex(), "01fe");
    assert_eq!(copy.channel, "System");
    assert_eq!(copy.event_message, "m");
    assert_eq!(copy.time_created, 5);
    assert_eq!(copy.real_event_id, 7045);
}
