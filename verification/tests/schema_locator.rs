use ferrisetw::classic::{read_null_terminated_wstring, ClassicParseError};
use ferrisetw::native::{
    DecodingSource, EventRecord, SddlNativeError, TdhNativeError, TraceEventInfo,
};
use ferrisetw::schema_locator::{
    NativeAnswers, Resolution, SchemaError, SchemaKey, SchemaLocator, Step,
};
use std::sync::Arc;

const SCM: u128 = 0x555908D1_A6D7_4695_8E1E_26931D2012F4;

fn wide(text: &str) -> Vec<u8> {
    let mut bytes = Vec::new();
    for unit in text.encode_utf16() {
        bytes.extend_from_slice(&unit.to_le_bytes());
    }
    bytes.extend_from_slice(&[0, 0]);
    bytes
}

fn payload(id: u16, sid: &[u8], strings: &[&str]) -> Vec<u8> {
    let mut data = Vec::new();
    data.extend_from_slice(&77i64.to_le_bytes());
    data.extend_from_slice(&id.to_le_bytes());
    data.extend_from_slice(&0x4000u16.to_le_bytes());
    data.extend_from_slice(&24u16.to_le_bytes());
    data.extend_from_slice(&wide("Service Control Manager"));
    data.extend_from_slice(&(sid.len() as u16).to_le_bytes());
    data.extend_from_slice(sid);
    data.extend_from_slice(&(strings.len() as u16).to_le_bytes());
    for s in strings {
        data.extend_from_slice(&wide(s));
    }
    data
}

fn event(provider: u128, id: u16, buffer: Vec<u8>) -> EventRecord {
    EventRecord {
        provider_id: provider,
        event_id: id,
        version: 1,
        opcode: 2,
        level: 3,
        event_name: String::new(),
        user_buffer: buffer,
    }
}

fn info(id: u16, name: &str) -> TraceEventInfo {
    TraceEventInfo {
        provider_guid: SCM,
        event_id: id,
        event_version: 0,
        decoding_source: DecodingSource(0),
        provider_name: name.to_string(),
        task_name: String::new(),
        opcode_name: String::new(),
        channel_name: "System".to_string(),
        event_message: "A service was installed.".to_string(),
        properties: Vec::new(),
    }
}

fn tdh(text: &str) -> TdhNativeError {
    TdhNativeError {
        text: text.to_string(),
    }
}

fn no_answers() -> NativeAnswers {
    NativeAnswers {
        event_info: Err(tdh("none")),
        classic_info: Err(tdh("none")),
        sid_string: Err(SddlNativeError {
            text: "none".to_string(),
        }),
    }
}

fn asks_for_event_info(step: Step) -> SchemaKey {
    match step.resolution {
        Resolution::QueryEventInfo(key) => key,
        _ => panic!("the event should be asked about"),
    }
}

#[test]
fn registering_makes_a_provider_classic() {
    let mut locator = SchemaLocator::new();
    assert!(!locator.is_classic_provider(&SCM));
    locator.register_classic_provider(SCM);
    assert!(locator.is_classic_provider(&SCM));
    assert!(!locator.is_classic_provider(&(SCM + 1)));
    locator.register_classic_provider(SCM + 1);
    locator.register_classic_provider(SCM);
    assert!(locator.is_classic_provider(&SCM));
    assert!(locator.is_classic_provider(&(SCM + 1)));
}

#[test]
fn detection_goes_by_the_keyword() {
    let mut locator = SchemaLocator::default();
    locator.detect_and_register_classic_provider(&SCM, false);
    assert!(!locator.is_classic_provider(&SCM));
    locator.detect_and_register_classic_provider(&SCM, true);
    assert!(locator.is_classic_provider(&SCM));
    locator.detect_and_register_classic_provider(&SCM, false);
    assert!(locator.is_classic_provider(&SCM));
}

#[test]
fn an_event_is_asked_about_once() {
    let mut locator = SchemaLocator::new();
    let record = event(1, 10, Vec::new());
    let step = locator.event_schema(&record);
    assert!(step.classic_failure.is_none());
    let key = asks_for_event_info(step);
    assert_eq!(locator.len(), 0);
    let schema = locator.event_info_resolved(key, Ok(info(10, "p"))).unwrap();
    assert_eq!(locator.len(), 1);
    assert!(schema.classic_metadata().is_none());
    match locator.event_schema(&event(1, 10, vec![9])).resolution {
        Resolution::Resolved(found) => assert!(Arc::ptr_eq(&found, &schema)),
        _ => panic!("the schema is known"),
    }
}

#[test]
fn each_element_of_the_key_counts() {
    let mut locator = SchemaLocator::new();
    let mut answers = no_answers();
    answers.event_info = Ok(info(10, "p"));
    locator
        .event_schema_with(&event(1, 10, Vec::new()), answers)
        .schema
        .unwrap();
    let mut other = event(2, 10, Vec::new());
    asks_for_event_info(locator.event_schema(&other));
    other = event(1, 11, Vec::new());
    asks_for_event_info(locator.event_schema(&other));
    other = event(1, 10, Vec::new());
    other.version = 9;
    asks_for_event_info(locator.event_schema(&other));
    other = event(1, 10, Vec::new());
    other.opcode = 9;
    asks_for_event_info(locator.event_schema(&other));
    other = event(1, 10, Vec::new());
    other.level = 9;
    asks_for_event_info(locator.event_schema(&other));
    other = event(1, 10, Vec::new());
    other.event_name = "named".to_string();
    asks_for_event_info(locator.event_schema(&other));
}

#[test]
fn keys_that_hash_alike_are_told_apart() {
    let mut locator = SchemaLocator::new();
    for name in ["a", "b", "c"] {
        let mut record = event(1, 10, Vec::new());
        record.event_name = name.to_string();
        let mut answers = no_answers();
        answers.event_info = Ok(info(10, name));
        locator.event_schema_with(&record, answers).schema.unwrap();
    }
    assert_eq!(locator.len(), 3);
    for name in ["b", "a", "c"] {
        let mut record = event(1, 10, Vec::new());
        record.event_name = name.to_string();
        let schema = locator.event_schema_with(&record, no_answers()).schema.unwrap();
        assert_eq!(schema.provider_name(), name);
    }
}

#[test]
fn a_key_that_comes_again_replaces_its_schema() {
    let mut locator = SchemaLocator::new();
    let record = event(1, 10, Vec::new());
    let first = asks_for_event_info(locator.event_schema(&record));
    let second = asks_for_event_info(locator.event_schema(&record));
    locator.event_info_resolved(first, Ok(info(10, "old"))).unwrap();
    locator.event_info_resolved(second, Ok(info(10, "new"))).unwrap();
    assert_eq!(locator.len(), 1);
    let schema = locator.event_schema_with(&record, no_answers()).schema.unwrap();
    assert_eq!(schema.provider_name(), "new");
}

#[test]
fn many_schemas() {
    let mut locator = SchemaLocator::new();
    for id in 0..500u16 {
        let mut answers = no_answers();
        answers.event_info = Ok(info(id, &format!("{}", id)));
        locator
            .event_schema_with(&event(id as u128 % 7, id, Vec::new()), answers)
            .schema
            .unwrap();
    }
    assert_eq!(locator.len(), 500);
    for id in 0..500u16 {
        let schema = locator
            .event_schema_with(&event(id as u128 % 7, id, Vec::new()), no_answers())
            .schema
            .unwrap();
        assert_eq!(schema.provider_name(), format!("{}", id));
    }
}

#[test]
fn a_failed_question_keeps_nothing() {
    let mut locator = SchemaLocator::new();
    let record = event(1, 10, Vec::new());
    match locator.event_schema_with(&record, no_answers()).schema {
        Err(SchemaError::TdhNativeError(e)) => assert_eq!(e.text, "none"),
        _ => panic!("TDH had no answer"),
    }
    assert_eq!(locator.len(), 0);
    asks_for_event_info(locator.event_schema(&record));
}

#[test]
fn a_classic_event_is_resolved_step_by_step() {
    let mut locator = SchemaLocator::new();
    locator.register_classic_provider(SCM);
    let sid = [1u8, 2, 3];
    let record = event(SCM, 0, payload(7045, &sid, &["name", "C:\\x.exe"]));

    let raw = match locator.event_schema(&record).resolution {
        Resolution::QueryClassicInfo(raw) => raw,
        _ => panic!("the information about the event is not known"),
    };
    assert_eq!(raw.real_event_id, 7045);
    let step = locator.classic_info_resolved(&record, raw, Ok(info(7045, "SCM")));
    assert!(step.classic_failure.is_none());
    let schema = match step.resolution {
        Resolution::ConvertSid(raw, te_info) => {
            assert_eq!(raw.sid_bytes, sid.to_vec());
            SchemaLocator::classic_schema(raw, te_info, Ok("S-1-5-18".to_string()))
        }
        _ => panic!("the SID has to be converted"),
    };
    let metadata = schema.classic_metadata().unwrap();
    assert_eq!(metadata.time_created, 77);
    assert_eq!(metadata.real_event_id, 7045);
    assert_eq!(metadata.qualifier, 0x4000);
    assert_eq!(metadata.source_name, "Service Control Manager");
    assert_eq!(metadata.sid_string, "S-1-5-18");
    assert_eq!(metadata.raw_sid, sid.to_vec());
    assert_eq!(metadata.channel, "System");
    assert_eq!(metadata.event_message, "A service was installed.");
    assert_eq!(schema.provider_name(), "SCM");

    let buffer = schema.synthetic_user_data().unwrap();
    let mut offset = 0;
    assert_eq!(read_null_terminated_wstring(buffer, &mut offset), "name");
    assert_eq!(read_null_terminated_wstring(buffer, &mut offset), "C:\\x.exe");
    assert_eq!(offset, buffer.len());

    // The information is kept, the schema is not.
    assert_eq!(locator.len(), 0);
    let again = event(SCM, 0, payload(7045, &sid, &["other"]));
    match locator.event_schema(&again).resolution {
        Resolution::ConvertSid(raw, te_info) => {
            assert_eq!(raw.strings, vec!["other"]);
            assert_eq!(te_info.provider_name, "SCM");
        }
        _ => panic!("the information about the event is known"),
    }
    // Another real event ID is another type of event.
    let different = event(SCM, 0, payload(7046, &sid, &[]));
    assert!(matches!(
        locator.event_schema(&different).resolution,
        Resolution::QueryClassicInfo(_)
    ));
}

#[test]
fn a_classic_event_without_sid_needs_no_conversion() {
    let mut locator = SchemaLocator::new();
    locator.register_classic_provider(SCM);
    let record = event(SCM, 0, payload(1, &[], &[]));
    let raw = match locator.event_schema(&record).resolution {
        Resolution::QueryClassicInfo(raw) => raw,
        _ => panic!("the information about the event is not known"),
    };
    match locator
        .classic_info_resolved(&record, raw, Ok(info(1, "SCM")))
        .resolution
    {
        Resolution::Resolved(schema) => {
            assert_eq!(schema.classic_metadata().unwrap().sid_string, "");
            assert!(schema.synthetic_user_data().unwrap().is_empty());
        }
        _ => panic!("there is no SID"),
    }
}

#[test]
fn a_sid_that_cannot_be_converted_is_shown_in_hexadecimal() {
    let mut locator = SchemaLocator::new();
    locator.register_classic_provider(SCM);
    let record = event(SCM, 0, payload(1, &[0xDE, 0xAD], &[]));
    let mut answers = no_answers();
    answers.classic_info = Ok(info(1, "SCM"));
    let schema = locator.event_schema_with(&record, answers).schema.unwrap();
    assert_eq!(schema.classic_metadata().unwrap().sid_string, "dead");
}

#[test]
fn a_payload_that_cannot_be_parsed_is_no_loss() {
    let mut locator = SchemaLocator::new();
    locator.register_classic_provider(SCM);
    let record = event(SCM, 4, vec![1, 2, 3]);
    let step = locator.event_schema(&record);
    match &step.classic_failure {
        Some(SchemaError::ClassicParseError(ClassicParseError::DataTooShort(s))) => {
            assert_eq!(s, "need i64 at offset 0, have 3 bytes remaining")
        }
        _ => panic!("the payload is too short"),
    }
    let key = asks_for_event_info(step);
    locator.event_info_resolved(key, Ok(info(4, "plain"))).unwrap();
    let again = locator.event_schema(&record);
    assert!(again.classic_failure.is_some());
    assert!(matches!(again.resolution, Resolution::Resolved(_)));
}

#[test]
fn a_classic_event_that_tdh_does_not_know_is_no_loss() {
    let mut locator = SchemaLocator::new();
    locator.register_classic_provider(SCM);
    let record = event(SCM, 0, payload(7045, &[], &["a"]));
    let raw = match locator.event_schema(&record).resolution {
        Resolution::QueryClassicInfo(raw) => raw,
        _ => panic!("the information about the event is not known"),
    };
    let step = locator.classic_info_resolved(&record, raw, Err(tdh("not found")));
    assert_eq!(
        step.classic_failure.as_ref().unwrap().message(),
        "Classic parse error: TDH resolution failed: not found"
    );
    asks_for_event_info(step);

    let mut answers = no_answers();
    answers.event_info = Ok(info(0, "plain"));
    let schema = locator.event_schema_with(&record, answers).schema.unwrap();
    assert!(schema.classic_metadata().is_none());
    assert_eq!(schema.provider_name(), "plain");
}

#[test]
fn tdh_is_not_asked_again_about_a_type_it_does_not_know() {
    let mut locator = SchemaLocator::new();
    locator.register_classic_provider(SCM);
    let first = event(SCM, 0, payload(7045, &[], &["a"]));
    let raw = match locator.event_schema(&first).resolution {
        Resolution::QueryClassicInfo(raw) => raw,
        _ => panic!("the information about the event is not known"),
    };
    locator.classic_info_resolved(&first, raw, Err(tdh("not found")));

    let second = event(SCM, 0, payload(7045, &[1, 2], &["b", "c"]));
    let step = locator.event_schema(&second);
    assert_eq!(
        step.classic_failure.as_ref().unwrap().message(),
        "Classic parse error: TDH resolution failed: not found"
    );
    let key = asks_for_event_info(step);
    match locator.classic_event_schema(&second) {
        Err(SchemaError::ClassicParseError(ClassicParseError::TdhResolutionFailed(e))) => {
            assert_eq!(e.text, "not found")
        }
        _ => panic!("TDH does not know the type of the event"),
    }

    // Once the schema is there, nothing is asked at all.
    locator.event_info_resolved(key, Ok(info(0, "plain"))).unwrap();
    let third = locator.event_schema(&event(SCM, 0, payload(7045, &[], &[])));
    assert!(third.classic_failure.is_some());
    match third.resolution {
        Resolution::Resolved(schema) => {
            assert_eq!(schema.provider_name(), "plain");
            assert!(schema.classic_metadata().is_none());
        }
        _ => panic!("the schema is known"),
    }

    // Other types of events, and the same number from another provider, are asked about.
    locator.register_classic_provider(SCM + 1);
    for other in [
        event(SCM, 0, payload(7046, &[], &[])),
        event(SCM + 1, 0, payload(7045, &[], &[])),
    ] {
        let step = locator.event_schema(&other);
        assert!(step.classic_failure.is_none());
        assert!(matches!(step.resolution, Resolution::QueryClassicInfo(_)));
    }
}

#[test]
fn a_failed_type_stays_refused() {
    let mut locator = SchemaLocator::new();
    locator.register_classic_provider(SCM);
    let record = event(SCM, 0, payload(7045, &[], &["a"]));
    let mut answers = no_answers();
    answers.classic_info = Err(tdh("first"));
    let located = locator.event_schema_with(&record, answers);
    assert!(located.schema.is_err());
    assert_eq!(
        located.classic_failure.unwrap().message(),
        "Classic parse error: TDH resolution failed: first"
    );

    let mut answers = no_answers();
    answers.event_info = Ok(info(0, "plain"));
    answers.classic_info = Ok(info(7045, "classic"));
    let located = locator.event_schema_with(&record, answers);
    assert_eq!(
        located.classic_failure.unwrap().message(),
        "Classic parse error: TDH resolution failed: first"
    );
    assert_eq!(located.schema.unwrap().provider_name(), "plain");
    assert_eq!(locator.len(), 1);
}

#[test]
fn the_last_answer_about_a_type_counts() {
    let mut locator = SchemaLocator::new();
    locator.register_classic_provider(SCM);
    let record = event(SCM, 0, payload(7045, &[], &["a"]));
    let mut asked = Vec::new();
    for _ in 0..3 {
        match locator.event_schema(&record).resolution {
            Resolution::QueryClassicInfo(raw) => asked.push(raw),
            _ => panic!("the information about the event is not known"),
        }
    }
    locator.classic_info_resolved(&record, asked.remove(0), Err(tdh("busy")));
    locator.classic_info_resolved(&record, asked.remove(0), Ok(info(7045, "SCM")));
    let step = locator.event_schema(&record);
    assert!(step.classic_failure.is_none());
    match step.resolution {
        Resolution::Resolved(schema) => assert_eq!(schema.provider_name(), "SCM"),
        _ => panic!("the information about the event is known"),
    }
    locator.classic_info_resolved(&record, asked.remove(0), Err(tdh("gone")));
    let step = locator.event_schema(&record);
    assert_eq!(
        step.classic_failure.as_ref().unwrap().message(),
        "Classic parse error: TDH resolution failed: gone"
    );
    asks_for_event_info(step);
}

#[test]
fn what_was_found_stays_as_other_events_come() {
    let mut locator = SchemaLocator::new();
    let record = event(1, 10, Vec::new());
    let mut answers = no_answers();
    answers.event_info = Ok(info(10, "kept"));
    let located = locator.event_schema_with(&record, answers);
    assert!(located.classic_failure.is_none());
    let schema = located.schema.unwrap();

    locator.register_classic_provider(SCM);
    let mut answers = no_answers();
    answers.classic_info = Ok(info(7, "classic"));
    locator
        .event_schema_with(&event(SCM, 0, payload(7, &[], &[])), answers)
        .schema
        .unwrap();
    let unknown = event(SCM, 0, payload(8, &[], &[]));
    assert!(locator.event_schema_with(&unknown, no_answers()).schema.is_err());

    let mut answers = no_answers();
    answers.event_info = Ok(info(10, "other"));
    let again = locator.event_schema_with(&record, answers).schema.unwrap();
    assert!(Arc::ptr_eq(&again, &schema));
    assert_eq!(again.provider_name(), "kept");
    assert!(again.classic_metadata().is_none());
}

#[test]
fn other_providers_are_not_parsed() {
    let mut locator = SchemaLocator::new();
    locator.register_classic_provider(SCM + 1);
    let record = event(SCM, 0, payload(7045, &[], &["a"]));
    let mut answers = no_answers();
    answers.event_info = Ok(info(0, "plain"));
    answers.classic_info = Ok(info(7045, "classic"));
    let schema = locator.event_schema_with(&record, answers).schema.unwrap();
    assert!(schema.classic_metadata().is_none());
    assert_eq!(schema.provider_name(), "plain");
}

#[test]
fn classic_parse_result_is_returned_on_its_own() {
    let locator = SchemaLocator::new();
    assert!(matches!(
        locator.classic_event_schema(&event(SCM, 0, payload(5, &[], &[]))),
        Ok(Resolution::QueryClassicInfo(_))
    ));
    match locator.classic_event_schema(&event(SCM, 0, vec![0; 14])) {
        Err(e) => assert_eq!(
            e.message(),
            "Classic parse error: invalid field: SourceName wchar count is zero"
        ),
        Ok(_) => panic!("the source name has no length"),
    }
}

#[test]
fn messages_of_schema_errors() {
    assert_eq!(SchemaError::from(tdh("x")).message(), "TDH error: x");
    let parse = ClassicParseError::InvalidField("y".to_string());
    assert_eq!(
        SchemaError::from(parse).message(),
        "Classic parse error: invalid field: y"
    );
}
