use ferrisetw::classic::ClassicMetadata;
use ferrisetw::native::{DecodingSource, Property, PropertyError, TraceEventInfo};
use ferrisetw::schema::{collect_properties, ClassicSchemaData, Schema};
use std::sync::Arc;

fn property(name: &str) -> Property {
    Property {
        name: name.to_string(),
        flags: 1,
        in_type: 2,
        out_type: 3,
        length: 4,
        count: 5,
    }
}

fn info(guid: u128, id: u16, version: u8) -> TraceEventInfo {
    TraceEventInfo {
        provider_guid: guid,
        event_id: id,
        event_version: version,
        decoding_source: DecodingSource(3),
        provider_name: "provider".to_string(),
        task_name: "task".to_string(),
        opcode_name: "opcode".to_string(),
        channel_name: "System".to_string(),
        event_message: "message".to_string(),
        properties: vec![Ok(property("a")), Ok(property("b"))],
    }
}

fn metadata() -> ClassicMetadata {
    ClassicMetadata {
        time_created: 1,
        real_event_id: 7045,
        qualifier: 2,
        source_name: "source".to_string(),
        sid_string: "S-1-5-18".to_string(),
        raw_sid: vec![1, 2],
        channel: "System".to_string(),
        event_message: "message".to_string(),
    }
}

#[test]
fn getters_read_the_event_information() {
    let schema = Schema::new(info(1, 2, 3));
    assert_eq!(schema.decoding_source(), DecodingSource(3));
    assert_eq!(schema.provider_name(), "provider");
    assert_eq!(schema.task_name(), "task");
    assert_eq!(schema.opcode_name(), "opcode");
    assert!(schema.classic_metadata().is_none());
    assert!(schema.synthetic_user_data().is_none());
}

#[test]
fn classic_schemas_carry_their_data() {
    let shared = Arc::new(info(1, 2, 3));
    let schema = Schema::new_classic(
        Arc::clone(&shared),
        ClassicSchemaData {
            metadata: metadata(),
            synthetic_user_data: vec![65, 0, 0, 0],
        },
    );
    assert_eq!(schema.classic_metadata().unwrap().real_event_id, 7045);
    assert_eq!(schema.classic_metadata().unwrap().sid_string, "S-1-5-18");
    assert_eq!(schema.synthetic_user_data().unwrap(), &[65, 0, 0, 0]);
    assert_eq!(schema.provider_name(), "provider");
    assert_eq!(Arc::strong_count(&shared), 2);
}

#[test]
fn properties_are_listed_in_order() {
    let schema = Schema::new(info(1, 2, 3));
    let names: Vec<&str> = schema.properties().iter().map(|p| p.name.as_str()).collect();
    assert_eq!(names, vec!["a", "b"]);
    let first = &schema.try_properties().unwrap()[0];
    assert_eq!(first.flags, 1);
    assert_eq!(first.in_type, 2);
    assert_eq!(first.out_type, 3);
    assert_eq!(first.length, 4);
    assert_eq!(first.count, 5);
}

#[test]
fn properties_are_listed_once() {
    let schema = Schema::new(info(1, 2, 3));
    let first = schema.properties().as_ptr();
    assert_eq!(schema.properties().as_ptr(), first);
    assert_eq!(schema.try_properties().unwrap().as_ptr(), first);
}

#[test]
fn the_first_error_is_returned_each_time() {
    let mut te_info = info(1, 2, 3);
    te_info
        .properties
        .push(Err(PropertyError::UnimplementedType("first")));
    te_info.properties.push(Ok(property("c")));
    te_info
        .properties
        .push(Err(PropertyError::UnimplementedType("second")));
    let schema = Schema::new(te_info);
    for _ in 0..2 {
        match schema.try_properties() {
            Err(PropertyError::UnimplementedType(name)) => assert_eq!(name, "first"),
            Ok(_) => panic!("a type is not implemented"),
        }
        assert!(schema.properties().is_empty());
    }
}

#[test]
fn no_properties() {
    let mut te_info = info(1, 2, 3);
    te_info.properties.clear();
    let schema = Schema::new(te_info);
    assert!(schema.try_properties().unwrap().is_empty());
}

#[test]
fn equality_is_by_event_provider_and_version() {
    let a = Schema::new(info(1, 2, 3));
    let mut other = info(1, 2, 3);
    other.provider_name = "another name".to_string();
    other.properties.clear();
    let b = Schema::new(other);
    let c = Schema::new_classic(
        Arc::new(info(1, 2, 3)),
        ClassicSchemaData {
            metadata: metadata(),
            synthetic_user_data: Vec::new(),
        },
    );
    assert!(a == a);
    assert!(a == b && b == a);
    assert!(b == c && a == c);
    assert!(a != Schema::new(info(9, 2, 3)));
    assert!(a != Schema::new(info(1, 9, 3)));
    assert!(a != Schema::new(info(1, 2, 9)));
}

#[test]
fn collecting_stops_at_the_first_error() {
    let mut te_info = info(1, 2, 3);
    assert_eq!(collect_properties(&te_info).unwrap().len(), 2);
    te_info
        .properties
        .insert(1, Err(PropertyError::UnimplementedType("middle")));
    assert!(matches!(
        collect_properties(&te_info),
        Err(PropertyError::UnimplementedType("middle"))
    ));
}
