use ferrisetw::native::EventRecord;
use ferrisetw::provider::{EventFilter, Provider};
use ferrisetw::trace::callback_data::{
    CallbackData, CallbackDataFromFile, Dispatch, EventTraceFlag, RealTimeCallbackData,
};
use ferrisetw::trace::RealTimeTraceTrait;

fn provider(guid: u128, group_mask: u32) -> Provider {
    Provider {
        guid,
        filters: Vec::new(),
        kernel_flags: 0,
        kernel_group_mask: group_mask,
    }
}

fn event(provider: u128) -> EventRecord {
    EventRecord {
        provider_id: provider,
        event_id: 1,
        version: 0,
        opcode: 0,
        level: 0,
        event_name: String::new(),
        user_buffer: Vec::new(),
    }
}

struct SumOfFlags;

impl RealTimeTraceTrait for SumOfFlags {
    fn enable_flags(providers: &[Provider]) -> u32 {
        providers.iter().map(|p| p.kernel_flags).sum()
    }
}

#[test]
fn new_data_is_empty() {
    let mut data = RealTimeCallbackData::new();
    assert_eq!(data.events_handled(), 0);
    assert!(data.providers().is_empty());
    assert_eq!(data.schema_locator().len(), 0);
    assert_eq!(data.provider_group_mask(), 0);
    let other = RealTimeCallbackData::default();
    assert_eq!(other.events_handled(), 0);
}

#[test]
fn events_go_to_the_providers_that_emit_them() {
    let mut data = RealTimeCallbackData::new();
    for guid in [5, 6, 5, 7, 5] {
        data.add_provider(provider(guid, 0), false);
    }
    assert_eq!(data.on_event(&event(5)), vec![0, 2, 4]);
    assert_eq!(data.on_event(&event(6)), vec![1]);
    assert!(data.on_event(&event(8)).is_empty());
    assert_eq!(data.events_handled(), 3);
    let guids: Vec<u128> = data.providers().iter().map(|p| p.guid).collect();
    assert_eq!(guids, vec![5, 6, 5, 7, 5]);
}

#[test]
fn classic_providers_are_registered() {
    let mut data = RealTimeCallbackData::new();
    assert!(!data.add_provider(provider(5, 0), true));
    assert!(!data.add_provider(provider(6, 0), false));
    assert!(data.schema_locator().is_classic_provider(&5));
    assert!(!data.schema_locator().is_classic_provider(&6));
}

#[test]
fn event_id_filters_on_classic_providers_are_warned_about() {
    let filtered = |guid: u128| {
        let mut p = provider(guid, 0);
        p.filters = vec![EventFilter::Other, EventFilter::ByEventIds(vec![7045])];
        p
    };
    let mut data = RealTimeCallbackData::new();
    assert!(data.add_provider(filtered(5), true));
    assert!(!data.add_provider(filtered(6), false));
    // A provider that was registered before is a classic one.
    data.schema_locator().register_classic_provider(7);
    assert!(data.add_provider(filtered(7), false));
    let mut other = provider(5, 0);
    other.filters = vec![EventFilter::Other];
    assert!(!data.add_provider(other, true));
}

#[test]
fn group_masks_are_combined() {
    let mut data = RealTimeCallbackData::new();
    data.add_provider(provider(1, 0), false);
    assert_eq!(data.provider_group_mask(), 0);
    data.add_provider(provider(2, 0x8000_0001), false);
    data.add_provider(provider(3, 0x0000_0011), false);
    assert_eq!(data.provider_group_mask(), 0x8000_0011);
}

#[test]
fn flags_come_from_the_kind_of_trace() {
    let mut data = RealTimeCallbackData::new();
    for flags in [1, 4, 16] {
        let mut p = provider(1, 0);
        p.kernel_flags = flags;
        data.add_provider(p, false);
    }
    assert_eq!(data.provider_flags::<SumOfFlags>(), EventTraceFlag(21));
}

#[test]
fn file_events_go_to_the_one_callback() {
    let mut file = CallbackDataFromFile::new("callback");
    assert!(matches!(file.on_event(&event(1)), Dispatch::FileCallback));
    assert_eq!(file.events_handled(), 1);
    assert_eq!(*file.callback(), "callback");
    file.schema_locator().register_classic_provider(3);
    let mut data = CallbackData::FromFile(file);
    assert!(matches!(data.on_event(&event(2)), Dispatch::FileCallback));
    assert_eq!(data.events_handled(), 2);
    assert!(data.schema_locator().is_classic_provider(&3));
}

#[test]
fn real_time_events_are_dispatched() {
    let mut real_time = RealTimeCallbackData::new();
    real_time.add_provider(provider(5, 0), true);
    real_time.add_provider(provider(6, 0), false);
    let mut data: CallbackData<()> = CallbackData::RealTime(real_time);
    match data.on_event(&event(6)) {
        Dispatch::Providers(order) => assert_eq!(order, vec![1]),
        Dispatch::FileCallback => panic!("there is no file"),
    }
    assert_eq!(data.events_handled(), 1);
    assert!(data.schema_locator().is_classic_provider(&5));
}
