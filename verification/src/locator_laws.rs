//! What holds of a schema locator over several events.

use crate::cache::CacheKey;
use crate::classic::{
    classic_record, encode_strings_as_user_data, encoded_strings, parse_classic_user_data, strings_at,
    ClassicMetadata, ClassicParseError, ClassicParseErrorView, RawClassicRecord,
    RawClassicRecordView,
};
use crate::classic_laws::law_synthetic_buffer_holds_the_strings;
use crate::native::{EventRecord, SddlNativeError, TdhNativeError, TraceEventInfo, GUID};
use crate::schema::Schema;
use crate::schema_locator::{
    after_classic, classic_failure, classic_key, classic_refusal, classic_route, classic_schema_view,
    event_key, looks_up, looks_up_any, Located, LocatorView, NativeAnswers, Resolution, SchemaError,
    SchemaKey, SchemaKeyView, SchemaLocator, SchemaResult, Step,
};
use crate::text::hex;
use std::sync::Arc;
use vstd::prelude::*;

verus! {

/// The types of classic events that TDH was asked about.
pub open spec fn asked_about(known: LocatorView) -> Set<(GUID, u16)> {
    known.classic_infos.dom().union(known.classic_failures.dom())
}

/// Whether a locator knows of all that another one knew of.
pub open spec fn knows_all_of(later: LocatorView, earlier: LocatorView) -> bool {
    &&& earlier.schemas.dom().subset_of(later.schemas.dom())
    &&& asked_about(earlier).subset_of(asked_about(later))
    &&& earlier.classic_providers.subset_of(later.classic_providers)
}

/// Whether a locator holds all that another one held, unchanged.
pub open spec fn keeps_all_of(later: LocatorView, earlier: LocatorView) -> bool {
    &&& earlier.schemas.submap_of(later.schemas)
    &&& earlier.classic_infos.submap_of(later.classic_infos)
    &&& earlier.classic_failures.submap_of(later.classic_failures)
    &&& earlier.classic_providers.subset_of(later.classic_providers)
}

/// No change makes a locator forget: one that knows of all that an earlier one knew of still does
/// after one more change.
pub proof fn law_locator_never_forgets(
    known: LocatorView,
    later: LocatorView,
    guid: GUID,
    real_event_id: u16,
    info: TraceEventInfo,
    text: Seq<char>,
    key: SchemaKeyView,
    schema: Schema,
)
    requires
        knows_all_of(later, known),
    ensures
        knows_all_of(known, known),
        knows_all_of(later.with_provider(guid), known),
        knows_all_of(later.with_classic_info(guid, real_event_id, info), known),
        knows_all_of(later.with_classic_failure(guid, real_event_id, text), known),
        knows_all_of(later.with_schema(key, schema), known),
{
}

/// Whatever event is looked at, nothing that is held changes: a locator that holds all that an
/// earlier one held still does after the event was tried as a classic one, and after a schema was
/// kept where there was none.
pub proof fn law_looking_at_an_event_keeps_what_is_held(
    known: LocatorView,
    later: LocatorView,
    event: EventRecord,
    classic_info: Result<TraceEventInfo, TdhNativeError>,
    schema: Schema,
)
    requires
        keeps_all_of(later, known),
    ensures
        keeps_all_of(known, known),
        keeps_all_of(later.with_provider(event.provider_id), known),
        keeps_all_of(after_classic(later, event, classic_info), known),
        !later.schemas.contains_key(event_key(event)) ==> keeps_all_of(
            after_classic(later, event, classic_info).with_schema(event_key(event), schema),
            known,
        ),
{
}

/// A locator is consistent from the start and stays so: the schemas that it keeps under keys are
/// those of ordinary events, and it has one answer about each type of classic event that it asked
/// about.
pub proof fn law_locators_are_consistent(
    known: LocatorView,
    guid: GUID,
    real_event_id: u16,
    info: TraceEventInfo,
    text: Seq<char>,
    key: SchemaKeyView,
    schema: Schema,
)
    requires
        known.consistent(),
        schema@.classic_data is None,
    ensures
        LocatorView::empty().consistent(),
        known.with_provider(guid).consistent(),
        known.with_classic_info(guid, real_event_id, info).consistent(),
        known.with_classic_failure(guid, real_event_id, text).consistent(),
        known.with_schema(key, schema).consistent(),
{
}

/// A provider that was registered is a classic provider, and no other provider becomes one.
pub proof fn law_registered_provider_is_classic(known: LocatorView, guid: GUID, other: GUID)
    ensures
        known.with_provider(guid).classic_providers.contains(guid),
        other != guid ==> known.with_provider(guid).classic_providers.contains(other)
            == known.classic_providers.contains(other),
{
}

/// Once a schema is kept under the key of an event, TDH is not asked again about events with that
/// key. After a failed answer there is no schema, and TDH is asked again.
pub proof fn law_no_question_once_a_schema_is_kept(
    known: LocatorView,
    first: EventRecord,
    schema: Schema,
    later: LocatorView,
    second: EventRecord,
    resolution: Resolution,
)
    requires
        knows_all_of(later, known.with_schema(event_key(first), schema)),
        event_key(second) == event_key(first),
        looks_up(later, second, resolution),
    ensures
        resolution is Resolved,
{
    assert(known.with_schema(event_key(first), schema).schemas.dom().contains(event_key(first)));
}

/// The schema that was made for an event is the one that later events with the same key get, as
/// long as what is held is kept.
pub proof fn law_later_events_get_the_schema_that_was_kept(
    known: LocatorView,
    first: EventRecord,
    schema: Schema,
    later: LocatorView,
    second: EventRecord,
    resolution: Resolution,
)
    requires
        keeps_all_of(later, known.with_schema(event_key(first), schema)),
        event_key(second) == event_key(first),
        looks_up(later, second, resolution),
    ensures
        resolution matches Resolution::Resolved(found) && *found == schema,
{
    let kept = known.with_schema(event_key(first), schema).schemas;
    assert(kept.dom().contains(event_key(first)));
    assert(kept[event_key(first)] == schema);
}

/// TDH is asked at most once about each type of classic event: once it answered, with information
/// or with an error, an event of the same provider and real event ID leads to no question for it.
pub proof fn law_classic_info_is_asked_for_once(
    known: LocatorView,
    provider: GUID,
    real_event_id: u16,
    outcome: Result<TraceEventInfo, TdhNativeError>,
    later: LocatorView,
    event: EventRecord,
    resolution: Resolution,
)
    requires
        knows_all_of(
            later,
            match outcome {
                Ok(info) => known.with_classic_info(provider, real_event_id, info),
                Err(e) => known.with_classic_failure(provider, real_event_id, e.text@),
            },
        ),
        classic_record(event.user_buffer@) is Ok,
        classic_key(event) == (provider, real_event_id),
        looks_up_any(later, event, resolution),
    ensures
        !(resolution is QueryClassicInfo),
{
    let kept = match outcome {
        Ok(info) => known.with_classic_info(provider, real_event_id, info),
        Err(e) => known.with_classic_failure(provider, real_event_id, e.text@),
    };
    assert(asked_about(kept).contains((provider, real_event_id)));
    assert(asked_about(later).contains((provider, real_event_id)));
}

/// Once TDH had no information about a type of classic event, no event of that type is treated as a
/// classic one as long as what is held is kept, whatever TDH would answer then, and the first error
/// is reported with each of them.
pub proof fn law_a_failed_type_stays_refused(
    known: LocatorView,
    provider: GUID,
    real_event_id: u16,
    text: Seq<char>,
    later: LocatorView,
    event: EventRecord,
    classic_info: Result<TraceEventInfo, TdhNativeError>,
)
    requires
        keeps_all_of(later, known.with_classic_failure(provider, real_event_id, text)),
        classic_record(event.user_buffer@) is Ok,
        classic_key(event) == (provider, real_event_id),
    ensures
        classic_refusal(later, event) == Some(ClassicParseErrorView::TdhResolutionFailed(text)),
        classic_route(later, event, classic_info) is None,
        after_classic(later, event, classic_info) == later,
        later.classic_providers.contains(provider) ==> classic_failure(later, event, classic_info)
            == Some(ClassicParseErrorView::TdhResolutionFailed(text)),
{
    let kept = known.with_classic_failure(provider, real_event_id, text).classic_failures;
    assert(kept.dom().contains((provider, real_event_id)));
    assert(kept[(provider, real_event_id)] == text);
}

/// Events with the same key that are not treated as classic ones share their schema.
pub proof fn law_events_with_the_same_key_share_their_schema(
    known: LocatorView,
    a: EventRecord,
    b: EventRecord,
    found_a: Resolution,
    found_b: Resolution,
)
    requires
        event_key(a) == event_key(b),
        looks_up(known, a, found_a),
        looks_up(known, b, found_b),
    ensures
        found_a matches Resolution::Resolved(schema) ==> (found_b matches Resolution::Resolved(
            other,
        ) && *other == *schema),
        found_a is QueryEventInfo ==> found_b is QueryEventInfo,
{
}

/// Keeping an answer about a type of classic event leaves the kept schemas as they are, and keeping
/// a schema leaves the answers about classic events as they are.
pub proof fn law_the_caches_are_separate(
    known: LocatorView,
    provider: GUID,
    real_event_id: u16,
    info: TraceEventInfo,
    text: Seq<char>,
    key: SchemaKeyView,
    schema: Schema,
)
    ensures
        known.with_classic_info(provider, real_event_id, info).schemas == known.schemas,
        known.with_classic_failure(provider, real_event_id, text).schemas == known.schemas,
        known.with_schema(key, schema).classic_infos == known.classic_infos,
        known.with_schema(key, schema).classic_failures == known.classic_failures,
{
}

/// The schema of a classic event carries the strings of the event: a reader that scans its
/// synthetic buffer for null terminators finds the strings that stand in the payload.
pub proof fn law_classic_schema_carries_the_strings(
    known: LocatorView,
    event: EventRecord,
    classic_info: Result<TraceEventInfo, TdhNativeError>,
    sid_string: Seq<char>,
)
    requires
        classic_route(known, event, classic_info) is Some,
    ensures
        ({
            let (record, info) = classic_route(known, event, classic_info)->0;
            let data = classic_schema_view(record, info, sid_string).classic_data->0;
            &&& classic_record(event.user_buffer@) == Ok::<
                RawClassicRecordView,
                ClassicParseErrorView,
            >(record)
            &&& strings_at(data.synthetic_user_data, 0, 0, record.strings.len() as int) == Ok::<
                Seq<Seq<char>>,
                ClassicParseErrorView,
            >(record.strings)
        }),
{
    law_synthetic_buffer_holds_the_strings(event.user_buffer@);
}

/// An event of a provider that is not registered is never treated as a classic one, whatever its
/// payload.
pub proof fn law_unregistered_providers_are_not_classic(
    known: LocatorView,
    event: EventRecord,
    classic_info: Result<TraceEventInfo, TdhNativeError>,
)
    requires
        !known.classic_providers.contains(event.provider_id),
    ensures
        classic_route(known, event, classic_info) is None,
{
}

/// Two events have the same key if and only if their provider, event ID, version, opcode, level and
/// event name are all equal. So a schema that is kept for one event is never found for an event that
/// differs in any of them.
pub proof fn law_keys_tell_events_apart(
    a: &EventRecord,
    b: &EventRecord,
    a_key: SchemaKey,
    b_key: SchemaKey,
    same: bool,
)
    requires
        call_ensures(SchemaKey::new, (a,), a_key),
        call_ensures(SchemaKey::new, (b,), b_key),
        call_ensures(<SchemaKey as CacheKey>::same, (&a_key, &b_key), same),
    ensures
        same <==> a.provider_id == b.provider_id && a.event_id == b.event_id && a.version
            == b.version && a.opcode == b.opcode && a.level == b.level && a.event_name@
            == b.event_name@,
        a_key@ == b_key@ <==> same,
        event_key(*a) == event_key(*b) <==> same,
        a_key@ == event_key(*a),
{
}

/// A locator that is new knows nothing.
pub proof fn law_new_locators_know_nothing(
    locator: SchemaLocator,
    other: SchemaLocator,
    guid: GUID,
    classic: bool,
    n: usize,
)
    requires
        call_ensures(SchemaLocator::new, (), locator),
        call_ensures(<SchemaLocator as Default>::default, (), other),
        call_ensures(SchemaLocator::is_classic_provider, (&locator, &guid), classic),
        call_ensures(SchemaLocator::len, (&locator,), n),
    ensures
        !classic,
        n == 0,
        locator@.schemas == Map::<SchemaKeyView, Schema>::empty(),
        locator@.classic_infos == Map::<(GUID, u16), TraceEventInfo>::empty(),
        locator@.classic_failures == Map::<(GUID, u16), Seq<char>>::empty(),
        locator@.classic_providers == Set::<GUID>::empty(),
        other@ == locator@,
        LocatorView::empty() == locator@,
{
}

/// What is said of the classic providers and of the number of schemas of a locator is what can be
/// seen of it.
pub proof fn law_locators_show_what_they_know(
    locator: &SchemaLocator,
    guid: GUID,
    classic: bool,
    n: usize,
)
    requires
        call_ensures(SchemaLocator::is_classic_provider, (locator, &guid), classic),
        call_ensures(SchemaLocator::len, (locator,), n),
    ensures
        classic <==> locator@.classic_providers.contains(guid),
        n == locator@.schemas.len(),
{
}

/// Registering a provider makes it a classic one, and detection does so if and only if it has the
/// keyword. No other provider becomes classic, none ceases to be, and nothing else changes.
pub proof fn law_only_the_provider_is_registered(
    locator: &mut SchemaLocator,
    guid: GUID,
    detecting: &mut SchemaLocator,
    has_classic_keyword: bool,
)
    requires
        call_ensures(SchemaLocator::register_classic_provider, (locator, guid), ()),
        call_ensures(
            SchemaLocator::detect_and_register_classic_provider,
            (detecting, &guid, has_classic_keyword),
            (),
        ),
    ensures
        forall|g: GUID| #[trigger]
            final(locator)@.classic_providers.contains(g) <==> g == guid || old(
                locator,
            )@.classic_providers.contains(g),
        final(locator)@.schemas == old(locator)@.schemas,
        final(locator)@.classic_infos == old(locator)@.classic_infos,
        final(locator)@.classic_failures == old(locator)@.classic_failures,
        forall|g: GUID| #[trigger]
            final(detecting)@.classic_providers.contains(g) <==> has_classic_keyword && g == guid
                || old(detecting)@.classic_providers.contains(g),
        final(detecting)@.schemas == old(detecting)@.schemas,
        final(detecting)@.classic_infos == old(detecting)@.classic_infos,
        final(detecting)@.classic_failures == old(detecting)@.classic_failures,
{
}

/// The metadata of a classic event has the channel name and the message of the information, and the
/// time, event ID, qualifier, source name and SID bytes of the record, each unchanged, whatever the
/// strings are. The text of the SID is the converted one where there is one.
pub proof fn law_classic_metadata_is_of_the_record_and_the_information(
    record: RawClassicRecord,
    te_info: Arc<TraceEventInfo>,
    converted: Result<String, SddlNativeError>,
    schema: Arc<Schema>,
    metadata: Option<&ClassicMetadata>,
)
    requires
        call_ensures(SchemaLocator::classic_schema, (record, te_info, converted), schema),
        call_ensures(Schema::classic_metadata, (&*schema,), metadata),
    ensures
        metadata is Some,
        metadata->0.time_created == record.time_created,
        metadata->0.real_event_id == record.real_event_id,
        metadata->0.qualifier == record.qualifier,
        metadata->0.source_name@ == record.source_name@,
        metadata->0.raw_sid@ == record.sid_bytes@,
        metadata->0.channel@ == te_info.channel_name@,
        metadata->0.event_message@ == te_info.event_message@,
        record.sid_bytes@.len() == 0 ==> metadata->0.sid_string@.len() == 0,
        record.sid_bytes@.len() > 0 ==> (converted matches Ok(text) ==> metadata->0.sid_string@
            == text@),
        record.sid_bytes@.len() > 0 && converted is Err ==> metadata->0.sid_string@ == hex(
            record.sid_bytes@,
        ),
{
}

/// The buffer of a classic schema is the encoding of the strings of the record, all of them and in
/// order, and the schema tells the same of its information as the schema of an ordinary event.
pub proof fn law_classic_schema_has_the_encoded_strings(
    record: RawClassicRecord,
    te_info: TraceEventInfo,
    converted: Result<String, SddlNativeError>,
    schema: Arc<Schema>,
    buffer: Option<&[u8]>,
    strings: &[String],
    encoded: Vec<u8>,
    ordinary: Schema,
)
    requires
        call_ensures(SchemaLocator::classic_schema, (record, Arc::new(te_info), converted), schema),
        call_ensures(Schema::synthetic_user_data, (&*schema,), buffer),
        strings@ == record.strings@,
        call_ensures(encode_strings_as_user_data, (strings,), encoded),
        call_ensures(Schema::new, (te_info,), ordinary),
    ensures
        buffer is Some,
        buffer->0@ == encoded@,
        schema@.te_info == te_info,
        ordinary@.te_info == te_info,
{
}

/// What is described of a classic schema, field by field.
pub proof fn law_classic_schema_fields(
    record: RawClassicRecordView,
    info: TraceEventInfo,
    sid_string: Seq<char>,
)
    ensures
        ({
            let schema = classic_schema_view(record, info, sid_string);
            let data = schema.classic_data->0;
            &&& schema.te_info == info
            &&& schema.classic_data is Some
            &&& data.metadata.time_created == record.time_created
            &&& data.metadata.real_event_id == record.real_event_id
            &&& data.metadata.qualifier == record.qualifier
            &&& data.metadata.source_name == record.source_name
            &&& data.metadata.raw_sid == record.sid_bytes
            &&& data.metadata.sid_string == sid_string
            &&& data.metadata.channel == info.channel_name@
            &&& data.metadata.event_message == info.event_message@
            &&& data.synthetic_user_data == encoded_strings(record.strings)
        }),
{
}

/// An event whose provider is registered, whose payload parses and whose type TDH did not fail on
/// goes the classic way, whatever its header holds: with the information about its type where it is
/// known, else by a question for it. Any other event is looked up under its key, and a failure is
/// reported if and only if its provider is registered.
pub proof fn law_registered_events_go_the_classic_way(
    locator: &SchemaLocator,
    event: &EventRecord,
    step: Step,
    payload: &[u8],
    parsed: Result<RawClassicRecord, ClassicParseError>,
)
    requires
        call_ensures(SchemaLocator::event_schema, (locator, event), step),
        payload@ == event.user_buffer@,
        call_ensures(parse_classic_user_data, (payload,), parsed),
    ensures
        ({
            let known = locator@;
            let registered = known.classic_providers.contains(event.provider_id);
            let key = (event.provider_id, parsed->Ok_0.real_event_id);
            if registered && parsed is Ok && !known.classic_failures.contains_key(key) {
                &&& step.classic_failure is None
                &&& if !known.classic_infos.contains_key(key) {
                    step.resolution matches Resolution::QueryClassicInfo(kept) && kept@
                        == parsed->Ok_0@
                } else if parsed->Ok_0.sid_bytes@.len() > 0 {
                    step.resolution matches Resolution::ConvertSid(kept, info) && kept@
                        == parsed->Ok_0@ && *info == known.classic_infos[key]
                } else {
                    step.resolution matches Resolution::Resolved(schema) && schema@
                        == classic_schema_view(
                        parsed->Ok_0@,
                        known.classic_infos[key],
                        Seq::empty(),
                    )
                }
            } else {
                &&& if known.schemas.contains_key(event_key(*event)) {
                    step.resolution matches Resolution::Resolved(schema) && *schema
                        == known.schemas[event_key(*event)] && schema@.classic_data is None
                } else {
                    step.resolution matches Resolution::QueryEventInfo(asked) && asked@ == event_key(
                        *event,
                    )
                }
                &&& if !registered {
                    step.classic_failure is None
                } else if let Err(e) = parsed {
                    step.classic_failure matches Some(SchemaError::ClassicParseError(failure))
                        && failure@ == e@
                } else {
                    step.classic_failure matches Some(
                        SchemaError::ClassicParseError(ClassicParseError::TdhResolutionFailed(e)),
                    ) && e.text@ == known.classic_failures[key]
                }
            }
        }),
{
}

/// The classic way by itself, for an event of any provider: a payload that does not parse and a type
/// that TDH failed on are errors, and no other event is.
pub proof fn law_the_classic_way_fails_for_two_reasons(
    locator: &SchemaLocator,
    event: &EventRecord,
    result: SchemaResult<Resolution>,
    payload: &[u8],
    parsed: Result<RawClassicRecord, ClassicParseError>,
)
    requires
        call_ensures(SchemaLocator::classic_event_schema, (locator, event), result),
        payload@ == event.user_buffer@,
        call_ensures(parse_classic_user_data, (payload,), parsed),
    ensures
        ({
            let known = locator@;
            let key = (event.provider_id, parsed->Ok_0.real_event_id);
            if let Err(e) = parsed {
                result matches Err(SchemaError::ClassicParseError(failure)) && failure@ == e@
            } else if known.classic_failures.contains_key(key) {
                result matches Err(
                    SchemaError::ClassicParseError(ClassicParseError::TdhResolutionFailed(e)),
                ) && e.text@ == known.classic_failures[key]
            } else if !known.classic_infos.contains_key(key) {
                result matches Ok(Resolution::QueryClassicInfo(kept)) && kept@ == parsed->Ok_0@
            } else if parsed->Ok_0.sid_bytes@.len() > 0 {
                result matches Ok(Resolution::ConvertSid(kept, info)) && kept@ == parsed->Ok_0@
                    && *info == known.classic_infos[key]
            } else {
                result matches Ok(Resolution::Resolved(schema)) && schema@ == classic_schema_view(
                    parsed->Ok_0@,
                    known.classic_infos[key],
                    Seq::empty(),
                )
            }
        }),
{
}

/// An answer about a type of classic event is kept for that type and for no other, and nothing else
/// changes. With information the event goes on the classic way, and without it is looked up under
/// its key, with the failure reported.
pub proof fn law_answers_are_kept_for_their_type(
    locator: &mut SchemaLocator,
    event: &EventRecord,
    record: RawClassicRecord,
    outcome: Result<TraceEventInfo, TdhNativeError>,
    step: Step,
)
    requires
        call_ensures(SchemaLocator::classic_info_resolved, (locator, event, record, outcome), step),
    ensures
        ({
            let before = old(locator)@;
            let after = final(locator)@;
            let key = (event.provider_id, record.real_event_id);
            &&& after.schemas == before.schemas
            &&& after.classic_providers == before.classic_providers
            &&& after.classic_infos.remove(key) == before.classic_infos.remove(key)
            &&& after.classic_failures.remove(key) == before.classic_failures.remove(key)
            &&& match outcome {
                Ok(info) => {
                    &&& after.classic_infos.contains_pair(key, info)
                    &&& !after.classic_failures.contains_key(key)
                    &&& step.classic_failure is None
                    &&& if record.sid_bytes@.len() > 0 {
                        step.resolution matches Resolution::ConvertSid(kept, found) && kept@
                            == record@ && *found == info
                    } else {
                        step.resolution matches Resolution::Resolved(schema) && schema@
                            == classic_schema_view(record@, info, Seq::empty())
                    }
                },
                Err(e) => {
                    &&& after.classic_failures.contains_pair(key, e.text@)
                    &&& !after.classic_infos.contains_key(key)
                    &&& step.classic_failure matches Some(
                        SchemaError::ClassicParseError(ClassicParseError::TdhResolutionFailed(
                            failure,
                        )),
                    ) && failure.text@ == e.text@
                    &&& if before.schemas.contains_key(event_key(*event)) {
                        step.resolution matches Resolution::Resolved(schema) && *schema
                            == before.schemas[event_key(*event)]
                    } else {
                        step.resolution matches Resolution::QueryEventInfo(asked) && asked@
                            == event_key(*event)
                    }
                },
            }
        }),
{
    let key = (event.provider_id, record.real_event_id);
    assert(final(locator)@.classic_infos.remove(key) =~= old(locator)@.classic_infos.remove(key));
    assert(final(locator)@.classic_failures.remove(key) =~= old(locator)@.classic_failures.remove(
        key,
    ));
}

/// The schema of an event is made of what TDH answered, and kept under the key and under no other. A
/// failed answer is returned as it is, and keeps nothing.
pub proof fn law_schemas_are_kept_under_their_key(
    locator: &mut SchemaLocator,
    key: SchemaKey,
    outcome: Result<TraceEventInfo, TdhNativeError>,
    result: SchemaResult<Arc<Schema>>,
)
    requires
        call_ensures(SchemaLocator::event_info_resolved, (locator, key, outcome), result),
    ensures
        ({
            let before = old(locator)@;
            let after = final(locator)@;
            &&& after.classic_providers == before.classic_providers
            &&& after.classic_infos == before.classic_infos
            &&& after.classic_failures == before.classic_failures
            &&& match outcome {
                Ok(info) => {
                    &&& result matches Ok(schema) && schema@.te_info == info
                        && schema@.classic_data is None && after.schemas.contains_pair(
                        key@,
                        *schema,
                    )
                    &&& after.schemas.remove(key@) == before.schemas.remove(key@)
                },
                Err(e) => {
                    &&& result matches Err(SchemaError::TdhNativeError(failure)) && failure == e
                    &&& after.schemas == before.schemas
                },
            }
        }),
{
    assert(final(locator)@.schemas.remove(key@) =~= old(locator)@.schemas.remove(key@)) by {
        if outcome is Err {
            assert(final(locator)@ == old(locator)@);
        }
    }
}

/// An event is treated as a classic one if and only if its provider is registered, its payload
/// parses, TDH did not fail on its type before, and the information about its type is known or TDH
/// supplies it. Nothing in its header but its provider makes a difference.
pub proof fn law_which_events_are_treated_as_classic(
    known: LocatorView,
    event: EventRecord,
    classic_info: Result<TraceEventInfo, TdhNativeError>,
)
    ensures
        ({
            let parsed = classic_record(event.user_buffer@);
            let key = (event.provider_id, parsed->Ok_0.real_event_id);
            let tried = known.classic_providers.contains(event.provider_id) && parsed is Ok
                && !known.classic_failures.contains_key(key);
            let route = classic_route(known, event, classic_info);
            &&& tried && known.classic_infos.contains_key(key) ==> route == Some(
                (parsed->Ok_0, known.classic_infos[key]),
            )
            &&& tried && !known.classic_infos.contains_key(key) ==> (classic_info matches Ok(info)
                ==> route == Some((parsed->Ok_0, info)))
            &&& route is None <==> !tried || !known.classic_infos.contains_key(key)
                && classic_info is Err
        }),
{
}

/// With all answers at hand, an event that is treated as a classic one gets a classic schema, and any
/// other the schema under its key, which is made and kept where there is none. An answer about its
/// type is kept where it was asked for, and the failure reported where it is not treated as classic
/// though its provider is registered.
pub proof fn law_schemas_are_found_with_all_answers(
    locator: &mut SchemaLocator,
    event: &EventRecord,
    answers: NativeAnswers,
    located: Located,
)
    requires
        call_ensures(SchemaLocator::event_schema_with, (locator, event, answers), located),
    ensures
        ({
            let before = old(locator)@;
            let after = final(locator)@;
            let parsed = classic_record(event.user_buffer@);
            let record = parsed->Ok_0;
            let key = (event.provider_id, record.real_event_id);
            let registered = before.classic_providers.contains(event.provider_id);
            let tried = registered && parsed is Ok && !before.classic_failures.contains_key(key);
            let asked = tried && !before.classic_infos.contains_key(key);
            let info = if asked {
                answers.classic_info
            } else {
                Ok(before.classic_infos[key])
            };
            let sid_string = if record.sid_bytes.len() == 0 {
                Seq::empty()
            } else {
                match answers.sid_string {
                    Ok(text) => text@,
                    Err(_) => hex(record.sid_bytes),
                }
            };
            let name = event_key(*event);
            &&& after.classic_providers == before.classic_providers
            &&& !asked ==> after.classic_infos == before.classic_infos && after.classic_failures
                == before.classic_failures
            &&& asked && info is Ok ==> after.classic_infos == before.classic_infos.insert(
                key,
                info->Ok_0,
            ) && after.classic_failures == before.classic_failures
            &&& asked && info is Err ==> after.classic_infos == before.classic_infos
                && after.classic_failures == before.classic_failures.insert(
                key,
                info->Err_0.text@,
            )
            &&& if tried && info is Ok {
                &&& located.classic_failure is None
                &&& after.schemas == before.schemas
                &&& located.schema matches Ok(schema) && schema@ == classic_schema_view(
                    record,
                    info->Ok_0,
                    sid_string,
                )
            } else {
                &&& if !registered {
                    located.classic_failure is None
                } else if let Err(e) = parsed {
                    located.classic_failure matches Some(SchemaError::ClassicParseError(failure))
                        && failure@ == e
                } else {
                    located.classic_failure matches Some(
                        SchemaError::ClassicParseError(ClassicParseError::TdhResolutionFailed(e)),
                    ) && e.text@ == if tried {
                        info->Err_0.text@
                    } else {
                        before.classic_failures[key]
                    }
                }
                &&& if before.schemas.contains_key(name) {
                    &&& located.schema matches Ok(schema) && *schema == before.schemas[name]
                    &&& after.schemas == before.schemas
                } else {
                    match answers.event_info {
                        Ok(made_of) => {
                            &&& located.schema matches Ok(schema) && schema@.te_info == made_of
                                && schema@.classic_data is None && after.schemas
                                == before.schemas.insert(name, *schema)
                        },
                        Err(e) => {
                            &&& located.schema matches Err(SchemaError::TdhNativeError(failure))
                                && failure == e
                            &&& after.schemas == before.schemas
                        },
                    }
                }
            }
        }),
{
    let before = old(locator)@;
    let record = classic_record(event.user_buffer@)->Ok_0;
    let key = (event.provider_id, record.real_event_id);
    assert(!before.classic_failures.contains_key(key) ==> before.classic_failures.remove(key)
        =~= before.classic_failures);
    assert(!before.classic_infos.contains_key(key) ==> before.classic_infos.remove(key)
        =~= before.classic_infos);
}

/// The message of a schema error names its kind, and then gives the text or the message of what it
/// wraps. An error is wrapped as it is.
pub proof fn law_schema_error_messages(
    tdh: TdhNativeError,
    from_tdh: SchemaError,
    tdh_message: String,
    parse: ClassicParseError,
    from_parse: SchemaError,
    parse_message: String,
    message: String,
)
    requires
        call_ensures(<SchemaError as From<TdhNativeError>>::from, (tdh,), from_tdh),
        call_ensures(<SchemaError as From<ClassicParseError>>::from, (parse,), from_parse),
        call_ensures(SchemaError::message, (&from_tdh,), tdh_message),
        call_ensures(SchemaError::message, (&from_parse,), parse_message),
        call_ensures(ClassicParseError::message, (&parse,), message),
    ensures
        from_tdh == SchemaError::TdhNativeError(tdh),
        from_parse == SchemaError::ClassicParseError(parse),
        tdh_message@ == "TDH error: "@ + tdh.text@,
        parse_message@ == "Classic parse error: "@ + message@,
{
}

} // verus!
