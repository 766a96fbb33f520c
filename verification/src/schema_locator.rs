//! A way to cache and retrieve Schemas.
//!
//! Finding the schema of an event may take questions to the operating system. The locator never
//! asks them itself: each of its steps says what to ask, and the caller goes on with the answer.

use crate::cache::{CacheKey, KeyedCache};
use crate::classic::{
    classic_record, encode_strings_as_user_data, encoded_strings, parse_classic_user_data, sid_text,
    sid_to_string, ClassicMetadata, ClassicMetadataView, ClassicParseError, ClassicParseErrorView,
    RawClassicRecord, RawClassicRecordView,
};
use crate::native::{EventRecord, SddlNativeError, TdhNativeError, TraceEventInfo, GUID};
use crate::schema::{ClassicSchemaData, ClassicSchemaDataView, Schema, SchemaView};
use std::collections::HashSet;
use std::sync::Arc;
use vstd::prelude::*;
use vstd::string::StringExecFns;

verus! {

/// Schema module errors.
#[derive(Debug)]
pub enum SchemaError {
    /// Represents an internal `TdhNativeError`.
    TdhNativeError(TdhNativeError),
    /// Represents a classic event parsing error.
    ClassicParseError(ClassicParseError),
}

/// What a `SchemaError` says.
#[verifier::ext_equal]
pub enum SchemaErrorView {
    TdhNativeError(Seq<char>),
    ClassicParseError(ClassicParseErrorView),
}

impl View for SchemaError {
    type V = SchemaErrorView;

    open spec fn view(&self) -> SchemaErrorView {
        match self {
            SchemaError::TdhNativeError(e) => SchemaErrorView::TdhNativeError(e.text@),
            SchemaError::ClassicParseError(e) => SchemaErrorView::ClassicParseError(e@),
        }
    }
}

impl SchemaErrorView {
    /// The message of the error.
    pub open spec fn message(self) -> Seq<char> {
        match self {
            SchemaErrorView::TdhNativeError(s) => "TDH error: "@ + s,
            SchemaErrorView::ClassicParseError(e) => "Classic parse error: "@ + e.message(),
        }
    }
}

impl SchemaError {
    /// The message of the error.
    pub fn message(&self) -> (text: String)
        ensures
            text@ == self@.message(),
    {
        match self {
            SchemaError::TdhNativeError(e) => "TDH error: ".to_owned().concat(e.text.as_str()),
            SchemaError::ClassicParseError(e) => "Classic parse error: ".to_owned().concat(
                e.message().as_str(),
            ),
        }
    }
}

impl vstd::std_specs::convert::FromSpecImpl<TdhNativeError> for SchemaError {
    open spec fn obeys_from_spec() -> bool {
        true
    }

    open spec fn from_spec(err: TdhNativeError) -> Self {
        SchemaError::TdhNativeError(err)
    }
}

impl From<TdhNativeError> for SchemaError {
    fn from(err: TdhNativeError) -> (wrapped: Self) {
        SchemaError::TdhNativeError(err)
    }
}

impl vstd::std_specs::convert::FromSpecImpl<ClassicParseError> for SchemaError {
    open spec fn obeys_from_spec() -> bool {
        true
    }

    open spec fn from_spec(err: ClassicParseError) -> Self {
        SchemaError::ClassicParseError(err)
    }
}

impl From<ClassicParseError> for SchemaError {
    fn from(err: ClassicParseError) -> (wrapped: Self) {
        SchemaError::ClassicParseError(err)
    }
}

/// The result of looking for a schema.
pub type SchemaResult<T> = Result<T, SchemaError>;

/// A way to group events that share the same `Schema`.
///
/// For manifest-based ETW, the combination Provider.DecodeGuid + Event.Id + Event.Version should
/// uniquely identify an event. For manifest-free events (i.e. TraceLogging), Event.Id and
/// Event.Version are not useful; event name, level and opcode identify those.
#[derive(Debug)]
pub struct SchemaKey {
    provider: GUID,
    /// A 16-bit number used to identify manifest-based events.
    id: u16,
    /// An 8-bit number used to specify the version of a manifest-based event.
    version: u8,
    opcode: u8,
    level: u8,
    event_name: String,
}

/// What a `SchemaKey` holds.
#[verifier::ext_equal]
pub struct SchemaKeyView {
    pub provider: GUID,
    pub id: u16,
    pub version: u8,
    pub opcode: u8,
    pub level: u8,
    pub event_name: Seq<char>,
}

impl View for SchemaKey {
    type V = SchemaKeyView;

    closed spec fn view(&self) -> SchemaKeyView {
        SchemaKeyView {
            provider: self.provider,
            id: self.id,
            version: self.version,
            opcode: self.opcode,
            level: self.level,
            event_name: self.event_name@,
        }
    }
}

/// The key of the schema of an event.
pub open spec fn event_key(event: EventRecord) -> SchemaKeyView {
    SchemaKeyView {
        provider: event.provider_id,
        id: event.event_id,
        version: event.version,
        opcode: event.opcode,
        level: event.level,
        event_name: event.event_name@,
    }
}

impl SchemaKey {
    /// The key of the schema of an event.
    pub fn new(event: &EventRecord) -> (key: Self)
        ensures
            key@ == event_key(*event),
    {
        SchemaKey {
            provider: event.provider_id,
            id: event.event_id,
            opcode: event.opcode,
            version: event.version,
            level: event.level,
            event_name: event.event_name.clone(),
        }
    }
}

impl CacheKey for SchemaKey {
    closed spec fn bucket_of(key: SchemaKeyView) -> u128 {
        key.provider ^ ((0x100_0000 * key.id + 0x1_0000 * key.opcode + 0x100 * key.version
            + key.level) as u128)
    }

    fn bucket(&self) -> (number: u128) {
        let descriptor: u128 = 0x100_0000 * (self.id as u128) + 0x1_0000 * (self.opcode as u128)
            + 0x100 * (self.version as u128) + self.level as u128;
        self.provider ^ descriptor
    }

    fn same(&self, other: &Self) -> (same: bool) {
        self.provider == other.provider && self.id == other.id && self.version == other.version
            && self.opcode == other.opcode && self.level == other.level && self.event_name
            == other.event_name
    }
}

/// The key of the event information of a classic event: its provider and its real event ID.
pub struct ClassicKey {
    provider: GUID,
    real_event_id: u16,
}

impl View for ClassicKey {
    type V = (GUID, u16);

    closed spec fn view(&self) -> (GUID, u16) {
        (self.provider, self.real_event_id)
    }
}

impl CacheKey for ClassicKey {
    closed spec fn bucket_of(key: (GUID, u16)) -> u128 {
        key.0 ^ (key.1 as u128)
    }

    fn bucket(&self) -> (number: u128) {
        self.provider ^ (self.real_event_id as u128)
    }

    fn same(&self, other: &Self) -> (same: bool) {
        self.provider == other.provider && self.real_event_id == other.real_event_id
    }
}

/// What TDH answered about a type of classic event.
enum ClassicAnswer {
    /// The information about it.
    Info(Arc<TraceEventInfo>),
    /// Why there is none.
    Failure(TdhNativeError),
}

/// Represents a cache of Schemas already located.
///
/// The key of a schema is a combination of these elements of an event record:
/// * EventHeader.ProviderId
/// * EventHeader.EventDescriptor.Id
/// * EventHeader.EventDescriptor.Opcode
/// * EventHeader.EventDescriptor.Version
/// * EventHeader.EventDescriptor.Level
/// * the name of the event
pub struct SchemaLocator {
    schemas: KeyedCache<SchemaKey, Schema>,
    /// Cache of what TDH answered about classic events, keyed by (provider_guid, real_event_id):
    /// the `TraceEventInfo`, or the error. The expensive TDH call is done at most once per event
    /// type.
    classic_tei_cache: KeyedCache<ClassicKey, ClassicAnswer>,
    /// Provider GUIDs known to emit classic (EventlogClassic) events.
    ///
    /// Events from these providers are transparently parsed using the classic binary format.
    classic_providers: HashSet<GUID>,
}

/// What a `SchemaLocator` knows.
#[verifier::ext_equal]
pub struct LocatorView {
    pub schemas: Map<SchemaKeyView, Schema>,
    /// The information about the types of classic events that TDH knows.
    pub classic_infos: Map<(GUID, u16), TraceEventInfo>,
    /// Why TDH had no information about other types of classic events.
    pub classic_failures: Map<(GUID, u16), Seq<char>>,
    pub classic_providers: Set<GUID>,
}

/// The information among answers.
spec fn infos_of(answers: Map<(GUID, u16), ClassicAnswer>) -> Map<(GUID, u16), TraceEventInfo> {
    Map::new(
        |key: (GUID, u16)| answers.contains_key(key) && answers[key] is Info,
        |key: (GUID, u16)| *answers[key]->Info_0,
    )
}

/// The failures among answers.
spec fn failures_of(answers: Map<(GUID, u16), ClassicAnswer>) -> Map<(GUID, u16), Seq<char>> {
    Map::new(
        |key: (GUID, u16)| answers.contains_key(key) && answers[key] is Failure,
        |key: (GUID, u16)| answers[key]->Failure_0.text@,
    )
}

impl View for SchemaLocator {
    type V = LocatorView;

    closed spec fn view(&self) -> LocatorView {
        LocatorView {
            schemas: self.schemas@,
            classic_infos: infos_of(self.classic_tei_cache@),
            classic_failures: failures_of(self.classic_tei_cache@),
            classic_providers: self.classic_providers@,
        }
    }
}

impl LocatorView {
    /// A locator that knows nothing.
    pub open spec fn empty() -> LocatorView {
        LocatorView {
            schemas: Map::empty(),
            classic_infos: Map::empty(),
            classic_failures: Map::empty(),
            classic_providers: Set::empty(),
        }
    }

    /// Whether only schemas of ordinary events are kept, and one answer about each type of classic
    /// event.
    pub open spec fn consistent(self) -> bool {
        &&& forall|key: SchemaKeyView| #[trigger]
            self.schemas.contains_key(key) ==> self.schemas[key]@.classic_data is None
        &&& self.classic_infos.dom().disjoint(self.classic_failures.dom())
    }

    /// The locator with one more classic provider.
    pub open spec fn with_provider(self, guid: GUID) -> LocatorView {
        LocatorView { classic_providers: self.classic_providers.insert(guid), ..self }
    }

    /// The locator with the information about a type of classic event, which stands in place of
    /// any earlier answer about it.
    pub open spec fn with_classic_info(
        self,
        provider: GUID,
        real_event_id: u16,
        info: TraceEventInfo,
    ) -> LocatorView {
        LocatorView {
            classic_infos: self.classic_infos.insert((provider, real_event_id), info),
            classic_failures: self.classic_failures.remove((provider, real_event_id)),
            ..self
        }
    }

    /// The locator with the failure to get information about a type of classic event, which stands
    /// in place of any earlier answer about it.
    pub open spec fn with_classic_failure(
        self,
        provider: GUID,
        real_event_id: u16,
        text: Seq<char>,
    ) -> LocatorView {
        LocatorView {
            classic_infos: self.classic_infos.remove((provider, real_event_id)),
            classic_failures: self.classic_failures.insert((provider, real_event_id), text),
            ..self
        }
    }

    /// The locator with one more schema.
    pub open spec fn with_schema(self, key: SchemaKeyView, schema: Schema) -> LocatorView {
        LocatorView { schemas: self.schemas.insert(key, schema), ..self }
    }
}

/// What is to be done to find the schema of an event.
pub enum Resolution {
    /// Nothing: this is the schema.
    Resolved(Arc<Schema>),
    /// Ask TDH about the event under the event ID of the record, and go on with
    /// `SchemaLocator::classic_info_resolved`.
    QueryClassicInfo(RawClassicRecord),
    /// Ask the operating system for the text of the SID of the record, and go on with
    /// `SchemaLocator::classic_schema`.
    ConvertSid(RawClassicRecord, Arc<TraceEventInfo>),
    /// Ask TDH about the event, and go on with `SchemaLocator::event_info_resolved`.
    QueryEventInfo(SchemaKey),
}

/// A step on the way to the schema of an event.
pub struct Step {
    /// What is to be done next.
    pub resolution: Resolution,
    /// Why the event could not be treated as a classic one, where that was tried. A warning is
    /// due. The schema is looked for as that of any other event, so that the event is not lost.
    pub classic_failure: Option<SchemaError>,
}

/// What a classic failure says.
pub open spec fn failure_view(failure: Option<SchemaError>) -> Option<SchemaErrorView> {
    match failure {
        Some(e) => Some(e@),
        None => None,
    }
}

/// The classic failure that is reported for a refusal.
pub open spec fn reported(refusal: Option<ClassicParseErrorView>) -> Option<SchemaErrorView> {
    match refusal {
        Some(e) => Some(SchemaErrorView::ClassicParseError(e)),
        None => None,
    }
}

/// What the conversion of a SID gave.
pub open spec fn conversion_view(converted: Result<String, SddlNativeError>) -> Option<Seq<char>> {
    match converted {
        Ok(text) => Some(text@),
        Err(_) => None,
    }
}

/// The schema of a classic event, from its record, the information that TDH has about it and the
/// text of its SID.
pub open spec fn classic_schema_view(
    record: RawClassicRecordView,
    info: TraceEventInfo,
    sid_string: Seq<char>,
) -> SchemaView {
    SchemaView {
        te_info: info,
        classic_data: Some(
            ClassicSchemaDataView {
                metadata: ClassicMetadataView {
                    time_created: record.time_created,
                    real_event_id: record.real_event_id,
                    qualifier: record.qualifier,
                    source_name: record.source_name,
                    sid_string,
                    raw_sid: record.sid_bytes,
                    channel: info.channel_name@,
                    event_message: info.event_message@,
                },
                synthetic_user_data: encoded_strings(record.strings),
            },
        ),
    }
}

/// How the schema of an event is looked for that is not treated as a classic one: the schema under
/// its key where there is one, else a question about the event.
pub open spec fn looks_up(known: LocatorView, event: EventRecord, resolution: Resolution) -> bool {
    let key = event_key(event);
    if known.schemas.contains_key(key) {
        resolution matches Resolution::Resolved(schema) && *schema == known.schemas[key]
    } else {
        resolution matches Resolution::QueryEventInfo(asked) && asked@ == key
    }
}

/// How the schema of a classic event is found once the information about it is there: at once
/// where it has no SID, else by way of the text of the SID.
pub open spec fn uses_info(
    record: RawClassicRecordView,
    info: TraceEventInfo,
    resolution: Resolution,
) -> bool {
    if record.sid_bytes.len() == 0 {
        resolution matches Resolution::Resolved(schema) && schema@ == classic_schema_view(
            record,
            info,
            Seq::empty(),
        )
    } else {
        resolution matches Resolution::ConvertSid(kept, found) && kept@ == record && *found == info
    }
}

/// How the schema of a classic event is looked for: with the information known about its type
/// where there is some, else by a question for it.
pub open spec fn looks_up_classic(
    known: LocatorView,
    provider: GUID,
    record: RawClassicRecordView,
    resolution: Resolution,
) -> bool {
    let key = (provider, record.real_event_id);
    if known.classic_infos.contains_key(key) {
        uses_info(record, known.classic_infos[key], resolution)
    } else {
        resolution matches Resolution::QueryClassicInfo(kept) && kept@ == record
    }
}

/// What the operating system has to say about one event, where all of it is at hand.
pub struct NativeAnswers {
    /// What TDH knows about the event.
    pub event_info: Result<TraceEventInfo, TdhNativeError>,
    /// What TDH knows about the event under its real event ID.
    pub classic_info: Result<TraceEventInfo, TdhNativeError>,
    /// The text of the SID of the event.
    pub sid_string: Result<String, SddlNativeError>,
}

/// Why an event of a classic provider cannot be treated as a classic one as far as is known: its
/// payload cannot be parsed, or TDH had no information about its type.
pub open spec fn classic_refusal(known: LocatorView, event: EventRecord) -> Option<
    ClassicParseErrorView,
> {
    match classic_record(event.user_buffer@) {
        Err(e) => Some(e),
        Ok(record) => {
            let key = (event.provider_id, record.real_event_id);
            if known.classic_failures.contains_key(key) {
                Some(ClassicParseErrorView::TdhResolutionFailed(known.classic_failures[key]))
            } else {
                None
            }
        },
    }
}

/// Whether an event is taken for a classic one: its provider is known as a classic one, and nothing
/// is known that stands against it.
pub open spec fn taken_for_classic(known: LocatorView, event: EventRecord) -> bool {
    known.classic_providers.contains(event.provider_id) && classic_refusal(known, event) is None
}

/// How the schema of an event is looked for.
pub open spec fn looks_up_any(
    known: LocatorView,
    event: EventRecord,
    resolution: Resolution,
) -> bool {
    if taken_for_classic(known, event) {
        looks_up_classic(
            known,
            event.provider_id,
            classic_record(event.user_buffer@)->Ok_0,
            resolution,
        )
    } else {
        looks_up(known, event, resolution)
    }
}

/// The key of the information about the type of a classic event.
pub open spec fn classic_key(event: EventRecord) -> (GUID, u16) {
    (event.provider_id, classic_record(event.user_buffer@)->Ok_0.real_event_id)
}

/// The record of an event and the information about it, where it can be treated as a classic one:
/// it is taken for one, and the information about its type is known or TDH supplies it.
pub open spec fn classic_route(
    known: LocatorView,
    event: EventRecord,
    classic_info: Result<TraceEventInfo, TdhNativeError>,
) -> Option<(RawClassicRecordView, TraceEventInfo)> {
    let record = classic_record(event.user_buffer@)->Ok_0;
    if !taken_for_classic(known, event) {
        None
    } else if known.classic_infos.contains_key(classic_key(event)) {
        Some((record, known.classic_infos[classic_key(event)]))
    } else {
        match classic_info {
            Ok(info) => Some((record, info)),
            Err(_) => None,
        }
    }
}

/// Why an event of a classic provider is not treated as a classic one, where TDH answers
/// `classic_info` if it is asked.
pub open spec fn classic_failure(
    known: LocatorView,
    event: EventRecord,
    classic_info: Result<TraceEventInfo, TdhNativeError>,
) -> Option<ClassicParseErrorView> {
    if !known.classic_providers.contains(event.provider_id) {
        None
    } else if classic_refusal(known, event) is Some {
        classic_refusal(known, event)
    } else if known.classic_infos.contains_key(classic_key(event)) {
        None
    } else {
        match classic_info {
            Ok(_) => None,
            Err(e) => Some(ClassicParseErrorView::TdhResolutionFailed(e.text@)),
        }
    }
}

/// What is known once an event has been tried as a classic one, where TDH answers `classic_info`
/// if it is asked.
pub open spec fn after_classic(
    known: LocatorView,
    event: EventRecord,
    classic_info: Result<TraceEventInfo, TdhNativeError>,
) -> LocatorView {
    let key = classic_key(event);
    if !taken_for_classic(known, event) || known.classic_infos.contains_key(key) {
        known
    } else {
        match classic_info {
            Ok(info) => known.with_classic_info(key.0, key.1, info),
            Err(e) => known.with_classic_failure(key.0, key.1, e.text@),
        }
    }
}

/// What came of looking for the schema of an event.
pub struct Located {
    /// The schema, or why there is none.
    pub schema: SchemaResult<Arc<Schema>>,
    /// Why the event could not be treated as a classic one, where that was tried. A warning is due.
    pub classic_failure: Option<SchemaError>,
}

impl Default for SchemaLocator {
    fn default() -> (locator: Self)
        ensures
            locator@ == LocatorView::empty(),
    {
        SchemaLocator::new()
    }
}

impl SchemaLocator {
    /// Only schemas of ordinary events are kept.
    #[verifier::type_invariant]
    spec fn keeps_ordinary_schemas(&self) -> bool {
        forall|key: SchemaKeyView| #[trigger]
            self.schemas@.contains_key(key) ==> self.schemas@[key]@.classic_data is None
    }

    /// A locator that knows no schema and no classic provider.
    pub fn new() -> (locator: Self)
        ensures
            locator@ == LocatorView::empty(),
    {
        let locator: SchemaLocator = SchemaLocator {
            schemas: KeyedCache::new(),
            classic_tei_cache: KeyedCache::new(),
            classic_providers: HashSet::new(),
        };
        proof {
            assert(locator@ =~= LocatorView::empty());
        }
        locator
    }

    /// The number of schemas that are cached.
    pub fn len(&self) -> (n: usize)
        ensures
            n == self@.schemas.len(),
    {
        self.schemas.len()
    }

    /// Register a provider GUID as a classic (EventlogClassic) provider.
    ///
    /// Events from this provider will be transparently parsed using the classic event binary
    /// format. This is normally called when a provider is enabled on a trace (via
    /// `detect_and_register_classic_provider`), but it can also be called manually for providers
    /// that are consumed through other means (e.g. file traces).
    pub fn register_classic_provider(&mut self, guid: GUID)
        ensures
            final(self)@ == old(self)@.with_provider(guid),
    {
        proof {
            use_type_invariant(&*self);
        }
        let mut classic_providers: HashSet<GUID> = HashSet::new();
        std::mem::swap(&mut classic_providers, &mut self.classic_providers);
        classic_providers.insert(guid);
        self.classic_providers = classic_providers;
    }

    /// Register a provider as a classic provider if it advertises `win:EventlogClassic`
    /// (`0x0080000000000000`).
    ///
    /// `has_classic_keyword` is whether TDH lists that keyword among those of the provider.
    pub fn detect_and_register_classic_provider(&mut self, guid: &GUID, has_classic_keyword: bool)
        ensures
            final(self)@ == (if has_classic_keyword {
                old(self)@.with_provider(*guid)
            } else {
                old(self)@
            }),
    {
        if has_classic_keyword {
            self.register_classic_provider(*guid);
        }
    }

    /// Returns `true` if the given provider GUID has been registered as a classic
    /// (EventlogClassic) provider.
    pub fn is_classic_provider(&self, guid: &GUID) -> (classic: bool)
        ensures
            classic == self@.classic_providers.contains(*guid),
    {
        self.classic_providers.contains(guid)
    }

    /// Retrieve the Schema of an ETW Event, or say what has to be asked for it first.
    ///
    /// For classic events (those from registered classic providers), this method parses the binary
    /// payload and resolves the real event ID, which ends in a `Schema` whose synthetic user data
    /// buffer stands for the user buffer of the event. Where the payload cannot be parsed, or TDH
    /// had no information about the type of the event before, the event is treated like any other.
    pub fn event_schema(&self, event: &EventRecord) -> (step: Step)
        ensures
            self@.consistent(),
            looks_up_any(self@, *event, step.resolution),
            failure_view(step.classic_failure) == (if self@.classic_providers.contains(
                event.provider_id,
            ) {
                reported(classic_refusal(self@, *event))
            } else {
                None
            }),
    {
        proof {
            use_type_invariant(self);
        }
        // Provider-level check: if this provider was detected (or manually registered)
        // as a classic EventLog provider, route through the classic parsing path.
        if self.is_classic_provider(&event.provider_id) {
            match self.classic_event_schema(event) {
                Ok(resolution) => Step { resolution, classic_failure: None },
                Err(e) => Step { resolution: self.look_up(event), classic_failure: Some(e) },
            }
        } else {
            Step { resolution: self.look_up(event), classic_failure: None }
        }
    }

    /// The cached schema of an event, or a question about the event.
    fn look_up(&self, event: &EventRecord) -> (resolution: Resolution)
        ensures
            looks_up(self@, *event, resolution),
    {
        let key: SchemaKey = SchemaKey::new(event);
        match self.schemas.get(&key) {
            Some(schema) => Resolution::Resolved(schema),
            None => Resolution::QueryEventInfo(key),
        }
    }

    /// Resolve a classic (EventlogClassic) event.
    ///
    /// 1. Parse the binary UserData to extract real_event_id, source_name, SID, strings.
    /// 2. Get what TDH answered about (provider_guid, real_event_id), or ask for it.
    pub fn classic_event_schema(&self, event: &EventRecord) -> (result: SchemaResult<Resolution>)
        ensures
            match result {
                Ok(resolution) => {
                    &&& classic_refusal(self@, *event) is None
                    &&& looks_up_classic(
                        self@,
                        event.provider_id,
                        classic_record(event.user_buffer@)->Ok_0,
                        resolution,
                    )
                },
                Err(e) => {
                    &&& classic_refusal(self@, *event) is Some
                    &&& e@ == SchemaErrorView::ClassicParseError(
                        classic_refusal(self@, *event)->0,
                    )
                },
            },
    {
        let record: RawClassicRecord = match parse_classic_user_data(event.user_buffer.as_slice()) {
            Ok(record) => record,
            Err(e) => return Err(SchemaError::from(e)),
        };
        let key: ClassicKey = ClassicKey {
            provider: event.provider_id,
            real_event_id: record.real_event_id,
        };
        match self.classic_tei_cache.get(&key) {
            Some(answer) => match &*answer {
                ClassicAnswer::Info(te_info) => Ok(
                    SchemaLocator::use_info(record, crate::cache::share(te_info)),
                ),
                ClassicAnswer::Failure(e) => {
                    let failure: TdhNativeError = TdhNativeError { text: e.text.clone() };
                    Err(SchemaError::from(ClassicParseError::from(failure)))
                },
            },
            None => Ok(Resolution::QueryClassicInfo(record)),
        }
    }

    /// Go on with the information about a classic event: at once where it has no SID.
    fn use_info(record: RawClassicRecord, te_info: Arc<TraceEventInfo>) -> (resolution: Resolution)
        ensures
            uses_info(record@, *te_info, resolution),
    {
        if record.sid_bytes.is_empty() {
            Resolution::Resolved(SchemaLocator::classic_schema(record, te_info, Ok(String::new())))
        } else {
            Resolution::ConvertSid(record, te_info)
        }
    }

    /// Go on with what TDH knows about a classic event under its real event ID.
    ///
    /// The answer is kept for later events of the same type. Without information, the event is
    /// treated like any other, and so are they.
    pub fn classic_info_resolved(
        &mut self,
        event: &EventRecord,
        record: RawClassicRecord,
        outcome: Result<TraceEventInfo, TdhNativeError>,
    ) -> (step: Step)
        ensures
            match outcome {
                Ok(info) => {
                    &&& final(self)@ == old(self)@.with_classic_info(
                        event.provider_id,
                        record.real_event_id,
                        info,
                    )
                    &&& uses_info(record@, info, step.resolution)
                    &&& step.classic_failure is None
                },
                Err(e) => {
                    &&& final(self)@ == old(self)@.with_classic_failure(
                        event.provider_id,
                        record.real_event_id,
                        e.text@,
                    )
                    &&& looks_up(old(self)@, *event, step.resolution)
                    &&& failure_view(step.classic_failure) == Some(
                        SchemaErrorView::ClassicParseError(
                            ClassicParseErrorView::TdhResolutionFailed(e.text@),
                        ),
                    )
                },
            },
    {
        let key: ClassicKey = ClassicKey {
            provider: event.provider_id,
            real_event_id: record.real_event_id,
        };
        match outcome {
            Ok(info) => {
                let te_info: Arc<TraceEventInfo> = Arc::new(info);
                self.keep_answer(key, ClassicAnswer::Info(crate::cache::share(&te_info)));
                proof {
                    assert(self@ =~= old(self)@.with_classic_info(
                        event.provider_id,
                        record.real_event_id,
                        info,
                    ));
                }
                Step {
                    resolution: SchemaLocator::use_info(record, te_info),
                    classic_failure: None,
                }
            },
            Err(e) => {
                let resolution: Resolution = self.look_up(event);
                let kept: TdhNativeError = TdhNativeError { text: e.text.clone() };
                self.keep_answer(key, ClassicAnswer::Failure(kept));
                proof {
                    assert(self@ =~= old(self)@.with_classic_failure(
                        event.provider_id,
                        record.real_event_id,
                        e.text@,
                    ));
                }
                Step {
                    resolution,
                    classic_failure: Some(SchemaError::from(ClassicParseError::from(e))),
                }
            },
        }
    }

    /// Keeps what TDH answered about a type of classic event.
    fn keep_answer(&mut self, key: ClassicKey, answer: ClassicAnswer)
        ensures
            final(self).schemas@ == old(self).schemas@,
            final(self).classic_tei_cache@ == old(self).classic_tei_cache@.insert(key@, answer),
            final(self).classic_providers@ == old(self).classic_providers@,
    {
        proof {
            use_type_invariant(&*self);
        }
        let mut answers: KeyedCache<ClassicKey, ClassicAnswer> = KeyedCache::new();
        std::mem::swap(&mut answers, &mut self.classic_tei_cache);
        answers.insert(key, Arc::new(answer));
        self.classic_tei_cache = answers;
    }

    /// A fresh (non-cached) Schema of a classic event, with the shared event information and
    /// per-event classic data.
    ///
    /// The strings of the record are re-encoded as a synthetic UserData buffer (null-terminated
    /// UTF-16LE), and the metadata is completed by the channel and the event message from TDH.
    /// `converted` is what the operating system made of the SID.
    pub fn classic_schema(
        record: RawClassicRecord,
        te_info: Arc<TraceEventInfo>,
        converted: Result<String, SddlNativeError>,
    ) -> (schema: Arc<Schema>)
        ensures
            schema@ == classic_schema_view(
                record@,
                *te_info,
                sid_text(record.sid_bytes@, conversion_view(converted)),
            ),
    {
        let synthetic_user_data: Vec<u8> = encode_strings_as_user_data(record.strings.as_slice());
        let sid_string: String = sid_to_string(record.sid_bytes.as_slice(), converted);
        let metadata: ClassicMetadata = ClassicMetadata {
            time_created: record.time_created,
            real_event_id: record.real_event_id,
            qualifier: record.qualifier,
            source_name: record.source_name,
            sid_string,
            raw_sid: record.sid_bytes,
            channel: te_info.channel_name.clone(),
            event_message: te_info.event_message.clone(),
        };
        let classic_data: ClassicSchemaData = ClassicSchemaData { metadata, synthetic_user_data };
        Arc::new(Schema::new_classic(te_info, classic_data))
    }

    /// Go on with what TDH knows about an event: the schema is kept under the key, or the error is
    /// returned.
    pub fn event_info_resolved(
        &mut self,
        key: SchemaKey,
        outcome: Result<TraceEventInfo, TdhNativeError>,
    ) -> (result: SchemaResult<Arc<Schema>>)
        ensures
            match outcome {
                Ok(info) => {
                    &&& result is Ok
                    &&& result->Ok_0@ == (SchemaView { te_info: info, classic_data: None })
                    &&& final(self)@ == old(self)@.with_schema(key@, *result->Ok_0)
                },
                Err(e) => {
                    &&& result == Err::<Arc<Schema>, SchemaError>(SchemaError::TdhNativeError(e))
                    &&& final(self)@ == old(self)@
                },
            },
    {
        match outcome {
            Ok(info) => {
                let schema: Arc<Schema> = Arc::new(Schema::new(info));
                proof {
                    use_type_invariant(&*self);
                }
                let mut schemas: KeyedCache<SchemaKey, Schema> = KeyedCache::new();
                std::mem::swap(&mut schemas, &mut self.schemas);
                schemas.insert(key, crate::cache::share(&schema));
                self.schemas = schemas;
                Ok(schema)
            },
            Err(e) => Err(SchemaError::from(e)),
        }
    }

    /// Retrieve the Schema of an ETW Event, where the answers of the operating system are at hand.
    ///
    /// An event that can be treated as a classic one gets a schema of its own. Any other gets the
    /// schema under its key, which is made from the answer of TDH where there is none yet.
    pub fn event_schema_with(&mut self, event: &EventRecord, answers: NativeAnswers) -> (located:
        Located)
        ensures
            failure_view(located.classic_failure) == reported(
                classic_failure(old(self)@, *event, answers.classic_info),
            ),
            ({
                let after = after_classic(old(self)@, *event, answers.classic_info);
                let key = event_key(*event);
                match classic_route(old(self)@, *event, answers.classic_info) {
                    Some((record, info)) => {
                        &&& located.schema is Ok
                        &&& located.schema->Ok_0@ == classic_schema_view(
                            record,
                            info,
                            sid_text(record.sid_bytes, conversion_view(answers.sid_string)),
                        )
                        &&& final(self)@ == after
                    },
                    None => if old(self)@.schemas.contains_key(key) {
                        &&& located.schema is Ok
                        &&& *located.schema->Ok_0 == old(self)@.schemas[key]
                        &&& located.schema->Ok_0@.classic_data is None
                        &&& final(self)@ == after
                    } else {
                        match answers.event_info {
                            Ok(info) => {
                                &&& located.schema is Ok
                                &&& located.schema->Ok_0@ == (SchemaView {
                                    te_info: info,
                                    classic_data: None,
                                })
                                &&& final(self)@ == after.with_schema(key, *located.schema->Ok_0)
                            },
                            Err(e) => {
                                &&& located.schema == Err::<Arc<Schema>, SchemaError>(
                                    SchemaError::TdhNativeError(e),
                                )
                                &&& final(self)@ == after
                            },
                        }
                    },
                }
            }),
    {
        let NativeAnswers { event_info, classic_info, sid_string } = answers;
        let first: Step = self.event_schema(event);
        let step: Step = match first.resolution {
            Resolution::QueryClassicInfo(record) => self.classic_info_resolved(
                event,
                record,
                classic_info,
            ),
            resolution => Step { resolution, classic_failure: first.classic_failure },
        };
        let Step { resolution, classic_failure } = step;
        let schema: SchemaResult<Arc<Schema>> = match resolution {
            Resolution::Resolved(schema) => Ok(schema),
            Resolution::ConvertSid(record, te_info) => Ok(
                SchemaLocator::classic_schema(record, te_info, sid_string),
            ),
            Resolution::QueryEventInfo(key) => self.event_info_resolved(key, event_info),
            Resolution::QueryClassicInfo(_) => vstd::pervasive::unreached(),
        };
        Located { schema, classic_failure }
    }
}

} // verus!
