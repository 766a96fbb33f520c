//! ETW Event Schema and handler.
//!
//! This module contains the means needed to interact with the Schema of an ETW event.

use crate::classic::{ClassicMetadata, ClassicMetadataView};
use crate::native::{DecodingSource, Property, PropertyError, TraceEventInfo};
use once_cell::sync::OnceCell;
use std::sync::Arc;
use vstd::prelude::*;

verus! {

/// The properties of an event, or the first error met while listing them.
pub type PropertyListing = Result<Vec<Property>, PropertyError>;

/// The outside type `once_cell::sync::OnceCell`: a cell that is written at most once.
#[verifier::external_type_specification]
#[verifier::external_body]
#[verifier::reject_recursive_types(T)]
pub struct ExOnceCell<T>(OnceCell<T>);

/// The listing that a cell was made for: the only one that may enter it.
pub uninterp spec fn cell_listing(cell: OnceCell<PropertyListing>) -> Result<
    Seq<Property>,
    PropertyError,
>;

/// What a listing holds.
pub open spec fn listing_view(listing: PropertyListing) -> Result<Seq<Property>, PropertyError> {
    match listing {
        Ok(properties) => Ok(properties@),
        Err(e) => Err(e),
    }
}

/// All properties in order, or the first error among them.
pub open spec fn collected(items: Seq<Result<Property, PropertyError>>) -> Result<
    Seq<Property>,
    PropertyError,
>
    decreases items.len(),
{
    if items.len() == 0 {
        Ok(Seq::empty())
    } else {
        match items[0] {
            Err(e) => Err(e),
            Ok(property) => match collected(items.skip(1)) {
                Ok(rest) => Ok(seq![property] + rest),
                Err(e) => Err(e),
            },
        }
    }
}

/// `OnceCell::new`: a new, empty cell.
///
/// Shared handles to a cell can fill it, so what it may come to hold is settled when it is made.
/// Nothing is in a new cell yet. It is made for the listing of `te_info`, which is what
/// `cell_listing` says of it, and `get_or_init_listing` asks for no less before it fills it.
#[verifier::external_body]
fn new_listing_cell(te_info: &TraceEventInfo) -> (cell: OnceCell<PropertyListing>)
    ensures
        cell_listing(cell) == collected(te_info.properties@),
{
    OnceCell::new()
}

/// `OnceCell::get_or_init`: the value of the cell, which is first filled with what the closure
/// returns if it is empty, by whichever thread comes first. A value that is in it stays.
///
/// Every call on one cell would fill it with the listing that the cell was made for, and nothing
/// else ever fills it. So that listing is the value, whether this call filled the cell or another.
#[verifier::external_body]
fn get_or_init_listing<'a>(
    cell: &'a OnceCell<PropertyListing>,
    te_info: &TraceEventInfo,
) -> (listing: &'a PropertyListing)
    requires
        cell_listing(*cell) == collected(te_info.properties@),
    ensures
        listing_view(*listing) == cell_listing(*cell),
{
    cell.get_or_init(|| collect_properties(te_info))
}

/// Lists the properties of an event, up to the first that cannot be described.
pub fn collect_properties(te_info: &TraceEventInfo) -> (listing: PropertyListing)
    ensures
        listing_view(listing) == collected(te_info.properties@),
{
    let mut properties: Vec<Property> = Vec::new();
    let ghost items = te_info.properties@;
    let mut i: usize = 0;
    proof {
        assert(items.skip(0) =~= items);
        if let Ok(rest) = collected(items) {
            assert(properties@ + rest =~= rest);
        }
    }
    while i < te_info.properties.len()
        invariant
            items == te_info.properties@,
            i <= items.len(),
            collected(items) == (match collected(items.skip(i as int)) {
                Ok(rest) => Ok::<Seq<Property>, PropertyError>(properties@ + rest),
                Err(e) => Err(e),
            }),
        decreases items.len() - i,
    {
        let ghost before = properties@;
        proof {
            assert(items.skip(i as int)[0] == items[i as int]);
            assert(items.skip(i as int).skip(1) =~= items.skip(i + 1));
        }
        match &te_info.properties[i] {
            Ok(property) => {
                properties.push(property.clone());
                proof {
                    if let Ok(rest) = collected(items.skip(i + 1)) {
                        assert(before + (seq![items[i as int]->Ok_0] + rest) =~= properties@ + rest);
                    }
                }
            },
            Err(e) => {
                return Err(*e);
            },
        }
        i += 1;
    }
    proof {
        assert(items.skip(i as int) =~= Seq::<Result<Property, PropertyError>>::empty());
        assert(properties@ + Seq::<Property>::empty() =~= properties@);
    }
    Ok(properties)
}

/// Internal per-event data for classic (EventlogClassic) events.
///
/// This is NOT cached because each event has different property values
/// (and thus a different synthetic buffer).
pub struct ClassicSchemaData {
    /// Classic-specific metadata (real_event_id, SID, channel, etc.)
    pub metadata: ClassicMetadata,
    /// Re-encoded property strings as null-terminated UTF-16LE.
    /// This buffer replaces the user buffer of the event.
    pub synthetic_user_data: Vec<u8>,
}

/// What a `ClassicSchemaData` holds.
#[verifier::ext_equal]
pub struct ClassicSchemaDataView {
    pub metadata: ClassicMetadataView,
    pub synthetic_user_data: Seq<u8>,
}

impl View for ClassicSchemaData {
    type V = ClassicSchemaDataView;

    open spec fn view(&self) -> ClassicSchemaDataView {
        ClassicSchemaDataView {
            metadata: self.metadata@,
            synthetic_user_data: self.synthetic_user_data@,
        }
    }
}

/// A schema suitable for parsing a given kind of event.
///
/// It is usually retrieved from `SchemaLocator::event_schema`.
pub struct Schema {
    te_info: Arc<TraceEventInfo>,
    cached_properties: OnceCell<PropertyListing>,
    /// Present only for classic (EventlogClassic) events.
    classic_data: Option<ClassicSchemaData>,
}

/// What a `Schema` describes.
#[verifier::ext_equal]
pub struct SchemaView {
    pub te_info: TraceEventInfo,
    pub classic_data: Option<ClassicSchemaDataView>,
}

impl View for Schema {
    type V = SchemaView;

    closed spec fn view(&self) -> SchemaView {
        SchemaView {
            te_info: *self.te_info,
            classic_data: match self.classic_data {
                Some(data) => Some(data@),
                None => None,
            },
        }
    }
}

impl Schema {
    /// The cell is made for the properties of the event information.
    #[verifier::type_invariant]
    spec fn cell_matches(&self) -> bool {
        cell_listing(self.cached_properties) == collected(self.te_info.properties@)
    }

    /// Create a Schema for an event that TDH describes.
    pub fn new(te_info: TraceEventInfo) -> (schema: Self)
        ensures
            schema@ == (SchemaView { te_info, classic_data: None }),
    {
        let cached_properties: OnceCell<PropertyListing> = new_listing_cell(&te_info);
        Schema { te_info: Arc::new(te_info), cached_properties, classic_data: None }
    }

    /// Create a Schema for a classic event, with a shared `TraceEventInfo`
    /// and per-event classic data (synthetic buffer + metadata).
    pub fn new_classic(te_info: Arc<TraceEventInfo>, classic_data: ClassicSchemaData) -> (schema:
        Self)
        ensures
            schema@ == (SchemaView { te_info: *te_info, classic_data: Some(classic_data@) }),
    {
        let cached_properties: OnceCell<PropertyListing> = new_listing_cell(&te_info);
        Schema { te_info, cached_properties, classic_data: Some(classic_data) }
    }

    /// If this schema was resolved from a classic (EventlogClassic) event,
    /// returns the classic-specific metadata.
    ///
    /// This includes the real event ID, SID, channel, source name, etc.
    pub fn classic_metadata(&self) -> (metadata: Option<&ClassicMetadata>)
        ensures
            metadata is Some <==> self@.classic_data is Some,
            metadata matches Some(m) ==> m@ == self@.classic_data->0.metadata,
    {
        match &self.classic_data {
            Some(data) => Some(&data.metadata),
            None => None,
        }
    }

    /// The synthetic user data buffer for classic events.
    /// It takes the place of the user buffer of the event.
    pub fn synthetic_user_data(&self) -> (buffer: Option<&[u8]>)
        ensures
            buffer is Some <==> self@.classic_data is Some,
            buffer matches Some(b) ==> b@ == self@.classic_data->0.synthetic_user_data,
    {
        match &self.classic_data {
            Some(data) => Some(data.synthetic_user_data.as_slice()),
            None => None,
        }
    }

    /// The DecodingSource from the `TRACE_EVENT_INFO`: the source used to parse the event data.
    pub fn decoding_source(&self) -> (source: DecodingSource)
        ensures
            source == self@.te_info.decoding_source,
    {
        self.te_info.decoding_source
    }

    /// The Provider name from the `TRACE_EVENT_INFO`.
    pub fn provider_name(&self) -> (name: String)
        ensures
            name == self@.te_info.provider_name,
    {
        self.te_info.provider_name.clone()
    }

    /// The Task name from the `TRACE_EVENT_INFO`.
    pub fn task_name(&self) -> (name: String)
        ensures
            name == self@.te_info.task_name,
    {
        self.te_info.task_name.clone()
    }

    /// The Opcode name from the `TRACE_EVENT_INFO`.
    pub fn opcode_name(&self) -> (name: String)
        ensures
            name == self@.te_info.opcode_name,
    {
        self.te_info.opcode_name.clone()
    }

    /// Parses the list of properties of the wrapped `TRACE_EVENT_INFO`.
    ///
    /// This is parsed on first call, and cached for later use. The list is empty where a property
    /// has a type that is not implemented.
    pub fn properties(&self) -> (properties: &[Property])
        ensures
            properties@ == (match collected(self@.te_info.properties@) {
                Ok(all) => all,
                Err(_) => Seq::empty(),
            }),
    {
        match self.try_properties() {
            Ok(properties) => properties,
            Err(PropertyError::UnimplementedType(_)) => &[],
        }
    }

    /// Parses the list of properties of the wrapped `TRACE_EVENT_INFO`, or returns the error of
    /// the first property that cannot be described.
    ///
    /// This is parsed on first call, and cached for later use.
    pub fn try_properties(&self) -> (result: Result<&[Property], PropertyError>)
        ensures
            match result {
                Ok(properties) => collected(self@.te_info.properties@) == Ok::<
                    Seq<Property>,
                    PropertyError,
                >(properties@),
                Err(e) => collected(self@.te_info.properties@) == Err::<
                    Seq<Property>,
                    PropertyError,
                >(e),
            },
    {
        proof {
            use_type_invariant(self);
        }
        match get_or_init_listing(&self.cached_properties, &self.te_info) {
            Ok(properties) => Ok(properties.as_slice()),
            Err(e) => Err(*e),
        }
    }
}

/// The listing of properties succeeds if and only if every property can be described, and then it
/// holds all of them in order. Else it fails with the error of the first that cannot be.
pub proof fn law_properties_are_all_or_the_first_error(
    items: Seq<Result<Property, PropertyError>>,
)
    ensures
        collected(items) is Ok <==> forall|i: int| 0 <= i < items.len() ==> (#[trigger] items[i]) is Ok,
        collected(items) matches Ok(all) ==> all.len() == items.len() && forall|i: int|
            0 <= i < items.len() ==> (#[trigger] items[i]) == Ok::<Property, PropertyError>(all[i]),
        collected(items) matches Err(e) ==> exists|i: int|
            0 <= i < items.len() && (#[trigger] items[i]) == Err::<Property, PropertyError>(e)
                && forall|j: int| 0 <= j < i ==> (#[trigger] items[j]) is Ok,
    decreases items.len(),
{
    if items.len() > 0 {
        let rest = items.skip(1);
        law_properties_are_all_or_the_first_error(rest);
        assert forall|i: int| 1 <= i < items.len() implies (#[trigger] items[i]) == rest[i - 1] by {}
        if items[0] is Ok {
            if let Err(e) = collected(rest) {
                let k = choose|i: int|
                    0 <= i < rest.len() && (#[trigger] rest[i]) == Err::<Property, PropertyError>(e)
                        && forall|j: int| 0 <= j < i ==> (#[trigger] rest[j]) is Ok;
                assert(items[k + 1] == Err::<Property, PropertyError>(e));
                assert forall|j: int| 0 <= j < k + 1 implies (#[trigger] items[j]) is Ok by {
                    if j > 0 {
                        assert(rest[j - 1] is Ok);
                    }
                }
            } else {
                assert forall|i: int| 0 <= i < items.len() implies (#[trigger] items[i]) is Ok by {
                    if i > 0 {
                        assert(rest[i - 1] is Ok);
                    }
                }
            }
        } else {
            assert(items[0] == Err::<Property, PropertyError>(items[0]->Err_0));
        }
    }
}

/// Whether two schemas are of the same event: the same event ID, provider and version.
pub open spec fn same_event(a: SchemaView, b: SchemaView) -> bool {
    &&& a.te_info.event_id == b.te_info.event_id
    &&& a.te_info.provider_guid == b.te_info.provider_guid
    &&& a.te_info.event_version == b.te_info.event_version
}

impl vstd::std_specs::cmp::PartialEqSpecImpl for Schema {
    open spec fn obeys_eq_spec() -> bool {
        true
    }

    open spec fn eq_spec(&self, other: &Self) -> bool {
        same_event(self@, other@)
    }
}

impl PartialEq for Schema {
    fn eq(&self, other: &Self) -> (equal: bool) {
        self.te_info.event_id == other.te_info.event_id && self.te_info.provider_guid
            == other.te_info.provider_guid && self.te_info.event_version
            == other.te_info.event_version
    }
}

impl Eq for Schema {

}

/// Equality of schemas is an equivalence: reflexive, symmetric and transitive.
pub proof fn law_schema_equality_is_an_equivalence(a: SchemaView, b: SchemaView, c: SchemaView)
    ensures
        same_event(a, a),
        same_event(a, b) == same_event(b, a),
        same_event(a, b) && same_event(b, c) ==> same_event(a, c),
{
}

/// A schema tells what TDH said about the event: the names and the decoding source of the
/// information that it was made from. That of an ordinary event has nothing of a classic one.
pub proof fn law_schema_tells_what_it_was_made_from(
    te_info: TraceEventInfo,
    schema: Schema,
    source: DecodingSource,
    provider_name: String,
    task_name: String,
    opcode_name: String,
    metadata: Option<&ClassicMetadata>,
    buffer: Option<&[u8]>,
)
    requires
        call_ensures(Schema::new, (te_info,), schema),
        call_ensures(Schema::decoding_source, (&schema,), source),
        call_ensures(Schema::provider_name, (&schema,), provider_name),
        call_ensures(Schema::task_name, (&schema,), task_name),
        call_ensures(Schema::opcode_name, (&schema,), opcode_name),
        call_ensures(Schema::classic_metadata, (&schema,), metadata),
        call_ensures(Schema::synthetic_user_data, (&schema,), buffer),
    ensures
        source == te_info.decoding_source,
        provider_name@ == te_info.provider_name@,
        task_name@ == te_info.task_name@,
        opcode_name@ == te_info.opcode_name@,
        metadata is None,
        buffer is None,
{
}

/// The schema of a classic event tells the same of its information, and has the metadata and the
/// buffer that it was made from.
pub proof fn law_classic_schema_tells_what_it_was_made_from(
    te_info: Arc<TraceEventInfo>,
    data: ClassicSchemaData,
    schema: Schema,
    source: DecodingSource,
    provider_name: String,
    task_name: String,
    opcode_name: String,
    metadata: Option<&ClassicMetadata>,
    buffer: Option<&[u8]>,
)
    requires
        call_ensures(Schema::new_classic, (te_info, data), schema),
        call_ensures(Schema::decoding_source, (&schema,), source),
        call_ensures(Schema::provider_name, (&schema,), provider_name),
        call_ensures(Schema::task_name, (&schema,), task_name),
        call_ensures(Schema::opcode_name, (&schema,), opcode_name),
        call_ensures(Schema::classic_metadata, (&schema,), metadata),
        call_ensures(Schema::synthetic_user_data, (&schema,), buffer),
    ensures
        source == te_info.decoding_source,
        provider_name@ == te_info.provider_name@,
        task_name@ == te_info.task_name@,
        opcode_name@ == te_info.opcode_name@,
        metadata is Some,
        metadata->0.time_created == data.metadata.time_created,
        metadata->0.real_event_id == data.metadata.real_event_id,
        metadata->0.qualifier == data.metadata.qualifier,
        metadata->0.source_name@ == data.metadata.source_name@,
        metadata->0.sid_string@ == data.metadata.sid_string@,
        metadata->0.raw_sid@ == data.metadata.raw_sid@,
        metadata->0.channel@ == data.metadata.channel@,
        metadata->0.event_message@ == data.metadata.event_message@,
        buffer is Some,
        buffer->0@ == data.synthetic_user_data@,
{
}

/// The properties of a schema are all those of the information that it was made from, in order and
/// unchanged. Where one cannot be described, the error is that of the first such one, and the list
/// without errors is empty.
pub proof fn law_schema_lists_the_properties(
    te_info: TraceEventInfo,
    schema: Schema,
    result: Result<&[Property], PropertyError>,
    list: &[Property],
)
    requires
        call_ensures(Schema::new, (te_info,), schema),
        call_ensures(Schema::try_properties, (&schema,), result),
        call_ensures(Schema::properties, (&schema,), list),
    ensures
        ({
            let items = te_info.properties@;
            &&& result is Ok <==> forall|i: int|
                0 <= i < items.len() ==> (#[trigger] items[i]) is Ok
            &&& result matches Ok(all) ==> list@ == all@ && all@.len() == items.len() && forall|
                i: int,
            |
                0 <= i < items.len() ==> (#[trigger] items[i]) == Ok::<Property, PropertyError>(
                    all@[i],
                )
            &&& result matches Err(e) ==> list@.len() == 0 && exists|i: int|
                0 <= i < items.len() && (#[trigger] items[i]) == Err::<Property, PropertyError>(e)
                    && forall|j: int| 0 <= j < i ==> (#[trigger] items[j]) is Ok
        }),
{
    law_properties_are_all_or_the_first_error(te_info.properties@);
}

/// The properties of a classic schema are listed as those of any other with the same information.
pub proof fn law_classic_schema_lists_the_same_properties(
    te_info: TraceEventInfo,
    schema: Schema,
    result: Result<&[Property], PropertyError>,
    data: ClassicSchemaData,
    classic: Schema,
    classic_result: Result<&[Property], PropertyError>,
)
    requires
        call_ensures(Schema::new, (te_info,), schema),
        call_ensures(Schema::try_properties, (&schema,), result),
        call_ensures(Schema::new_classic, (Arc::new(te_info), data), classic),
        call_ensures(Schema::try_properties, (&classic,), classic_result),
    ensures
        classic_result is Ok <==> result is Ok,
        result matches Ok(all) ==> classic_result->Ok_0@ == all@,
        result matches Err(e) ==> classic_result->Err_0 == e,
{
}

/// Schemas are equal if and only if their information is of the same event ID, provider and
/// version, whatever else differs.
pub proof fn law_schemas_are_equal_by_event(
    a_info: TraceEventInfo,
    b_info: TraceEventInfo,
    a: Schema,
    b: Schema,
    equal: bool,
)
    requires
        call_ensures(Schema::new, (a_info,), a),
        call_ensures(Schema::new, (b_info,), b),
        call_ensures(<Schema as PartialEq>::eq, (&a, &b), equal),
    ensures
        equal <==> a_info.event_id == b_info.event_id && a_info.provider_guid
            == b_info.provider_guid && a_info.event_version == b_info.event_version,
        same_event(a@, b@) == equal,
{
}

} // verus!
