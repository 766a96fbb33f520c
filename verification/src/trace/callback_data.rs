//! Data used by callbacks when the trace is running.
//!
//! The data decides which callbacks an event is for. Who runs them is the caller.

use crate::native::{EventRecord, GUID};
use crate::provider::{filters_by_event_id, group_mask, Provider};
use crate::schema_locator::{LocatorView, SchemaLocator};
use crate::trace::RealTimeTraceTrait;
use vstd::prelude::*;

verus! {

/// Data used by callbacks when the trace is running.
pub enum CallbackData<C> {
    RealTime(RealTimeCallbackData),
    FromFile(CallbackDataFromFile<C>),
}

/// Data of a trace that receives the events of its providers as they happen.
pub struct RealTimeCallbackData {
    /// Represents how many events have been handled so far.
    events_handled: usize,
    schema_locator: SchemaLocator,
    /// List of Providers associated with the Trace.
    providers: Vec<Provider>,
}

/// Data of a trace that reads an ETL file, and has a single callback.
pub struct CallbackDataFromFile<C> {
    /// Represents how many events have been handled so far.
    events_handled: usize,
    schema_locator: SchemaLocator,
    callback: C,
}

/// What a `RealTimeCallbackData` holds.
#[verifier::ext_equal]
pub struct RealTimeView {
    pub events_handled: usize,
    pub locator: LocatorView,
    pub providers: Seq<Provider>,
}

/// What a `CallbackDataFromFile` holds.
#[verifier::ext_equal]
pub struct FromFileView<C> {
    pub events_handled: usize,
    pub locator: LocatorView,
    pub callback: C,
}

/// What a `CallbackData` holds.
#[verifier::ext_equal]
pub enum CallbackDataView<C> {
    RealTime(RealTimeView),
    FromFile(FromFileView<C>),
}

impl View for RealTimeCallbackData {
    type V = RealTimeView;

    closed spec fn view(&self) -> RealTimeView {
        RealTimeView {
            events_handled: self.events_handled,
            locator: self.schema_locator@,
            providers: self.providers@,
        }
    }
}

impl<C> View for CallbackDataFromFile<C> {
    type V = FromFileView<C>;

    closed spec fn view(&self) -> FromFileView<C> {
        FromFileView {
            events_handled: self.events_handled,
            locator: self.schema_locator@,
            callback: self.callback,
        }
    }
}

impl<C> View for CallbackData<C> {
    type V = CallbackDataView<C>;

    open spec fn view(&self) -> CallbackDataView<C> {
        match self {
            CallbackData::RealTime(data) => CallbackDataView::RealTime(data@),
            CallbackData::FromFile(data) => CallbackDataView::FromFile(data@),
        }
    }
}

/// The count after one more event. It starts again at zero after the largest number.
pub open spec fn one_more(count: usize) -> usize {
    if count < usize::MAX {
        (count + 1) as usize
    } else {
        0
    }
}

/// The count after `n` events.
pub open spec fn count_after(n: nat) -> usize
    decreases n,
{
    if n == 0 {
        0
    } else {
        one_more(count_after((n - 1) as nat))
    }
}

/// As long as the number of events fits in the count, the count is the number of events.
pub proof fn law_events_are_counted(n: nat)
    requires
        n <= usize::MAX,
    ensures
        count_after(n) == n,
    decreases n,
{
    if n > 0 {
        law_events_are_counted((n - 1) as nat);
    }
}

/// Two dispatches of the same event list the same providers in the same order.
pub proof fn law_dispatch_is_unique(
    providers: Seq<Provider>,
    guid: GUID,
    a: Seq<usize>,
    b: Seq<usize>,
)
    requires
        is_dispatch(providers, guid, a),
        is_dispatch(providers, guid, b),
    ensures
        a == b,
{
    lemma_dispatch_prefix(providers, guid, a, b, a.len() as int);
    lemma_dispatch_prefix(providers, guid, b, a, b.len() as int);
    assert(a =~= b);
}

/// The first `n` places of a dispatch are the first `n` places of any other.
proof fn lemma_dispatch_prefix(
    providers: Seq<Provider>,
    guid: GUID,
    a: Seq<usize>,
    b: Seq<usize>,
    n: int,
)
    requires
        is_dispatch(providers, guid, a),
        is_dispatch(providers, guid, b),
        0 <= n <= a.len(),
    ensures
        n <= b.len(),
        forall|k: int| 0 <= k < n ==> a[k] == b[k],
    decreases n,
{
    if n > 0 {
        let m = n - 1;
        lemma_dispatch_prefix(providers, guid, a, b, m);
        assert(providers[a[m] as int].guid == guid);
        let k = choose|k: int| 0 <= k < b.len() && (#[trigger] b[k]) as int == a[m] as int;
        if k < m {
            assert(a[k] == b[k]);
            assert(a[k] < a[m]);
        } else if k > m {
            assert(b[m] < b[k]);
            assert(providers[b[m] as int].guid == guid);
            let l = choose|l: int| 0 <= l < a.len() && (#[trigger] a[l]) as int == b[m] as int;
            if l < m {
                assert(a[l] == b[l]);
                assert(b[l] < b[m]);
            } else if l > m {
                assert(a[m] < a[l]);
            }
        }
    }
}

/// Whether `order` lists the providers with the GUID, each once, in the order in which they were
/// added.
pub open spec fn is_dispatch(providers: Seq<Provider>, guid: GUID, order: Seq<usize>) -> bool {
    &&& forall|k: int|
        0 <= k < order.len() ==> (#[trigger] order[k]) < providers.len()
            && providers[order[k] as int].guid == guid
    &&& forall|k: int, l: int| 0 <= k < l < order.len() ==> #[trigger] order[k] < #[trigger] order[l]
    &&& forall|i: int|
        0 <= i < providers.len() && (#[trigger] providers[i]).guid == guid ==> exists|k: int|
            0 <= k < order.len() && (#[trigger] order[k]) as int == i
}

/// The callbacks that an event is for.
pub enum Dispatch {
    /// Those of the providers at these places, in this order.
    Providers(Vec<usize>),
    /// The callback of the file.
    FileCallback,
}

/// Whether a trace of kind `T` has these enable flags with these providers.
pub open spec fn gives_flags<T: RealTimeTraceTrait>(providers: &[Provider], flags: u32) -> bool {
    call_ensures(T::enable_flags, (providers,), flags)
}

/// The enable flags of a trace.
#[derive(Debug, Clone, Copy, PartialEq, Eq, Structural)]
pub struct EventTraceFlag(pub u32);

impl<C> CallbackDataView<C> {
    /// How many events have been handled.
    pub open spec fn events_handled(self) -> usize {
        match self {
            CallbackDataView::RealTime(data) => data.events_handled,
            CallbackDataView::FromFile(data) => data.events_handled,
        }
    }
}

impl<C> CallbackData<C> {
    /// Counts the event, and says which callbacks it is for.
    pub fn on_event(&mut self, record: &EventRecord) -> (dispatch: Dispatch)
        ensures
            match old(self)@ {
                CallbackDataView::RealTime(data) => {
                    &&& final(self)@ == CallbackDataView::<C>::RealTime(
                        (RealTimeView { events_handled: one_more(data.events_handled), ..data }),
                    )
                    &&& dispatch matches Dispatch::Providers(order)
                    &&& is_dispatch(data.providers, record.provider_id, order@)
                },
                CallbackDataView::FromFile(data) => {
                    &&& final(self)@ == CallbackDataView::<C>::FromFile(
                        (FromFileView { events_handled: one_more(data.events_handled), ..data }),
                    )
                    &&& dispatch is FileCallback
                },
            },
    {
        match self {
            CallbackData::RealTime(rt_cb) => Dispatch::Providers(rt_cb.on_event(record)),
            CallbackData::FromFile(f_cb) => f_cb.on_event(record),
        }
    }

    /// How many events have been handled since this instance was created.
    pub fn events_handled(&self) -> (count: usize)
        ensures
            count == self@.events_handled(),
    {
        match self {
            CallbackData::RealTime(rt_cb) => rt_cb.events_handled(),
            CallbackData::FromFile(f_cb) => f_cb.events_handled(),
        }
    }
}

impl<C> CallbackDataView<C> {
    /// What is known about schemas.
    pub open spec fn locator(self) -> LocatorView {
        match self {
            CallbackDataView::RealTime(data) => data.locator,
            CallbackDataView::FromFile(data) => data.locator,
        }
    }

    /// The data with other knowledge about schemas.
    pub open spec fn with_locator(self, locator: LocatorView) -> CallbackDataView<C> {
        match self {
            CallbackDataView::RealTime(data) => CallbackDataView::RealTime(
                RealTimeView { locator, ..data },
            ),
            CallbackDataView::FromFile(data) => CallbackDataView::FromFile(
                FromFileView { locator, ..data },
            ),
        }
    }
}

impl<C> CallbackData<C> {
    /// The schemas of the events of the trace.
    pub fn schema_locator(&mut self) -> (locator: &mut SchemaLocator)
        ensures
            locator@ == old(self)@.locator(),
            final(self)@ == old(self)@.with_locator(final(locator)@),
    {
        match self {
            CallbackData::RealTime(rt_cb) => rt_cb.schema_locator(),
            CallbackData::FromFile(f_cb) => f_cb.schema_locator(),
        }
    }
}

impl Default for RealTimeCallbackData {
    fn default() -> (data: Self)
        ensures
            data@ == (RealTimeView {
                events_handled: 0,
                locator: LocatorView::empty(),
                providers: Seq::empty(),
            }),
    {
        RealTimeCallbackData {
            events_handled: 0,
            schema_locator: SchemaLocator::new(),
            providers: Vec::new(),
        }
    }
}

impl RealTimeCallbackData {
    /// Data without providers, for a trace that has handled no event.
    pub fn new() -> (data: Self)
        ensures
            data@ == (RealTimeView {
                events_handled: 0,
                locator: LocatorView::empty(),
                providers: Seq::empty(),
            }),
    {
        Default::default()
    }

    /// Adds a provider, and registers it as a classic one if it is one.
    ///
    /// `has_classic_keyword` is whether TDH lists the `win:EventlogClassic` keyword among those of
    /// the provider. Returns whether a warning is due: classic events always arrive with
    /// `event_id == 0` in the ETW header, so that filters by event ID on a classic provider never
    /// match the *real* event ID (which is embedded in the binary payload).
    pub fn add_provider(&mut self, provider: Provider, has_classic_keyword: bool) -> (warn: bool)
        ensures
            final(self)@ == (RealTimeView {
                events_handled: old(self)@.events_handled,
                locator: if has_classic_keyword {
                    old(self)@.locator.with_provider(provider.guid)
                } else {
                    old(self)@.locator
                },
                providers: old(self)@.providers.push(provider),
            }),
            warn == (final(self)@.locator.classic_providers.contains(provider.guid)
                && filters_by_event_id(provider.filters@)),
    {
        self.schema_locator.detect_and_register_classic_provider(&provider.guid, has_classic_keyword);
        let warn: bool = self.schema_locator.is_classic_provider(&provider.guid)
            && provider.has_event_id_filter();
        self.providers.push(provider);
        warn
    }

    /// The providers of the trace.
    pub fn providers(&self) -> (providers: &[Provider])
        ensures
            providers@ == self@.providers,
    {
        self.providers.as_slice()
    }

    /// How many events have been handled since this instance was created.
    pub fn events_handled(&self) -> (count: usize)
        ensures
            count == self@.events_handled,
    {
        self.events_handled
    }

    /// The schemas of the events of the trace.
    pub fn schema_locator(&mut self) -> (locator: &mut SchemaLocator)
        ensures
            locator@ == old(self)@.locator,
            final(self)@ == (RealTimeView { locator: final(locator)@, ..old(self)@ }),
    {
        &mut self.schema_locator
    }

    /// The enable flags that a trace of kind `T` has with these providers.
    pub fn provider_flags<T: RealTimeTraceTrait>(&self) -> (flags: EventTraceFlag)
        ensures
            exists|providers: &[Provider]|
                providers@ == self@.providers && #[trigger] gives_flags::<T>(providers, flags.0),
    {
        let providers: &[Provider] = self.providers.as_slice();
        let enabled: EventTraceFlag = EventTraceFlag(T::enable_flags(providers));
        assert(gives_flags::<T>(providers, enabled.0));
        enabled
    }

    /// Returns the OR of all kernel providers' group masks.
    /// Non-zero only when at least one provider uses TraceSetInformation (e.g. object_manager).
    pub fn provider_group_mask(&self) -> (mask: u32)
        ensures
            mask == group_mask(self@.providers),
    {
        let mut mask: u32 = 0;
        let mut i: usize = 0;
        while i < self.providers.len()
            invariant
                i <= self.providers@.len(),
                mask == group_mask(self.providers@.take(i as int)),
            decreases self.providers@.len() - i,
        {
            mask = mask | self.providers[i].kernel_group_mask;
            proof {
                assert(self.providers@.take(i + 1).drop_last() =~= self.providers@.take(i as int));
            }
            i += 1;
        }
        proof {
            assert(self.providers@.take(i as int) =~= self.providers@);
        }
        mask
    }

    /// Counts the event, and lists the providers whose callbacks it is for.
    pub fn on_event(&mut self, record: &EventRecord) -> (order: Vec<usize>)
        ensures
            final(self)@ == (RealTimeView {
                events_handled: one_more(old(self)@.events_handled),
                ..old(self)@
            }),
            is_dispatch(old(self)@.providers, record.provider_id, order@),
    {
        self.events_handled = self.events_handled.wrapping_add(1);
        let mut order: Vec<usize> = Vec::new();
        let mut i: usize = 0;
        let ghost providers = self.providers@;
        proof {
            assert(providers.take(0) =~= Seq::<Provider>::empty());
        }
        while i < self.providers.len()
            invariant
                providers == self.providers@,
                i <= providers.len(),
                is_dispatch(providers.take(i as int), record.provider_id, order@),
            decreases providers.len() - i,
        {
            let ghost before = order@;
            if self.providers[i].guid == record.provider_id {
                order.push(i);
            }
            proof {
                let some = providers.take(i as int);
                let more = providers.take(i + 1);
                assert forall|k: int| 0 <= k < order@.len() implies (#[trigger] order@[k])
                    < more.len() && more[order@[k] as int].guid == record.provider_id by {
                    if k < before.len() {
                        assert(before[k] == order@[k]);
                        assert(some[before[k] as int] == more[before[k] as int]);
                    }
                }
                assert forall|k: int, l: int| 0 <= k < l < order@.len() implies #[trigger] order@[k]
                    < #[trigger] order@[l] by {
                    assert(before[k] == order@[k]);
                    if l < before.len() {
                        assert(before[l] == order@[l]);
                    }
                }
                assert forall|j: int|
                    0 <= j < more.len() && (#[trigger] more[j]).guid
                        == record.provider_id implies exists|k: int|
                    0 <= k < order@.len() && (#[trigger] order@[k]) as int == j by {
                    if j < some.len() {
                        assert(some[j] == more[j]);
                        let k = choose|k: int|
                            0 <= k < before.len() && (#[trigger] before[k]) as int == j;
                        assert(order@[k] as int == j);
                    } else {
                        assert(order@[order@.len() - 1] as int == j);
                    }
                }
            }
            i += 1;
        }
        proof {
            assert(providers.take(i as int) =~= providers);
        }
        order
    }
}

impl<C> CallbackDataFromFile<C> {
    /// Data for a trace that has handled no event.
    pub fn new(callback: C) -> (data: Self)
        ensures
            data@ == (FromFileView { events_handled: 0, locator: LocatorView::empty(), callback }),
    {
        CallbackDataFromFile { events_handled: 0, schema_locator: SchemaLocator::new(), callback }
    }

    /// How many events have been handled since this instance was created.
    pub fn events_handled(&self) -> (count: usize)
        ensures
            count == self@.events_handled,
    {
        self.events_handled
    }

    /// The schemas of the events of the trace.
    pub fn schema_locator(&mut self) -> (locator: &mut SchemaLocator)
        ensures
            locator@ == old(self)@.locator,
            final(self)@ == (FromFileView { locator: final(locator)@, ..old(self)@ }),
    {
        &mut self.schema_locator
    }

    /// The callback, which every event is for.
    pub fn callback(&self) -> (callback: &C)
        ensures
            *callback == self@.callback,
    {
        &self.callback
    }

    /// Counts the event, and says that it is for the callback of the file, as every event is.
    pub fn on_event(&mut self, _record: &EventRecord) -> (dispatch: Dispatch)
        ensures
            dispatch is FileCallback,
            final(self)@ == (FromFileView {
                events_handled: one_more(old(self)@.events_handled),
                ..old(self)@
            }),
    {
        self.events_handled = self.events_handled.wrapping_add(1);
        Dispatch::FileCallback
    }
}

/// The count goes up by one with each event, and starts again at zero after the largest number.
pub proof fn law_the_count_goes_up_by_one(count: usize)
    ensures
        count < usize::MAX ==> one_more(count) == count + 1,
        one_more(usize::MAX) == 0,
{
}

/// What is said of the data of a real-time trace is what can be seen of it.
pub proof fn law_real_time_data_shows_what_it_holds(
    data: &RealTimeCallbackData,
    count: usize,
    providers: &[Provider],
)
    requires
        call_ensures(RealTimeCallbackData::events_handled, (data,), count),
        call_ensures(RealTimeCallbackData::providers, (data,), providers),
    ensures
        count == data@.events_handled,
        providers@ == data@.providers,
{
}

/// A new real-time trace has handled no event, has no provider and knows nothing of schemas.
pub proof fn law_new_real_time_data_is_empty(
    data: RealTimeCallbackData,
    other: RealTimeCallbackData,
)
    requires
        call_ensures(RealTimeCallbackData::new, (), data),
        call_ensures(<RealTimeCallbackData as Default>::default, (), other),
    ensures
        data@.events_handled == 0,
        data@.providers.len() == 0,
        data@.locator == LocatorView::empty(),
        other@ == data@,
{
}

/// An added provider comes last, and no other thing changes but that it becomes a classic one if it
/// has the keyword. A warning is due if and only if the provider is a classic one by then and has a
/// filter by event IDs.
pub proof fn law_added_providers_come_last(
    data: &mut RealTimeCallbackData,
    provider: Provider,
    has_classic_keyword: bool,
    warn: bool,
)
    requires
        call_ensures(
            RealTimeCallbackData::add_provider,
            (data, provider, has_classic_keyword),
            warn,
        ),
    ensures
        final(data)@.providers == old(data)@.providers.push(provider),
        final(data)@.events_handled == old(data)@.events_handled,
        final(data)@.locator.schemas == old(data)@.locator.schemas,
        final(data)@.locator.classic_infos == old(data)@.locator.classic_infos,
        final(data)@.locator.classic_failures == old(data)@.locator.classic_failures,
        forall|guid: GUID| #[trigger]
            final(data)@.locator.classic_providers.contains(guid) <==> old(
                data,
            )@.locator.classic_providers.contains(guid) || has_classic_keyword && guid
                == provider.guid,
        warn <==> (has_classic_keyword || old(data)@.locator.classic_providers.contains(
            provider.guid,
        )) && exists|i: int|
            0 <= i < provider.filters@.len() && (#[trigger] provider.filters@[i]) is ByEventIds,
{
}

/// An event of a real-time trace is counted, and is for each provider with its GUID, once, in the
/// order in which the providers were added, and for no other. Nothing else changes.
pub proof fn law_events_go_to_their_providers(
    data: &mut RealTimeCallbackData,
    record: &EventRecord,
    order: Vec<usize>,
)
    requires
        call_ensures(RealTimeCallbackData::on_event, (data, record), order),
    ensures
        forall|i: usize| #[trigger]
            order@.contains(i) <==> i < old(data)@.providers.len() && old(
                data,
            )@.providers[i as int].guid == record.provider_id,
        forall|k: int, l: int| 0 <= k < l < order@.len() ==> #[trigger] order@[k] < #[trigger] order@[l],
        final(data)@.events_handled == if old(data)@.events_handled < usize::MAX {
            old(data)@.events_handled + 1
        } else {
            0
        },
        final(data)@.providers == old(data)@.providers,
        final(data)@.locator == old(data)@.locator,
{
    lemma_dispatch_members(old(data)@.providers, record.provider_id, order@);
}

/// A dispatch lists the providers with the GUID and no other.
proof fn lemma_dispatch_members(providers: Seq<Provider>, guid: GUID, order: Seq<usize>)
    requires
        is_dispatch(providers, guid, order),
    ensures
        forall|i: usize| #[trigger]
            order.contains(i) <==> i < providers.len() && providers[i as int].guid == guid,
{
    assert forall|i: usize| #[trigger] order.contains(i) implies i < providers.len()
        && providers[i as int].guid == guid by {
        let k = choose|k: int| 0 <= k < order.len() && order[k] == i;
        assert(order[k] < providers.len());
    }
    assert forall|i: usize|
        i < providers.len() && providers[i as int].guid == guid implies #[trigger] order.contains(
        i,
    ) by {
        assert(providers[i as int].guid == guid);
        let k = choose|k: int| 0 <= k < order.len() && (#[trigger] order[k]) as int == i as int;
        assert(order[k] == i);
    }
}

/// A bit is in the group mask of a trace if and only if it is in that of one of its providers.
pub proof fn law_group_mask_of_a_trace(data: &RealTimeCallbackData, mask: u32, bit: u32)
    requires
        call_ensures(RealTimeCallbackData::provider_group_mask, (data,), mask),
        bit < 32,
    ensures
        mask & (1u32 << bit) != 0 <==> exists|i: int|
            0 <= i < data@.providers.len() && (#[trigger] data@.providers[i]).kernel_group_mask & (
            1u32 << bit) != 0,
{
    crate::provider::law_group_mask_bits(data@.providers, bit);
    let providers = data@.providers;
    if mask & (1u32 << bit) != 0 {
        let i = choose|i: int|
            0 <= i < providers.len() && crate::provider::has_bit(
                (#[trigger] providers[i]).kernel_group_mask,
                bit,
            );
        assert(providers[i].kernel_group_mask & (1u32 << bit) != 0);
    }
    if exists|i: int|
        0 <= i < providers.len() && (#[trigger] providers[i]).kernel_group_mask & (1u32 << bit)
            != 0 {
        let i = choose|i: int|
            0 <= i < providers.len() && (#[trigger] providers[i]).kernel_group_mask & (1u32 << bit)
                != 0;
        assert(crate::provider::has_bit(providers[i].kernel_group_mask, bit));
    }
}

/// The enable flags of a trace are those that its kind gives for exactly its providers.
pub proof fn law_flags_are_those_of_the_kind<T: RealTimeTraceTrait>(
    data: &RealTimeCallbackData,
    flags: EventTraceFlag,
)
    requires
        call_ensures(RealTimeCallbackData::provider_flags::<T>, (data,), flags),
    ensures
        exists|providers: &[Provider]|
            providers@ == data@.providers && #[trigger] call_ensures(
                T::enable_flags,
                (providers,),
                flags.0,
            ),
{
    let providers = choose|providers: &[Provider]|
        providers@ == data@.providers && #[trigger] gives_flags::<T>(providers, flags.0);
    assert(call_ensures(T::enable_flags, (providers,), flags.0));
}

/// A new file trace has handled no event, knows nothing of schemas and has its callback. Every event
/// is counted and is for that callback, which stays.
pub proof fn law_every_event_of_a_file_is_for_its_callback<C>(
    callback: C,
    new: CallbackDataFromFile<C>,
    data: &mut CallbackDataFromFile<C>,
    record: &EventRecord,
    dispatch: Dispatch,
)
    requires
        call_ensures(CallbackDataFromFile::<C>::new, (callback,), new),
        call_ensures(CallbackDataFromFile::<C>::on_event, (data, record), dispatch),
    ensures
        new@.events_handled == 0,
        new@.locator == LocatorView::empty(),
        new@.callback == callback,
        dispatch is FileCallback,
        final(data)@.events_handled == if old(data)@.events_handled < usize::MAX {
            old(data)@.events_handled + 1
        } else {
            0
        },
        final(data)@.callback == old(data)@.callback,
        final(data)@.locator == old(data)@.locator,
{
}

/// What is said of the data of a file trace is what can be seen of it.
pub proof fn law_file_data_shows_what_it_holds<C>(
    data: &CallbackDataFromFile<C>,
    count: usize,
    callback: &C,
)
    requires
        call_ensures(CallbackDataFromFile::<C>::events_handled, (data,), count),
        call_ensures(CallbackDataFromFile::<C>::callback, (data,), callback),
    ensures
        count == data@.events_handled,
        *callback == data@.callback,
{
}

/// The data of a trace of either kind counts and dispatches as the data of that kind does.
pub proof fn law_callback_data_does_as_its_kind<C>(
    data: &mut CallbackData<C>,
    record: &EventRecord,
    dispatch: Dispatch,
    count: usize,
    real_time: RealTimeCallbackData,
    from_file: CallbackDataFromFile<C>,
)
    requires
        call_ensures(CallbackData::<C>::on_event, (data, record), dispatch),
        call_ensures(CallbackData::<C>::events_handled, (&*data,), count),
    ensures
        CallbackData::<C>::RealTime(real_time)@ == CallbackDataView::<C>::RealTime(real_time@),
        CallbackData::<C>::FromFile(from_file)@ == CallbackDataView::<C>::FromFile(from_file@),
        match *old(data) {
            CallbackData::RealTime(before) => {
                &&& count == before@.events_handled
                &&& *final(data) matches CallbackData::RealTime(after)
                &&& after@.events_handled == if count < usize::MAX {
                    count + 1
                } else {
                    0
                }
                &&& after@.providers == before@.providers
                &&& after@.locator == before@.locator
                &&& dispatch matches Dispatch::Providers(order)
                &&& forall|i: usize| #[trigger]
                    order@.contains(i) <==> i < before@.providers.len()
                        && before@.providers[i as int].guid == record.provider_id
                &&& forall|k: int, l: int|
                    0 <= k < l < order@.len() ==> #[trigger] order@[k] < #[trigger] order@[l]
            },
            CallbackData::FromFile(before) => {
                &&& count == before@.events_handled
                &&& *final(data) matches CallbackData::FromFile(after)
                &&& after@.events_handled == if count < usize::MAX {
                    count + 1
                } else {
                    0
                }
                &&& after@.callback == before@.callback
                &&& after@.locator == before@.locator
                &&& dispatch is FileCallback
            },
        },
{
    if let CallbackData::RealTime(before) = *old(data) {
        if let Dispatch::Providers(order) = dispatch {
            lemma_dispatch_members(before@.providers, record.provider_id, order@);
        }
    }
}

/// The schemas of a trace are those of its data, and what is changed about them is changed there and
/// nothing else is.
pub proof fn law_the_schemas_of_a_trace_are_those_of_its_data<C>(
    data: &mut CallbackData<C>,
    locator: &mut SchemaLocator,
)
    requires
        call_ensures(CallbackData::<C>::schema_locator, (data,), locator),
    ensures
        match *old(data) {
            CallbackData::RealTime(before) => {
                &&& old(locator)@ == before@.locator
                &&& *final(data) matches CallbackData::RealTime(after)
                &&& after@.locator == final(locator)@
                &&& after@.events_handled == before@.events_handled
                &&& after@.providers == before@.providers
            },
            CallbackData::FromFile(before) => {
                &&& old(locator)@ == before@.locator
                &&& *final(data) matches CallbackData::FromFile(after)
                &&& after@.locator == final(locator)@
                &&& after@.events_handled == before@.events_handled
                &&& after@.callback == before@.callback
            },
        },
{
}

} // verus!
