//! Providers, as far as a trace decides over them.

use crate::native::GUID;
use vstd::prelude::*;

verus! {

/// A filter that restricts the events that a provider delivers.
#[derive(Debug)]
pub enum EventFilter {
    /// Only events with one of these event IDs in their ETW header.
    ByEventIds(Vec<u16>),
    /// A filter by anything else.
    Other,
}

/// A provider that is enabled on a trace.
#[derive(Debug)]
pub struct Provider {
    /// The GUID of the provider.
    pub guid: GUID,
    /// The filters on the events of the provider.
    pub filters: Vec<EventFilter>,
    /// The enable flags of a kernel provider, 0 for any other.
    pub kernel_flags: u32,
    /// The group mask of a kernel provider, 0 for any other.
    pub kernel_group_mask: u32,
}

/// Whether some filter is by event ID.
pub open spec fn filters_by_event_id(filters: Seq<EventFilter>) -> bool {
    exists|i: int| 0 <= i < filters.len() && (#[trigger] filters[i]) is ByEventIds
}

impl Provider {
    /// Whether the provider has a filter by event ID.
    pub fn has_event_id_filter(&self) -> (found: bool)
        ensures
            found == filters_by_event_id(self.filters@),
    {
        let mut i: usize = 0;
        while i < self.filters.len()
            invariant
                i <= self.filters@.len(),
                forall|j: int| 0 <= j < i ==> !((#[trigger] self.filters@[j]) is ByEventIds),
            decreases self.filters@.len() - i,
        {
            if matches!(self.filters[i], EventFilter::ByEventIds(_)) {
                return true;
            }
            i += 1;
        }
        false
    }
}

/// The providers' group masks, combined by OR.
pub open spec fn group_mask(providers: Seq<Provider>) -> u32
    decreases providers.len(),
{
    if providers.len() == 0 {
        0
    } else {
        group_mask(providers.drop_last()) | providers.last().kernel_group_mask
    }
}

/// Whether bit `bit` is set in `mask`.
pub open spec fn has_bit(mask: u32, bit: u32) -> bool {
    mask & (1u32 << bit) != 0
}

/// A bit is in the combined group mask if and only if it is in the mask of some provider.
pub proof fn law_group_mask_bits(providers: Seq<Provider>, bit: u32)
    requires
        bit < 32,
    ensures
        has_bit(group_mask(providers), bit) <==> exists|i: int|
            0 <= i < providers.len() && has_bit((#[trigger] providers[i]).kernel_group_mask, bit),
    decreases providers.len(),
{
    if providers.len() == 0 {
        assert(0u32 & (1u32 << bit) == 0) by (bit_vector);
    } else {
        let front = providers.drop_last();
        let a = group_mask(front);
        let b = providers.last().kernel_group_mask;
        law_group_mask_bits(front, bit);
        assert(((a | b) & (1u32 << bit) != 0) == (a & (1u32 << bit) != 0 || b & (1u32 << bit) != 0))
            by (bit_vector);
        if has_bit(a, bit) {
            let i = choose|i: int|
                0 <= i < front.len() && has_bit((#[trigger] front[i]).kernel_group_mask, bit);
            assert(providers[i] == front[i]);
        }
        if has_bit(b, bit) {
            assert(has_bit(providers[providers.len() - 1].kernel_group_mask, bit));
        }
        if exists|i: int|
            0 <= i < providers.len() && has_bit((#[trigger] providers[i]).kernel_group_mask, bit) {
            let i = choose|i: int|
                0 <= i < providers.len() && has_bit((#[trigger] providers[i]).kernel_group_mask, bit);
            if i < front.len() {
                assert(has_bit(front[i].kernel_group_mask, bit));
            }
        }
    }
}

/// The combined group mask is non-zero only when at least one provider has a group mask.
pub proof fn law_group_mask_is_zero(providers: Seq<Provider>)
    ensures
        group_mask(providers) != 0 <==> exists|i: int|
            0 <= i < providers.len() && (#[trigger] providers[i]).kernel_group_mask != 0,
    decreases providers.len(),
{
    if providers.len() > 0 {
        let front = providers.drop_last();
        let a = group_mask(front);
        let b = providers.last().kernel_group_mask;
        law_group_mask_is_zero(front);
        assert((a | b != 0) == (a != 0 || b != 0)) by (bit_vector);
        if a != 0 {
            let i = choose|i: int|
                0 <= i < front.len() && (#[trigger] front[i]).kernel_group_mask != 0;
            assert(providers[i] == front[i]);
        }
        if b != 0 {
            assert(providers[providers.len() - 1].kernel_group_mask != 0);
        }
        if exists|i: int|
            0 <= i < providers.len() && (#[trigger] providers[i]).kernel_group_mask != 0 {
            let i = choose|i: int|
                0 <= i < providers.len() && (#[trigger] providers[i]).kernel_group_mask != 0;
            if i < front.len() {
                assert(front[i].kernel_group_mask != 0);
            }
        }
    }
}

/// A provider has a filter by event ID if and only if one of its filters, wherever it stands, is one
/// by event IDs.
pub proof fn law_event_id_filters_are_found(provider: &Provider, found: bool)
    requires
        call_ensures(Provider::has_event_id_filter, (provider,), found),
    ensures
        found <==> exists|i: int|
            0 <= i < provider.filters@.len() && (#[trigger] provider.filters@[i]) is ByEventIds,
{
}

/// Another filter makes a difference only where it is the first by event IDs.
pub proof fn law_filters_add_up(filters: Seq<EventFilter>, other: EventFilter)
    ensures
        !filters_by_event_id(Seq::empty()),
        filters_by_event_id(filters.push(other)) <==> filters_by_event_id(filters)
            || other is ByEventIds,
{
    let more = filters.push(other);
    if filters_by_event_id(filters) {
        let i = choose|i: int| 0 <= i < filters.len() && (#[trigger] filters[i]) is ByEventIds;
        assert(more[i] is ByEventIds);
    }
    if other is ByEventIds {
        assert(more[filters.len() as int] is ByEventIds);
    }
    if filters_by_event_id(more) {
        let i = choose|i: int| 0 <= i < more.len() && (#[trigger] more[i]) is ByEventIds;
        if i < filters.len() {
            assert(filters[i] is ByEventIds);
        }
    }
}

} // verus!
