//! What holds of the classic record format as a whole.

use crate::classic::{
    classic_record, encode_strings_as_user_data, encoded_strings, lemma_until_zero,
    parse_classic_user_data, read_i64_le, read_null_terminated_wstring, read_u16_le,
    read_wstring_by_len, sid_text, sid_to_string, strings_at, texts, units_at, until_zero,
    wstring_end, wstring_units, ClassicMetadata, ClassicParseError, ClassicParseErrorView,
    RawClassicRecord, RawClassicRecordView, EVENTLOG_CLASSIC_KEYWORD,
};
use crate::le::{
    i64_at, i64_bits, law_i64_is_the_reading_of_its_bytes, law_u16_reads_back, law_u64_reads_back,
    law_units_stand_in_place, le_bytes, lemma_le_bytes_len, lemma_u16_at, lemma_unit_bytes_at, lemma_unit_bytes_len, u16_at,
    unit_bytes,
};
use crate::native::{SddlNativeError, TdhNativeError};
use crate::text::{decimal, hex, law_hex_digits_stand_in_place};
use crate::utf16::{
    law_utf16_reads_back, lemma_utf16_has_no_zero, lemma_utf16_lossy_has_no_nul, utf16, utf16_lossy,
};
use vstd::prelude::*;

verus! {

/// Whether no text holds a NUL character, which terminates strings in the format.
pub open spec fn free_of_nul(strings: Seq<Seq<char>>) -> bool {
    forall|i: int| 0 <= i < strings.len() ==> !(#[trigger] strings[i]).contains('\0')
}

/// Whether the record format has room for the fields of a record.
pub open spec fn fits_layout(record: RawClassicRecordView) -> bool {
    &&& utf16(record.source_name).len() < 0xFFFF
    &&& record.sid_bytes.len() <= 0xFFFF
    &&& record.strings.len() <= 0xFFFF
    &&& !record.source_name.contains('\0')
    &&& free_of_nul(record.strings)
}

/// The bytes that a provider writes for a record.
pub open spec fn classic_layout(record: RawClassicRecordView) -> Seq<u8> {
    le_bytes(i64_bits(record.time_created), 8) + le_bytes(record.real_event_id as nat, 2)
        + le_bytes(record.qualifier as nat, 2) + le_bytes(utf16(record.source_name).len() + 1, 2)
        + unit_bytes(utf16(record.source_name)) + seq![0u8, 0u8] + le_bytes(
        record.sid_bytes.len(),
        2,
    ) + record.sid_bytes + le_bytes(record.strings.len(), 2) + encoded_strings(record.strings)
}

/// A 16-bit number reads back from where it was written.
proof fn lemma_u16_in_place(data: Seq<u8>, offset: int, n: nat)
    requires
        n <= 0xFFFF,
        data.subrange(offset, offset + 2) == le_bytes(n, 2),
    ensures
        u16_at(data, offset) == n,
{
    law_u16_reads_back(n as u16);
}

/// Units read back from where they were written, and so does the terminator after them.
proof fn lemma_units_in_place(data: Seq<u8>, offset: int, units: Seq<u16>, count: nat)
    requires
        0 <= offset,
        units.len() < count,
        offset + 2 * count <= data.len(),
        data.subrange(offset, offset + 2 * units.len()) == unit_bytes(units),
        data[offset + 2 * units.len()] == 0,
        data[offset + 2 * units.len() + 1] == 0,
        !units.contains(0),
    ensures
        until_zero(units_at(data, offset, count)) == units,
{
    let all = units_at(data, offset, count);
    let k = units.len() as int;
    lemma_unit_bytes_len(units);
    assert forall|j: int| 0 <= j < k implies all[j] == units[j] by {
        lemma_unit_bytes_at(units, j);
        assert(data.subrange(offset + 2 * j, offset + 2 * j + 2) =~= unit_bytes(units).subrange(
            2 * j,
            2 * j + 2,
        ));
    }
    assert(all[k] == 0) by {
        lemma_u16_at(data, offset + 2 * k);
    }
    lemma_until_zero(all, k);
    assert(all.take(k) =~= units);
}

/// A null-terminated string reads back from where it was written.
proof fn lemma_wstring_in_place(data: Seq<u8>, offset: int, text: Seq<char>)
    requires
        0 <= offset,
        offset + 2 * utf16(text).len() + 2 <= data.len(),
        data.subrange(offset, offset + 2 * utf16(text).len()) == unit_bytes(utf16(text)),
        data[offset + 2 * utf16(text).len()] == 0,
        data[offset + 2 * utf16(text).len() + 1] == 0,
        !text.contains('\0'),
    ensures
        utf16_lossy(wstring_units(data, offset)) == text,
        wstring_end(data, offset) == offset + 2 * utf16(text).len() + 2,
{
    lemma_utf16_has_no_zero(text);
    law_utf16_reads_back(text);
    lemma_units_in_place(data, offset, utf16(text), ((data.len() - offset) / 2) as nat);
}

/// Strings read back from where they were encoded, whatever stands before and after them.
pub proof fn law_encoded_strings_read_back(
    before: Seq<u8>,
    strings: Seq<Seq<char>>,
    after: Seq<u8>,
    i: int,
)
    requires
        free_of_nul(strings),
    ensures
        strings_at(
            before + encoded_strings(strings) + after,
            before.len() as int,
            i,
            i + strings.len(),
        ) == Ok::<Seq<Seq<char>>, ClassicParseErrorView>(strings),
    decreases strings.len(),
{
    let data = before + encoded_strings(strings) + after;
    let offset = before.len() as int;
    if strings.len() == 0 {
        assert(strings =~= Seq::<Seq<char>>::empty());
    } else {
        let text = strings[0];
        let rest = strings.skip(1);
        let head = unit_bytes(utf16(text)) + seq![0u8, 0u8];
        lemma_unit_bytes_len(utf16(text));
        assert(data.subrange(offset, offset + 2 * utf16(text).len()) =~= unit_bytes(utf16(text)));
        lemma_wstring_in_place(data, offset, text);
        assert forall|j: int| 0 <= j < rest.len() implies !(#[trigger] rest[j]).contains('\0') by {
            assert(rest[j] == strings[j + 1]);
        }
        law_encoded_strings_read_back(before + head, rest, after, i + 1);
        assert((before + head) + encoded_strings(rest) + after =~= data);
        assert(seq![text] + rest =~= strings);
    }
}

/// A record reads back from its bytes as it was, whatever stands after them.
pub proof fn law_classic_record_reads_back(record: RawClassicRecordView, after: Seq<u8>)
    requires
        fits_layout(record),
    ensures
        classic_record(classic_layout(record) + after) == Ok::<
            RawClassicRecordView,
            ClassicParseErrorView,
        >(record),
{
    let data = classic_layout(record) + after;
    let units = utf16(record.source_name);
    let sid_at: int = 14 + 2 * (units.len() as int + 1);
    let count_at: int = sid_at + 2 + record.sid_bytes.len();
    lemma_le_bytes_len(i64_bits(record.time_created), 8);
    lemma_le_bytes_len(record.real_event_id as nat, 2);
    lemma_le_bytes_len(record.qualifier as nat, 2);
    lemma_le_bytes_len(units.len() + 1, 2);
    lemma_unit_bytes_len(units);
    lemma_le_bytes_len(record.sid_bytes.len(), 2);
    lemma_le_bytes_len(record.strings.len(), 2);
    assert(i64_at(data, 0) == record.time_created) by {
        law_u64_reads_back(i64_bits(record.time_created) as u64);
        assert(data.subrange(0, 8) =~= le_bytes(i64_bits(record.time_created), 8));
    }
    assert(u16_at(data, 8) == record.real_event_id) by {
        assert(data.subrange(8, 10) =~= le_bytes(record.real_event_id as nat, 2));
        lemma_u16_in_place(data, 8, record.real_event_id as nat);
    }
    assert(u16_at(data, 10) == record.qualifier) by {
        assert(data.subrange(10, 12) =~= le_bytes(record.qualifier as nat, 2));
        lemma_u16_in_place(data, 10, record.qualifier as nat);
    }
    assert(u16_at(data, 12) == units.len() + 1) by {
        assert(data.subrange(12, 14) =~= le_bytes(units.len() + 1, 2));
        lemma_u16_in_place(data, 12, units.len() + 1);
    }
    assert(utf16_lossy(until_zero(units_at(data, 14, units.len() + 1))) == record.source_name) by {
        lemma_utf16_has_no_zero(record.source_name);
        assert(data.subrange(14, 14 + 2 * units.len() as int) =~= unit_bytes(units));
        lemma_units_in_place(data, 14, units, units.len() + 1);
        law_utf16_reads_back(record.source_name);
    }
    assert(u16_at(data, sid_at) == record.sid_bytes.len()) by {
        assert(data.subrange(sid_at, sid_at + 2) =~= le_bytes(record.sid_bytes.len(), 2));
        lemma_u16_in_place(data, sid_at, record.sid_bytes.len());
    }
    assert(data.subrange(sid_at + 2, count_at) =~= record.sid_bytes);
    assert(u16_at(data, count_at) == record.strings.len()) by {
        assert(data.subrange(count_at, count_at + 2) =~= le_bytes(record.strings.len(), 2));
        lemma_u16_in_place(data, count_at, record.strings.len());
    }
    assert(strings_at(data, count_at + 2, 0, record.strings.len() as int) == Ok::<
        Seq<Seq<char>>,
        ClassicParseErrorView,
    >(record.strings)) by {
        let before = data.take(count_at + 2);
        law_encoded_strings_read_back(before, record.strings, after, 0);
        assert(before + encoded_strings(record.strings) + after =~= data);
    }
}

/// Cutting at the first zero leaves no zero.
proof fn lemma_until_zero_has_no_zero(units: Seq<u16>)
    ensures
        !until_zero(units).contains(0),
    decreases units.len(),
{
    if units.len() > 0 && units[0] != 0 {
        let rest = until_zero(units.skip(1));
        lemma_until_zero_has_no_zero(units.skip(1));
        assert forall|i: int| 0 <= i < until_zero(units).len() implies until_zero(units)[i] != 0 by {
            if i > 0 {
                assert(until_zero(units)[i] == rest[i - 1]);
            }
        }
    }
}

/// The strings of a record hold no NUL.
proof fn lemma_strings_at_are_free_of_nul(data: Seq<u8>, offset: int, i: int, count: int)
    ensures
        strings_at(data, offset, i, count) matches Ok(strings) ==> free_of_nul(strings),
    decreases count - i,
{
    if i < count && offset < data.len() {
        lemma_strings_at_are_free_of_nul(data, wstring_end(data, offset), i + 1, count);
        let units = wstring_units(data, offset);
        lemma_until_zero_has_no_zero(units_at(data, offset, ((data.len() - offset) / 2) as nat));
        lemma_utf16_lossy_has_no_nul(units);
        if let Ok(rest) = strings_at(data, wstring_end(data, offset), i + 1, count) {
            let all = seq![utf16_lossy(units)] + rest;
            assert forall|j: int| 0 <= j < all.len() implies !(#[trigger] all[j]).contains('\0') by {
                if j > 0 {
                    assert(all[j] == rest[j - 1]);
                }
            }
        }
    }
}

/// The strings of a record that was parsed read back from the buffer that they are re-encoded
/// into, so that a reader that scans for null terminators sees the strings of the record.
pub proof fn law_synthetic_buffer_holds_the_strings(data: Seq<u8>)
    requires
        classic_record(data) is Ok,
    ensures
        ({
            let strings = classic_record(data)->Ok_0.strings;
            strings_at(encoded_strings(strings), 0, 0, strings.len() as int) == Ok::<
                Seq<Seq<char>>,
                ClassicParseErrorView,
            >(strings)
        }),
{
    let strings = classic_record(data)->Ok_0.strings;
    let count_at = 16 + 2 * u16_at(data, 12) + u16_at(data, 14 + 2 * u16_at(data, 12));
    lemma_strings_at_are_free_of_nul(data, count_at + 2, 0, u16_at(data, count_at) as int);
    law_encoded_strings_read_back(Seq::empty(), strings, Seq::empty(), 0);
    assert(Seq::<u8>::empty() + encoded_strings(strings) + Seq::<u8>::empty() =~= encoded_strings(
        strings,
    ));
}

/// A record has as many strings as its count says.
pub proof fn law_record_has_its_count_of_strings(data: Seq<u8>)
    requires
        classic_record(data) is Ok,
    ensures
        ({
            let count_at = 16 + 2 * u16_at(data, 12) + u16_at(data, 14 + 2 * u16_at(data, 12));
            classic_record(data)->Ok_0.strings.len() == u16_at(data, count_at)
        }),
{
    let count_at = 16 + 2 * u16_at(data, 12) + u16_at(data, 14 + 2 * u16_at(data, 12));
    lemma_strings_at_count(data, count_at + 2, 0, u16_at(data, count_at) as int);
}

/// Parsing fails for two reasons only: the data is too short, or, if and only if the length of the
/// source name is there and zero, that field is invalid.
pub proof fn law_parsing_fails_for_two_reasons(data: Seq<u8>)
    ensures
        classic_record(data) matches Err(e) ==> e is DataTooShort || e is InvalidField,
        (classic_record(data) matches Err(e) && e is InvalidField) <==> data.len() >= 14 && u16_at(
            data,
            12,
        ) == 0,
{
    let count_at = 16 + 2 * u16_at(data, 12) + u16_at(data, 14 + 2 * u16_at(data, 12));
    lemma_strings_at_fail_short(data, count_at + 2, 0, u16_at(data, count_at) as int);
}

/// Strings fail to be read only where the data is too short.
proof fn lemma_strings_at_fail_short(data: Seq<u8>, offset: int, i: int, count: int)
    ensures
        strings_at(data, offset, i, count) matches Err(e) ==> e is DataTooShort,
    decreases count - i,
{
    if i < count && offset < data.len() {
        lemma_strings_at_fail_short(data, wstring_end(data, offset), i + 1, count);
    }
}

/// As many strings are read as were asked for.
proof fn lemma_strings_at_count(data: Seq<u8>, offset: int, i: int, count: int)
    requires
        i <= count,
    ensures
        strings_at(data, offset, i, count) matches Ok(strings) ==> strings.len() == count - i,
    decreases count - i,
{
    if i < count && offset < data.len() {
        lemma_strings_at_count(data, wstring_end(data, offset), i + 1, count);
    }
}

/// The fields of a parsed record are the bytes of the payload: the time is the two's complement
/// reading of the first eight, the event ID, the qualifier and the lengths are two bytes each, least
/// significant first, and the SID is the bytes that its length says.
pub proof fn law_parsed_fields_are_the_bytes(
    data: &[u8],
    result: Result<RawClassicRecord, ClassicParseError>,
)
    requires
        call_ensures(parse_classic_user_data, (data,), result),
        result is Ok,
    ensures
        ({
            let r = result->Ok_0;
            let d = data@;
            let sid_at = 16 + 2 * (d[12] + 256 * d[13]);
            let count_at = sid_at + d[sid_at - 2] + 256 * d[sid_at - 1];
            &&& r.time_created == d[0] + 0x100 * d[1] + 0x1_0000 * d[2] + 0x100_0000 * d[3]
                + 0x1_0000_0000 * d[4] + 0x100_0000_0000 * d[5] + 0x1_0000_0000_0000 * d[6]
                + 0x100_0000_0000_0000 * d[7] - (if d[7] >= 128 {
                0x1_0000_0000_0000_0000int
            } else {
                0
            })
            &&& r.real_event_id == d[8] + 256 * d[9]
            &&& r.qualifier == d[10] + 256 * d[11]
            &&& r.sid_bytes@ == d.subrange(sid_at, count_at)
            &&& r.strings@.len() == d[count_at] + 256 * d[count_at + 1]
            &&& strings_at(d, count_at + 2, 0, d[count_at] + 256 * d[count_at + 1]) matches Ok(found)
            &&& found.len() == r.strings@.len()
            &&& forall|j: int| 0 <= j < found.len() ==> found[j] == (#[trigger] r.strings@[j])@
        }),
{
    let d = data@;
    let r = result->Ok_0;
    lemma_layout_numbers(d);
    law_i64_is_the_reading_of_its_bytes(d, 0);
    law_record_has_its_count_of_strings(d);
    assert forall|j: int| 0 <= j < r.strings@.len() implies r@.strings[j] == (
    #[trigger] r.strings@[j])@ by {}
}

/// The numbers of a layout, as far as the data reaches.
proof fn lemma_layout_numbers(d: Seq<u8>)
    ensures
        d.len() >= 10 ==> u16_at(d, 8) == d[8] + 256 * d[9],
        d.len() >= 12 ==> u16_at(d, 10) == d[10] + 256 * d[11],
        d.len() >= 14 ==> {
            let sid_at = 16 + 2 * (d[12] + 256 * d[13]);
            &&& u16_at(d, 12) == d[12] + 256 * d[13]
            &&& d.len() >= sid_at ==> {
                let count_at = sid_at + d[sid_at - 2] + 256 * d[sid_at - 1];
                &&& u16_at(d, sid_at - 2) == d[sid_at - 2] + 256 * d[sid_at - 1]
                &&& d.len() >= count_at + 2 ==> u16_at(d, count_at) == d[count_at] + 256
                    * d[count_at + 1]
            }
        },
{
    if d.len() >= 10 {
        lemma_u16_at(d, 8);
    }
    if d.len() >= 12 {
        lemma_u16_at(d, 10);
    }
    if d.len() >= 14 {
        lemma_u16_at(d, 12);
        let sid_at = 16 + 2 * (d[12] + 256 * d[13]);
        if d.len() >= sid_at {
            lemma_u16_at(d, sid_at - 2);
            let count_at = sid_at + d[sid_at - 2] + 256 * d[sid_at - 1];
            if d.len() >= count_at + 2 {
                lemma_u16_at(d, count_at);
            }
        }
    }
}

/// The source name of a parsed record is the text of the units before the first zero among those
/// that its length says, or of all of them where none is zero.
pub proof fn law_parsed_source_name_ends_at_the_first_zero(
    data: &[u8],
    result: Result<RawClassicRecord, ClassicParseError>,
    units: Seq<u16>,
)
    requires
        call_ensures(parse_classic_user_data, (data,), result),
        result is Ok,
        units.len() <= data@[12] + 256 * data@[13],
        forall|i: int|
            0 <= i < units.len() ==> (#[trigger] units[i]) != 0 && units[i] == data@[14 + 2 * i]
                + 256 * data@[15 + 2 * i],
        units.len() < data@[12] + 256 * data@[13] ==> data@[14 + 2 * units.len() as int] == 0
            && data@[15 + 2 * units.len() as int] == 0,
    ensures
        result->Ok_0.source_name@ == utf16_lossy(units),
{
    lemma_layout_numbers(data@);
    lemma_cut_at_zero(data@, 14, u16_at(data@, 12) as nat, units);
}

/// Units that stand in bytes are cut at the first whose two bytes are zero.
proof fn lemma_cut_at_zero(d: Seq<u8>, offset: int, n: nat, units: Seq<u16>)
    requires
        0 <= offset,
        offset + 2 * n <= d.len(),
        units.len() <= n,
        forall|i: int|
            0 <= i < units.len() ==> (#[trigger] units[i]) != 0 && units[i] == d[offset + 2 * i]
                + 256 * d[offset + 1 + 2 * i],
        units.len() < n ==> d[offset + 2 * units.len()] == 0 && d[offset + 1 + 2 * units.len()] == 0,
    ensures
        until_zero(units_at(d, offset, n)) == units,
{
    let all = units_at(d, offset, n);
    let k = units.len() as int;
    assert forall|i: int| 0 <= i < k implies (#[trigger] all[i]) == units[i] by {
        lemma_u16_at(d, offset + 2 * i);
    }
    if k < n {
        lemma_u16_at(d, offset + 2 * k);
    }
    lemma_until_zero(all, k);
    assert(all.take(k) =~= units);
}

/// Parsing succeeds if and only if the header is there, the length of the source name is not zero,
/// the source name, the SID and the number of strings are there, and so are the strings.
pub proof fn law_parsing_succeeds_where_the_fields_are_there(
    data: &[u8],
    result: Result<RawClassicRecord, ClassicParseError>,
)
    requires
        call_ensures(parse_classic_user_data, (data,), result),
    ensures
        ({
            let d = data@;
            let sid_at = 16 + 2 * (d[12] + 256 * d[13]);
            let count_at = sid_at + d[sid_at - 2] + 256 * d[sid_at - 1];
            result is Ok <==> {
                &&& d.len() >= 14
                &&& d[12] + d[13] > 0
                &&& d.len() >= sid_at
                &&& d.len() >= count_at + 2
                &&& strings_at(d, count_at + 2, 0, d[count_at] + 256 * d[count_at + 1]) is Ok
            }
        }),
{
    lemma_layout_numbers(data@);
}

/// Each way in which parsing fails has its message, which says what was needed, where, and what was
/// there.
pub proof fn law_parsing_says_what_was_missing(
    data: &[u8],
    result: Result<RawClassicRecord, ClassicParseError>,
)
    requires
        call_ensures(parse_classic_user_data, (data,), result),
    ensures
        ({
            let d = data@;
            let short = match result {
                Err(ClassicParseError::DataTooShort(s)) => Some(s@),
                _ => None,
            };
            let name_len = d[12] + 256 * d[13];
            let sid_at = 16 + 2 * name_len;
            let sid_len = d[sid_at - 2] + 256 * d[sid_at - 1];
            let count_at = sid_at + sid_len;
            let count = d[count_at] + 256 * d[count_at + 1];
            if d.len() < 8 {
                short == Some(
                    "need i64 at offset "@ + decimal(0) + ", have "@ + decimal(d.len())
                        + " bytes remaining"@,
                )
            } else if d.len() < 14 {
                let at: nat = if d.len() < 10 {
                    8
                } else if d.len() < 12 {
                    10
                } else {
                    12
                };
                short == Some(
                    "need u16 at offset "@ + decimal(at) + ", have "@ + decimal(
                        (d.len() - at) as nat,
                    ) + " bytes remaining"@,
                )
            } else if name_len == 0 {
                result matches Err(ClassicParseError::InvalidField(s)) && s@
                    == "SourceName wchar count is zero"@
            } else if d.len() < sid_at - 2 {
                short == Some(
                    "need "@ + decimal((2 * name_len) as nat) + " bytes for wstring at offset "@
                        + decimal(14) + ", have "@ + decimal((d.len() - 14) as nat),
                )
            } else if d.len() < sid_at {
                short == Some(
                    "need u16 at offset "@ + decimal((sid_at - 2) as nat) + ", have "@ + decimal(
                        (d.len() - sid_at + 2) as nat,
                    ) + " bytes remaining"@,
                )
            } else if d.len() < count_at {
                short == Some(
                    "not enough data for SID at offset "@ + decimal(sid_at as nat) + ": need "@
                        + decimal(sid_len as nat) + ", have "@ + decimal((d.len() - sid_at) as nat),
                )
            } else if d.len() < count_at + 2 {
                short == Some(
                    "need u16 at offset "@ + decimal(count_at as nat) + ", have "@ + decimal(
                        (d.len() - count_at) as nat,
                    ) + " bytes remaining"@,
                )
            } else {
                match strings_at(d, count_at + 2, 0, count) {
                    Ok(_) => result is Ok,
                    Err(e) => e == ClassicParseErrorView::DataTooShort(short->0) && short is Some,
                }
            }
        }),
{
    let d = data@;
    lemma_layout_numbers(d);
    let count_at = 16 + 2 * u16_at(d, 12) + u16_at(d, 14 + 2 * u16_at(d, 12));
    lemma_strings_at_fail_short(d, count_at + 2, 0, u16_at(d, count_at) as int);
}

/// Strings follow one another. None is left to read where as many were read as there are. Where
/// more are owed than the data has, the message says which. Else the next string is made of the
/// units up to the first zero or the end of the data, and the one after it starts behind the zero.
pub proof fn law_strings_follow_one_another(
    data: Seq<u8>,
    offset: int,
    i: int,
    count: int,
    units: Seq<u16>,
)
    requires
        0 <= offset,
        0 <= i,
    ensures
        i >= count ==> strings_at(data, offset, i, count) == Ok::<
            Seq<Seq<char>>,
            ClassicParseErrorView,
        >(Seq::empty()),
        i < count && offset >= data.len() ==> strings_at(data, offset, i, count) == Err::<
            Seq<Seq<char>>,
            ClassicParseErrorView,
        >(
            ClassicParseErrorView::DataTooShort(
                "ran out of data reading string "@ + decimal((i + 1) as nat) + " of "@ + decimal(
                    count as nat,
                ) + " at offset "@ + decimal(offset as nat),
            ),
        ),
        ({
            let end = offset + 2 * units.len();
            let ends_by_zero = end + 1 < data.len() && data[end] == 0 && data[end + 1] == 0;
            let next = strings_at(
                data,
                if ends_by_zero {
                    end + 2
                } else {
                    end
                },
                i + 1,
                count,
            );
            i < count && offset < data.len() && (forall|j: int|
                0 <= j < units.len() ==> (#[trigger] units[j]) != 0 && units[j] == data[offset + 2
                    * j] + 256 * data[offset + 1 + 2 * j]) && end <= data.len() && (ends_by_zero
                || end + 1 >= data.len()) ==> {
                &&& next matches Ok(rest) ==> strings_at(data, offset, i, count) == Ok::<
                    Seq<Seq<char>>,
                    ClassicParseErrorView,
                >(seq![utf16_lossy(units)] + rest)
                &&& next is Err ==> strings_at(data, offset, i, count) == next
            }
        }),
{
    let end = offset + 2 * units.len();
    let ends_by_zero = end + 1 < data.len() && data[end] == 0 && data[end + 1] == 0;
    if i < count && offset < data.len() && (forall|j: int|
        0 <= j < units.len() ==> (#[trigger] units[j]) != 0 && units[j] == data[offset + 2 * j]
            + 256 * data[offset + 1 + 2 * j]) && end <= data.len() && (ends_by_zero || end + 1
        >= data.len()) {
        lemma_cut_at_zero(data, offset, ((data.len() - offset) / 2) as nat, units);
    }
}

/// Reading a 16-bit number takes the two bytes at the offset, least significant first, and moves
/// the offset behind them. Where they are not there, the offset stays.
pub proof fn law_reading_u16(
    data: &[u8],
    offset: &mut usize,
    result: Result<u16, ClassicParseError>,
)
    requires
        *offset <= data@.len(),
        call_ensures(read_u16_le, (data, offset), result),
    ensures
        ({
            let at = *old(offset) as int;
            if at + 2 <= data@.len() {
                &&& result matches Ok(value) && value == data@[at] + 256 * data@[at + 1]
                &&& *final(offset) == at + 2
            } else {
                &&& result matches Err(ClassicParseError::DataTooShort(s)) && s@
                    == "need u16 at offset "@ + decimal(at as nat) + ", have "@ + decimal(
                    (data@.len() - at) as nat,
                ) + " bytes remaining"@
                &&& *final(offset) == at
            }
        }),
{
    if *offset + 2 <= data@.len() {
        lemma_u16_at(data@, *offset as int);
    }
}

/// Reading a 64-bit number takes the eight bytes at the offset as a two's complement number, least
/// significant first, and moves the offset behind them. Where they are not there, the offset stays.
pub proof fn law_reading_i64(
    data: &[u8],
    offset: &mut usize,
    result: Result<i64, ClassicParseError>,
)
    requires
        *offset <= data@.len(),
        call_ensures(read_i64_le, (data, offset), result),
    ensures
        ({
            let at = *old(offset) as int;
            let d = data@;
            if at + 8 <= d.len() {
                &&& result matches Ok(value) && value == d[at] + 0x100 * d[at + 1] + 0x1_0000 * d[at
                    + 2] + 0x100_0000 * d[at + 3] + 0x1_0000_0000 * d[at + 4] + 0x100_0000_0000
                    * d[at + 5] + 0x1_0000_0000_0000 * d[at + 6] + 0x100_0000_0000_0000 * d[at + 7]
                    - (if d[at + 7] >= 128 {
                    0x1_0000_0000_0000_0000int
                } else {
                    0
                })
                &&& *final(offset) == at + 8
            } else {
                &&& result matches Err(ClassicParseError::DataTooShort(s)) && s@
                    == "need i64 at offset "@ + decimal(at as nat) + ", have "@ + decimal(
                    (d.len() - at) as nat,
                ) + " bytes remaining"@
                &&& *final(offset) == at
            }
        }),
{
    if *offset + 8 <= data@.len() {
        law_i64_is_the_reading_of_its_bytes(data@, *offset as int);
    }
}

/// Reading a null-terminated string takes the units up to the first zero, or up to the end of the
/// data where none is zero, and moves the offset behind them and behind the zero.
pub proof fn law_reading_to_the_terminator(
    data: &[u8],
    offset: &mut usize,
    text: String,
    units: Seq<u16>,
)
    requires
        *offset < usize::MAX,
        call_ensures(read_null_terminated_wstring, (data, offset), text),
        forall|j: int|
            0 <= j < units.len() ==> (#[trigger] units[j]) != 0 && units[j] == data@[*offset + 2 * j]
                + 256 * data@[*offset + 1 + 2 * j],
    ensures
        ({
            let end = *old(offset) + 2 * units.len();
            let d = data@;
            &&& end + 1 < d.len() && d[end] == 0 && d[end + 1] == 0 ==> text@ == utf16_lossy(units)
                && *final(offset) == end + 2
            &&& end <= d.len() <= end + 1 ==> text@ == utf16_lossy(units) && *final(offset) == end
            &&& *old(offset) >= d.len() ==> text@.len() == 0 && *final(offset) == *old(offset)
        }),
{
    let at = *offset as int;
    let end = at + 2 * units.len();
    let d = data@;
    if end <= d.len() && (end + 1 >= d.len() || d[end] == 0 && d[end + 1] == 0) {
        lemma_cut_at_zero(d, at, ((d.len() - at) / 2) as nat, units);
    }
}

/// Reading a string of known length takes the units up to the first zero among so many, or all of
/// them where none is zero, and moves the offset behind all of them. Where they are not all there,
/// the offset stays.
pub proof fn law_reading_by_length(
    data: &[u8],
    offset: &mut usize,
    wchar_count: usize,
    result: Result<String, ClassicParseError>,
    units: Seq<u16>,
)
    requires
        *offset <= data@.len(),
        *offset + 2 * wchar_count <= usize::MAX,
        call_ensures(read_wstring_by_len, (data, offset, wchar_count), result),
        units.len() <= wchar_count,
        forall|j: int|
            0 <= j < units.len() ==> (#[trigger] units[j]) != 0 && units[j] == data@[*offset + 2 * j]
                + 256 * data@[*offset + 1 + 2 * j],
        units.len() < wchar_count ==> data@[*offset + 2 * units.len()] == 0 && data@[*offset + 1 + 2
            * units.len()] == 0,
    ensures
        ({
            let at = *old(offset) as int;
            if at + 2 * wchar_count <= data@.len() {
                &&& result matches Ok(text) && text@ == utf16_lossy(units)
                &&& *final(offset) == at + 2 * wchar_count
            } else {
                &&& result matches Err(ClassicParseError::DataTooShort(s)) && s@ == "need "@
                    + decimal((2 * wchar_count) as nat) + " bytes for wstring at offset "@ + decimal(
                    at as nat,
                ) + ", have "@ + decimal((data@.len() - at) as nat)
                &&& *final(offset) == at
            }
        }),
{
    if *offset + 2 * wchar_count <= data@.len() {
        lemma_cut_at_zero(data@, *offset as int, wchar_count as nat, units);
    }
}

/// Encoding strings that follow one another gives the bytes of the ones, then the bytes of the
/// others. No strings give no bytes.
pub proof fn law_encoding_goes_string_by_string(
    strings: &[String],
    others: &[String],
    all: &[String],
    encoded: Vec<u8>,
    others_encoded: Vec<u8>,
    all_encoded: Vec<u8>,
)
    requires
        call_ensures(encode_strings_as_user_data, (strings,), encoded),
        call_ensures(encode_strings_as_user_data, (others,), others_encoded),
        call_ensures(encode_strings_as_user_data, (all,), all_encoded),
        all@ == strings@ + others@,
    ensures
        all_encoded@ == encoded@ + others_encoded@,
        strings@.len() == 0 ==> encoded@.len() == 0,
{
    assert(texts(all@) =~= texts(strings@) + texts(others@));
    lemma_encoded_strings_add(texts(strings@), texts(others@));
}

/// The bytes of strings that follow one another follow one another.
proof fn lemma_encoded_strings_add(a: Seq<Seq<char>>, b: Seq<Seq<char>>)
    ensures
        encoded_strings(a + b) == encoded_strings(a) + encoded_strings(b),
    decreases a.len(),
{
    if a.len() == 0 {
        assert(a + b =~= b);
        assert(encoded_strings(a) + encoded_strings(b) =~= encoded_strings(b));
    } else {
        lemma_encoded_strings_add(a.skip(1), b);
        assert((a + b).skip(1) =~= a.skip(1) + b);
        assert(encoded_strings(a + b) =~= encoded_strings(a) + encoded_strings(b));
    }
}

/// One string is encoded as its UTF-16 units, each as two bytes with the least significant first,
/// and then two zero bytes.
pub proof fn law_encoding_of_one_string(strings: &[String], encoded: Vec<u8>, i: int)
    requires
        call_ensures(encode_strings_as_user_data, (strings,), encoded),
        strings@.len() == 1,
        0 <= i < utf16(strings@[0]@).len(),
    ensures
        ({
            let units = utf16(strings@[0]@);
            &&& encoded@.len() == 2 * units.len() + 2
            &&& encoded@[2 * i] == units[i] % 256
            &&& encoded@[2 * i + 1] == units[i] / 256
            &&& encoded@[2 * units.len() as int] == 0
            &&& encoded@[2 * units.len() as int + 1] == 0
        }),
{
    law_units_stand_in_place(utf16(strings@[0]@), i);
    assert(texts(strings@)[0] == strings@[0]@);
    reveal_with_fuel(encoded_strings, 2);
}

/// An empty string is encoded as two zero bytes.
pub proof fn law_encoding_of_an_empty_string(strings: &[String], encoded: Vec<u8>)
    requires
        call_ensures(encode_strings_as_user_data, (strings,), encoded),
        strings@.len() == 1,
        strings@[0]@.len() == 0,
    ensures
        encoded@ == seq![0u8, 0u8],
{
    assert(texts(strings@)[0] == strings@[0]@);
    reveal_with_fuel(encoded_strings, 2);
    assert(encoded@ =~= seq![0u8, 0u8]);
}

/// A SID that was converted has exactly the converted text, however long it is. The hexadecimal
/// digits of its bytes are given only where the conversion failed, and the empty text for no bytes.
pub proof fn law_sid_text_is_the_converted_text(
    sid_bytes: &[u8],
    converted: Result<String, SddlNativeError>,
    text: String,
)
    requires
        call_ensures(sid_to_string, (sid_bytes, converted), text),
    ensures
        sid_bytes@.len() == 0 ==> text@.len() == 0,
        sid_bytes@.len() > 0 ==> (converted matches Ok(s) ==> text@ == s@),
        sid_bytes@.len() > 0 && converted is Err ==> text@ == hex(sid_bytes@) && text@.len() == 2
            * sid_bytes@.len(),
{
}

/// The text of a SID, as the conversion and the bytes decide it.
pub proof fn law_sid_text_cases(sid_bytes: Seq<u8>, converted: Seq<char>)
    ensures
        sid_text(Seq::empty(), Some(converted)).len() == 0,
        sid_text(Seq::empty(), None).len() == 0,
        sid_bytes.len() > 0 ==> sid_text(sid_bytes, Some(converted)) == converted,
        sid_bytes.len() > 0 ==> sid_text(sid_bytes, None) == hex(sid_bytes),
{
}

/// The raw SID is serialized as two lower-case hexadecimal digits for each byte.
pub proof fn law_raw_sid_is_serialized_in_hexadecimal(
    metadata: &ClassicMetadata,
    text: String,
    i: int,
)
    requires
        call_ensures(ClassicMetadata::raw_sid_hex, (metadata,), text),
        0 <= i < metadata.raw_sid@.len(),
    ensures
        ({
            let byte = metadata.raw_sid@[i];
            let high = text@[2 * i] as int;
            let low = text@[2 * i + 1] as int;
            &&& text@.len() == 2 * metadata.raw_sid@.len()
            &&& high == (if byte < 0xA0 {
                '0' as int + byte / 16
            } else {
                'a' as int + byte / 16 - 10
            })
            &&& low == (if byte % 16 < 10 {
                '0' as int + byte % 16
            } else {
                'a' as int + byte % 16 - 10
            })
        }),
{
    law_hex_digits_stand_in_place(metadata.raw_sid@, i);
}

/// A copy of metadata has the same value in every field.
pub proof fn law_copied_metadata_is_the_same(metadata: &ClassicMetadata, copy: ClassicMetadata)
    requires
        call_ensures(<ClassicMetadata as Clone>::clone, (metadata,), copy),
    ensures
        copy.time_created == metadata.time_created,
        copy.real_event_id == metadata.real_event_id,
        copy.qualifier == metadata.qualifier,
        copy.source_name@ == metadata.source_name@,
        copy.sid_string@ == metadata.sid_string@,
        copy.raw_sid@ == metadata.raw_sid@,
        copy.channel@ == metadata.channel@,
        copy.event_message@ == metadata.event_message@,
{
}

/// What is said of metadata and of records is said of their fields, each under its own name.
pub proof fn law_views_show_the_fields(metadata: ClassicMetadata, record: RawClassicRecord, i: int)
    requires
        0 <= i < record.strings@.len(),
    ensures
        metadata@.time_created == metadata.time_created,
        metadata@.real_event_id == metadata.real_event_id,
        metadata@.qualifier == metadata.qualifier,
        metadata@.source_name == metadata.source_name@,
        metadata@.sid_string == metadata.sid_string@,
        metadata@.raw_sid == metadata.raw_sid@,
        metadata@.channel == metadata.channel@,
        metadata@.event_message == metadata.event_message@,
        record@.time_created == record.time_created,
        record@.real_event_id == record.real_event_id,
        record@.qualifier == record.qualifier,
        record@.source_name == record.source_name@,
        record@.sid_bytes == record.sid_bytes@,
        record@.strings.len() == record.strings@.len(),
        record@.strings[i] == record.strings@[i]@,
{
}

/// The message of a parse error names its kind, and then gives its text.
pub proof fn law_parse_error_messages(error: &ClassicParseError, message: String)
    requires
        call_ensures(ClassicParseError::message, (error,), message),
    ensures
        match *error {
            ClassicParseError::DataTooShort(s) => message@ == "data too short: "@ + s@,
            ClassicParseError::InvalidField(s) => message@ == "invalid field: "@ + s@,
            ClassicParseError::TdhResolutionFailed(e) => message@ == "TDH resolution failed: "@
                + e.text@,
            ClassicParseError::SddlError(e) => message@ == "SDDL error: "@ + e.text@,
        },
{
}

/// An error of the operating system becomes the parse error of its kind, with the same text, and
/// what is said of parse errors is said of their kind and their text.
pub proof fn law_native_errors_are_wrapped(
    tdh: TdhNativeError,
    from_tdh: ClassicParseError,
    sddl: SddlNativeError,
    from_sddl: ClassicParseError,
    text: String,
)
    requires
        call_ensures(<ClassicParseError as From<TdhNativeError>>::from, (tdh,), from_tdh),
        call_ensures(<ClassicParseError as From<SddlNativeError>>::from, (sddl,), from_sddl),
    ensures
        from_tdh == ClassicParseError::TdhResolutionFailed(tdh),
        from_sddl == ClassicParseError::SddlError(sddl),
        from_tdh@ == ClassicParseErrorView::TdhResolutionFailed(tdh.text@),
        from_sddl@ == ClassicParseErrorView::SddlError(sddl.text@),
        ClassicParseError::DataTooShort(text)@ == ClassicParseErrorView::DataTooShort(text@),
        ClassicParseError::InvalidField(text)@ == ClassicParseErrorView::InvalidField(text@),
{
}

/// The keyword of classic providers is a single bit, the one that stands for 2^55.
pub proof fn law_the_classic_keyword_is_one_bit()
    ensures
        EVENTLOG_CLASSIC_KEYWORD == 1u64 << 55,
{
    assert(0x0080_0000_0000_0000u64 == 1u64 << 55) by (bit_vector);
}

} // verus!
