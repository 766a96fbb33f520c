//! Support for classic (EventlogClassic) ETW events.
//!
//! Providers using the `win:EventlogClassic` keyword emit events with `event_id == 0` whose
//! `UserData` contains a binary structure of its own (not a layout that TDH describes). This
//! module parses that structure and re-encodes its strings in the layout that TDH describes.

use crate::le::{
    i64_at, i64_from_bits, lemma_u16_at, push_unit_bytes, u16_at, u16_from_le, u64_from_le, unit_bytes,
};
use crate::native::{SddlNativeError, TdhNativeError};
use crate::text::{
    format_three_numbers, format_two_numbers, hex, hex_string, three_numbers, two_numbers,
};
use crate::utf16::{push_utf16, string_from_utf16_lossy, utf16, utf16_lossy};
use vstd::prelude::*;
use vstd::slice::{slice_subrange, slice_to_vec};
use vstd::string::StringExecFns;

verus! {

/// The `win:EventlogClassic` keyword value.
///
/// When this keyword bit is set in an event's `Keyword` field, the event uses the classic Event
/// Log binary format in its `UserData` buffer.
pub const EVENTLOG_CLASSIC_KEYWORD: u64 = 0x0080000000000000;

/// Metadata of a classic (EventlogClassic) ETW event, from its binary payload and TDH.
#[derive(Debug)]
pub struct ClassicMetadata {
    /// FILETIME from the first 8 bytes of the binary payload.
    pub time_created: i64,
    /// The real event ID extracted from the payload (e.g. 7045).
    pub real_event_id: u16,
    /// Event qualifier (e.g. 0x4000 = 16384).
    pub qualifier: u16,
    /// Event source name (e.g. "Service Control Manager").
    pub source_name: String,
    /// SID as an SDDL string (e.g. "S-1-5-21-...").
    pub sid_string: String,
    /// Raw SID bytes.
    pub raw_sid: Vec<u8>,
    /// Channel name from TDH (e.g. "System").
    pub channel: String,
    /// Event message template from TDH.
    pub event_message: String,
}

/// What `ClassicMetadata` holds.
#[verifier::ext_equal]
pub struct ClassicMetadataView {
    pub time_created: i64,
    pub real_event_id: u16,
    pub qualifier: u16,
    pub source_name: Seq<char>,
    pub sid_string: Seq<char>,
    pub raw_sid: Seq<u8>,
    pub channel: Seq<char>,
    pub event_message: Seq<char>,
}

impl View for ClassicMetadata {
    type V = ClassicMetadataView;

    open spec fn view(&self) -> ClassicMetadataView {
        ClassicMetadataView {
            time_created: self.time_created,
            real_event_id: self.real_event_id,
            qualifier: self.qualifier,
            source_name: self.source_name@,
            sid_string: self.sid_string@,
            raw_sid: self.raw_sid@,
            channel: self.channel@,
            event_message: self.event_message@,
        }
    }
}

impl Clone for ClassicMetadata {
    fn clone(&self) -> (copy: Self)
        ensures
            copy@ == self@,
    {
        let raw_sid: Vec<u8> = self.raw_sid.clone();
        proof {
            assert(raw_sid@ =~= self.raw_sid@);
        }
        ClassicMetadata {
            time_created: self.time_created,
            real_event_id: self.real_event_id,
            qualifier: self.qualifier,
            source_name: self.source_name.clone(),
            sid_string: self.sid_string.clone(),
            raw_sid,
            channel: self.channel.clone(),
            event_message: self.event_message.clone(),
        }
    }
}

impl ClassicMetadata {
    /// The raw SID as lower-case hexadecimal, which is how it is serialized.
    pub fn raw_sid_hex(&self) -> (text: String)
        ensures
            text@ == hex(self@.raw_sid),
    {
        hex_string(self.raw_sid.as_slice())
    }
}

/// Errors that can occur when parsing a classic event's binary payload.
#[derive(Debug)]
pub enum ClassicParseError {
    /// The UserData buffer is too short to contain the expected fields.
    DataTooShort(String),
    /// A field value is invalid or inconsistent.
    InvalidField(String),
    /// TDH resolution for the real event ID failed.
    TdhResolutionFailed(TdhNativeError),
    /// SID conversion to SDDL string failed.
    SddlError(SddlNativeError),
}

/// What a `ClassicParseError` says.
#[verifier::ext_equal]
pub enum ClassicParseErrorView {
    DataTooShort(Seq<char>),
    InvalidField(Seq<char>),
    TdhResolutionFailed(Seq<char>),
    SddlError(Seq<char>),
}

impl View for ClassicParseError {
    type V = ClassicParseErrorView;

    open spec fn view(&self) -> ClassicParseErrorView {
        match self {
            ClassicParseError::DataTooShort(s) => ClassicParseErrorView::DataTooShort(s@),
            ClassicParseError::InvalidField(s) => ClassicParseErrorView::InvalidField(s@),
            ClassicParseError::TdhResolutionFailed(e) => ClassicParseErrorView::TdhResolutionFailed(
                e.text@,
            ),
            ClassicParseError::SddlError(e) => ClassicParseErrorView::SddlError(e.text@),
        }
    }
}

impl ClassicParseErrorView {
    /// The message of the error.
    pub open spec fn message(self) -> Seq<char> {
        match self {
            ClassicParseErrorView::DataTooShort(s) => "data too short: "@ + s,
            ClassicParseErrorView::InvalidField(s) => "invalid field: "@ + s,
            ClassicParseErrorView::TdhResolutionFailed(s) => "TDH resolution failed: "@ + s,
            ClassicParseErrorView::SddlError(s) => "SDDL error: "@ + s,
        }
    }
}

impl ClassicParseError {
    /// The message of the error.
    pub fn message(&self) -> (text: String)
        ensures
            text@ == self@.message(),
    {
        match self {
            ClassicParseError::DataTooShort(s) => "data too short: ".to_owned().concat(s.as_str()),
            ClassicParseError::InvalidField(s) => "invalid field: ".to_owned().concat(s.as_str()),
            ClassicParseError::TdhResolutionFailed(e) => "TDH resolution failed: ".to_owned()
                .concat(e.text.as_str()),
            ClassicParseError::SddlError(e) => "SDDL error: ".to_owned().concat(e.text.as_str()),
        }
    }
}

impl vstd::std_specs::convert::FromSpecImpl<TdhNativeError> for ClassicParseError {
    open spec fn obeys_from_spec() -> bool {
        true
    }

    open spec fn from_spec(err: TdhNativeError) -> Self {
        ClassicParseError::TdhResolutionFailed(err)
    }
}

impl From<TdhNativeError> for ClassicParseError {
    fn from(err: TdhNativeError) -> (wrapped: Self) {
        ClassicParseError::TdhResolutionFailed(err)
    }
}

impl vstd::std_specs::convert::FromSpecImpl<SddlNativeError> for ClassicParseError {
    open spec fn obeys_from_spec() -> bool {
        true
    }

    open spec fn from_spec(err: SddlNativeError) -> Self {
        ClassicParseError::SddlError(err)
    }
}

impl From<SddlNativeError> for ClassicParseError {
    fn from(err: SddlNativeError) -> (wrapped: Self) {
        ClassicParseError::SddlError(err)
    }
}

/// Intermediate parse result from the binary payload (before TDH resolution).
#[derive(Debug)]
pub struct RawClassicRecord {
    pub time_created: i64,
    pub real_event_id: u16,
    pub qualifier: u16,
    pub source_name: String,
    pub sid_bytes: Vec<u8>,
    pub strings: Vec<String>,
}

/// What a `RawClassicRecord` holds.
#[verifier::ext_equal]
pub struct RawClassicRecordView {
    pub time_created: i64,
    pub real_event_id: u16,
    pub qualifier: u16,
    pub source_name: Seq<char>,
    pub sid_bytes: Seq<u8>,
    pub strings: Seq<Seq<char>>,
}

/// The texts of strings.
pub open spec fn texts(strings: Seq<String>) -> Seq<Seq<char>> {
    strings.map_values(|s: String| s@)
}

impl View for RawClassicRecord {
    type V = RawClassicRecordView;

    open spec fn view(&self) -> RawClassicRecordView {
        RawClassicRecordView {
            time_created: self.time_created,
            real_event_id: self.real_event_id,
            qualifier: self.qualifier,
            source_name: self.source_name@,
            sid_bytes: self.sid_bytes@,
            strings: texts(self.strings@),
        }
    }
}

/// The error of a 16-bit read at `offset` that needs more bytes than `data` has.
pub open spec fn short_u16(data: Seq<u8>, offset: int) -> ClassicParseErrorView {
    ClassicParseErrorView::DataTooShort(
        two_numbers(
            "need u16 at offset "@,
            offset as nat,
            ", have "@,
            (data.len() - offset) as nat,
            " bytes remaining"@,
        ),
    )
}

/// The error of a 64-bit read at `offset` that needs more bytes than `data` has.
pub open spec fn short_i64(data: Seq<u8>, offset: int) -> ClassicParseErrorView {
    ClassicParseErrorView::DataTooShort(
        two_numbers(
            "need i64 at offset "@,
            offset as nat,
            ", have "@,
            (data.len() - offset) as nat,
            " bytes remaining"@,
        ),
    )
}

/// Read a little-endian `u16` from `data` at `*offset`.
/// Advances `*offset` by 2 bytes.
pub fn read_u16_le(data: &[u8], offset: &mut usize) -> (result: Result<u16, ClassicParseError>)
    requires
        *old(offset) <= data@.len(),
    ensures
        match result {
            Ok(value) => {
                &&& *old(offset) + 2 <= data@.len()
                &&& value == u16_at(data@, *old(offset) as int)
                &&& *final(offset) == *old(offset) + 2
            },
            Err(e) => {
                &&& *old(offset) + 2 > data@.len()
                &&& e@ == short_u16(data@, *old(offset) as int)
                &&& *final(offset) == *old(offset)
            },
        },
{
    let remaining: usize = data.len() - *offset;
    if remaining < 2 {
        return Err(
            ClassicParseError::DataTooShort(
                format_two_numbers(
                    "need u16 at offset ",
                    *offset,
                    ", have ",
                    remaining,
                    " bytes remaining",
                ),
            ),
        );
    }
    proof {
        lemma_u16_at(data@, *offset as int);
    }
    let value: u16 = u16_from_le(data[*offset], data[*offset + 1]);
    *offset += 2;
    Ok(value)
}

/// Read a little-endian `i64` from `data` at `*offset`.
/// Advances `*offset` by 8 bytes.
pub fn read_i64_le(data: &[u8], offset: &mut usize) -> (result: Result<i64, ClassicParseError>)
    requires
        *old(offset) <= data@.len(),
    ensures
        match result {
            Ok(value) => {
                &&& *old(offset) + 8 <= data@.len()
                &&& value == i64_at(data@, *old(offset) as int)
                &&& *final(offset) == *old(offset) + 8
            },
            Err(e) => {
                &&& *old(offset) + 8 > data@.len()
                &&& e@ == short_i64(data@, *old(offset) as int)
                &&& *final(offset) == *old(offset)
            },
        },
{
    let remaining: usize = data.len() - *offset;
    if remaining < 8 {
        return Err(
            ClassicParseError::DataTooShort(
                format_two_numbers(
                    "need i64 at offset ",
                    *offset,
                    ", have ",
                    remaining,
                    " bytes remaining",
                ),
            ),
        );
    }
    let value: i64 = i64_from_bits(u64_from_le(data, *offset));
    *offset += 8;
    Ok(value)
}

/// The `count` 16-bit units of `data` from `offset` on.
pub open spec fn units_at(data: Seq<u8>, offset: int, count: nat) -> Seq<u16> {
    Seq::new(count, |i: int| u16_at(data, offset + 2 * i))
}

/// The units before the first zero, all of them where there is none.
pub open spec fn until_zero(units: Seq<u16>) -> Seq<u16>
    decreases units.len(),
{
    if units.len() == 0 || units[0] == 0 {
        Seq::empty()
    } else {
        seq![units[0]] + until_zero(units.skip(1))
    }
}

/// The units of the null-terminated string at `offset`, which the end of `data` terminates too.
pub open spec fn wstring_units(data: Seq<u8>, offset: int) -> Seq<u16> {
    if offset <= data.len() {
        until_zero(units_at(data, offset, ((data.len() - offset) / 2) as nat))
    } else {
        Seq::empty()
    }
}

/// Where the null-terminated string at `offset` ends, its terminator included where there is one.
pub open spec fn wstring_end(data: Seq<u8>, offset: int) -> int {
    let end = offset + 2 * wstring_units(data, offset).len();
    if end + 1 < data.len() {
        end + 2
    } else {
        end
    }
}

/// Where the first zero stands, there `until_zero` cuts.
pub proof fn lemma_until_zero(units: Seq<u16>, k: int)
    requires
        0 <= k <= units.len(),
        forall|j: int| 0 <= j < k ==> units[j] != 0,
        k < units.len() ==> units[k] == 0,
    ensures
        until_zero(units) == units.take(k),
    decreases units.len(),
{
    if k > 0 {
        assert forall|j: int| 0 <= j < k - 1 implies units.skip(1)[j] != 0 by {
            assert(units.skip(1)[j] == units[j + 1]);
        }
        lemma_until_zero(units.skip(1), k - 1);
        assert(until_zero(units) =~= units.take(k));
    } else {
        assert(until_zero(units) =~= units.take(k));
    }
}

/// Read a null-terminated UTF-16LE (wide) string from `data` starting at `*offset`.
/// Advances `*offset` past the consumed bytes (including the null terminator).
pub fn read_null_terminated_wstring(data: &[u8], offset: &mut usize) -> (text: String)
    requires
        *old(offset) < usize::MAX,
    ensures
        text@ == utf16_lossy(wstring_units(data@, *old(offset) as int)),
        *final(offset) == wstring_end(data@, *old(offset) as int),
{
    let mut wchars: Vec<u16> = Vec::new();
    let ghost start = *offset as int;
    let ghost all = units_at(
        data@,
        start,
        if start <= data@.len() {
            ((data@.len() - start) / 2) as nat
        } else {
            0
        },
    );
    while *offset < data.len() && data.len() - *offset > 1
        invariant
            start == *old(offset),
            all == units_at(
                data@,
                start,
                if start <= data@.len() {
                    ((data@.len() - start) / 2) as nat
                } else {
                    0
                },
            ),
            *offset == start + 2 * wchars@.len(),
            wchars@.len() <= all.len(),
            wchars@ =~= all.take(wchars@.len() as int),
            forall|j: int| 0 <= j < wchars@.len() ==> all[j] != 0,
        decreases data@.len() - *offset,
    {
        let ghost k = wchars@.len() as int;
        proof {
            lemma_u16_at(data@, *offset as int);
            assert(all[k] == u16_at(data@, *offset as int));
        }
        let wchar: u16 = u16_from_le(data[*offset], data[*offset + 1]);
        *offset += 2;
        if wchar == 0 {
            proof {
                lemma_until_zero(all, k);
            }
            return string_from_utf16_lossy(wchars.as_slice());
        }
        wchars.push(wchar);
    }
    proof {
        if start <= data@.len() {
            lemma_until_zero(all, wchars@.len() as int);
        } else {
            assert(wchars@ =~= Seq::<u16>::empty());
        }
    }
    string_from_utf16_lossy(wchars.as_slice())
}

/// The error of a string of `bytes` bytes at `offset` that needs more than `data` has.
pub open spec fn short_wstring(data: Seq<u8>, offset: int, bytes: int) -> ClassicParseErrorView {
    ClassicParseErrorView::DataTooShort(
        three_numbers(
            "need "@,
            bytes as nat,
            " bytes for wstring at offset "@,
            offset as nat,
            ", have "@,
            (data.len() - offset) as nat,
        ),
    )
}

/// Read a UTF-16LE wide-char string of known length (in WCHARs, **including** the null
/// terminator) from `data` at `*offset`. Advances `*offset` past all `wchar_count * 2` bytes.
pub fn read_wstring_by_len(data: &[u8], offset: &mut usize, wchar_count: usize) -> (result: Result<
    String,
    ClassicParseError,
>)
    requires
        *old(offset) <= data@.len(),
        *old(offset) + 2 * wchar_count <= usize::MAX,
    ensures
        match result {
            Ok(text) => {
                &&& *old(offset) + 2 * wchar_count <= data@.len()
                &&& text@ == utf16_lossy(
                    until_zero(units_at(data@, *old(offset) as int, wchar_count as nat)),
                )
                &&& *final(offset) == *old(offset) + 2 * wchar_count
            },
            Err(e) => {
                &&& *old(offset) + 2 * wchar_count > data@.len()
                &&& e@ == short_wstring(data@, *old(offset) as int, 2 * wchar_count)
                &&& *final(offset) == *old(offset)
            },
        },
{
    let byte_count: usize = wchar_count * 2;
    let remaining: usize = data.len() - *offset;
    if remaining < byte_count {
        return Err(
            ClassicParseError::DataTooShort(
                format_three_numbers(
                    "need ",
                    byte_count,
                    " bytes for wstring at offset ",
                    *offset,
                    ", have ",
                    remaining,
                ),
            ),
        );
    }
    let start: usize = *offset;
    *offset += byte_count;
    let mut wchars: Vec<u16> = Vec::new();
    let ghost all = units_at(data@, start as int, wchar_count as nat);
    let mut limit: usize = wchar_count;
    while wchars.len() < limit
        invariant
            start + 2 * wchar_count <= data@.len(),
            start + 2 * wchar_count <= usize::MAX,
            all == units_at(data@, start as int, wchar_count as nat),
            wchars@.len() <= limit <= wchar_count,
            wchars@ =~= all.take(wchars@.len() as int),
            forall|j: int| 0 <= j < wchars@.len() ==> all[j] != 0,
            limit < wchar_count ==> all[limit as int] == 0,
        decreases limit - wchars@.len(),
    {
        let at: usize = start + 2 * wchars.len();
        proof {
            lemma_u16_at(data@, at as int);
            assert(all[wchars@.len() as int] == u16_at(data@, at as int));
        }
        let wchar: u16 = u16_from_le(data[at], data[at + 1]);
        if wchar == 0 {
            limit = wchars.len();
        } else {
            wchars.push(wchar);
        }
    }
    proof {
        lemma_until_zero(all, wchars@.len() as int);
    }
    Ok(string_from_utf16_lossy(wchars.as_slice()))
}

/// The error of a SID of `bytes` bytes at `offset` that needs more than `data` has.
pub open spec fn short_sid(data: Seq<u8>, offset: int, bytes: int) -> ClassicParseErrorView {
    ClassicParseErrorView::DataTooShort(
        three_numbers(
            "not enough data for SID at offset "@,
            offset as nat,
            ": need "@,
            bytes as nat,
            ", have "@,
            (data.len() - offset) as nat,
        ),
    )
}

/// The error of string `i` of `count`, counted from zero, that starts where `data` has ended.
pub open spec fn short_strings(offset: int, i: int, count: int) -> ClassicParseErrorView {
    ClassicParseErrorView::DataTooShort(
        three_numbers(
            "ran out of data reading string "@,
            (i + 1) as nat,
            " of "@,
            count as nat,
            " at offset "@,
            offset as nat,
        ),
    )
}

/// The strings `i` to `count` of a record, which stand one after the other from `offset` on.
pub open spec fn strings_at(data: Seq<u8>, offset: int, i: int, count: int) -> Result<
    Seq<Seq<char>>,
    ClassicParseErrorView,
>
    decreases count - i,
{
    if i >= count {
        Ok(Seq::empty())
    } else if offset >= data.len() {
        Err(short_strings(offset, i, count))
    } else {
        match strings_at(data, wstring_end(data, offset), i + 1, count) {
            Ok(rest) => Ok(seq![utf16_lossy(wstring_units(data, offset))] + rest),
            Err(e) => Err(e),
        }
    }
}

/// The record in `data`:
/// ```text
/// Offset   Size         Field
/// ------   ----------   ----------------------------------------
/// 0        8 bytes      FILETIME         TimeCreated
/// 8        2 bytes      u16              Real EventID  (e.g. 7045)
/// 10       2 bytes      u16              Qualifier     (e.g. 0x4000)
/// 12       2 bytes      u16              SourceName length (WCHARs incl. null)
/// 14       variable     wchar[]          SourceName    ("Service Control Manager\0")
/// ?        2 bytes      u16              SID length    (bytes)
/// ?        variable     bytes            SID
/// ?        2 bytes      u16              NumStrings
/// ?        variable     wchar[]...       N null-terminated wstrings (EventData)
/// ```
pub open spec fn classic_record(data: Seq<u8>) -> Result<
    RawClassicRecordView,
    ClassicParseErrorView,
> {
    let name_count = u16_at(data, 12);
    let sid_at = 14 + 2 * name_count;
    let sid_len = u16_at(data, sid_at);
    let count_at = sid_at + 2 + sid_len;
    let count = u16_at(data, count_at);
    if data.len() < 8 {
        Err(short_i64(data, 0))
    } else if data.len() < 10 {
        Err(short_u16(data, 8))
    } else if data.len() < 12 {
        Err(short_u16(data, 10))
    } else if data.len() < 14 {
        Err(short_u16(data, 12))
    } else if name_count == 0 {
        Err(ClassicParseErrorView::InvalidField("SourceName wchar count is zero"@))
    } else if data.len() < sid_at {
        Err(short_wstring(data, 14, 2 * name_count))
    } else if data.len() < sid_at + 2 {
        Err(short_u16(data, sid_at))
    } else if data.len() < count_at {
        Err(short_sid(data, sid_at + 2, sid_len as int))
    } else if data.len() < count_at + 2 {
        Err(short_u16(data, count_at))
    } else {
        match strings_at(data, count_at + 2, 0, count as int) {
            Ok(strings) => Ok(
                RawClassicRecordView {
                    time_created: i64_at(data, 0),
                    real_event_id: u16_at(data, 8),
                    qualifier: u16_at(data, 10),
                    source_name: utf16_lossy(until_zero(units_at(data, 14, name_count as nat))),
                    sid_bytes: data.subrange(sid_at + 2, count_at),
                    strings,
                },
            ),
            Err(e) => Err(e),
        }
    }
}

/// Reads `count` null-terminated strings from `data`, one after the other from `start` on.
fn read_strings(data: &[u8], start: usize, count: usize) -> (result: Result<
    Vec<String>,
    ClassicParseError,
>)
    requires
        start <= data@.len(),
        count <= 0xFFFF,
    ensures
        match result {
            Ok(strings) => strings_at(data@, start as int, 0, count as int) == Ok::<
                Seq<Seq<char>>,
                ClassicParseErrorView,
            >(texts(strings@)),
            Err(e) => strings_at(data@, start as int, 0, count as int) == Err::<
                Seq<Seq<char>>,
                ClassicParseErrorView,
            >(e@),
        },
{
    let mut strings: Vec<String> = Vec::with_capacity(count);
    let mut offset: usize = start;
    let mut i: usize = 0;
    proof {
        if let Ok(rest) = strings_at(data@, start as int, 0, count as int) {
            assert(texts(strings@) + rest =~= rest);
        }
    }
    while i < count
        invariant
            i <= count,
            offset <= data@.len(),
            strings_at(data@, start as int, 0, count as int) == (match strings_at(
                data@,
                offset as int,
                i as int,
                count as int,
            ) {
                Ok(rest) => Ok::<Seq<Seq<char>>, ClassicParseErrorView>(texts(strings@) + rest),
                Err(e) => Err(e),
            }),
        decreases count - i,
    {
        if offset >= data.len() {
            return Err(
                ClassicParseError::DataTooShort(
                    format_three_numbers(
                        "ran out of data reading string ",
                        i + 1,
                        " of ",
                        count,
                        " at offset ",
                        offset,
                    ),
                ),
            );
        }
        let ghost before = strings@;
        let ghost at = offset as int;
        let text: String = read_null_terminated_wstring(data, &mut offset);
        strings.push(text);
        proof {
            lemma_wstring_end(data@, at);
            if let Ok(rest) = strings_at(data@, offset as int, i + 1, count as int) {
                assert(texts(before) + (seq![text@] + rest) =~= texts(strings@) + rest);
            }
        }
        i += 1;
    }
    proof {
        assert(texts(strings@) + Seq::<Seq<char>>::empty() =~= texts(strings@));
    }
    Ok(strings)
}

/// A string never ends past the end of the data that it starts in.
pub proof fn lemma_wstring_end(data: Seq<u8>, offset: int)
    requires
        0 <= offset <= data.len(),
    ensures
        offset <= wstring_end(data, offset) <= data.len(),
{
    lemma_until_zero_len(units_at(data, offset, ((data.len() - offset) / 2) as nat));
}

/// Cutting never lengthens.
pub proof fn lemma_until_zero_len(units: Seq<u16>)
    ensures
        until_zero(units).len() <= units.len(),
    decreases units.len(),
{
    if units.len() > 0 && units[0] != 0 {
        lemma_until_zero_len(units.skip(1));
    }
}

/// Parse the classic Event Log record from raw `UserData` bytes.
///
/// `classic_record` gives the binary layout.
pub fn parse_classic_user_data(data: &[u8]) -> (result: Result<RawClassicRecord, ClassicParseError>)
    ensures
        match result {
            Ok(record) => classic_record(data@) == Ok::<RawClassicRecordView, ClassicParseErrorView>(
                record@,
            ),
            Err(e) => classic_record(data@) == Err::<RawClassicRecordView, ClassicParseErrorView>(
                e@,
            ),
        },
{
    let mut offset: usize = 0;
    // --- FILETIME (8 bytes) ---
    let time_created: i64 = match read_i64_le(data, &mut offset) {
        Ok(value) => value,
        Err(e) => return Err(e),
    };
    // --- Real EventID (u16) ---
    let real_event_id: u16 = match read_u16_le(data, &mut offset) {
        Ok(value) => value,
        Err(e) => return Err(e),
    };
    // --- Qualifier (u16) ---
    let qualifier: u16 = match read_u16_le(data, &mut offset) {
        Ok(value) => value,
        Err(e) => return Err(e),
    };
    // --- SourceName length in WCHARs (including null terminator) ---
    let source_name_wchar_count: usize = match read_u16_le(data, &mut offset) {
        Ok(value) => value as usize,
        Err(e) => return Err(e),
    };
    if source_name_wchar_count == 0 {
        return Err(ClassicParseError::InvalidField("SourceName wchar count is zero".to_owned()));
    }
    // --- SourceName wstring ---
    let source_name: String = match read_wstring_by_len(data, &mut offset, source_name_wchar_count) {
        Ok(text) => text,
        Err(e) => return Err(e),
    };
    // --- SID length in bytes ---
    let sid_byte_len: usize = match read_u16_le(data, &mut offset) {
        Ok(value) => value as usize,
        Err(e) => return Err(e),
    };
    // --- SID bytes ---
    let remaining: usize = data.len() - offset;
    if remaining < sid_byte_len {
        return Err(
            ClassicParseError::DataTooShort(
                format_three_numbers(
                    "not enough data for SID at offset ",
                    offset,
                    ": need ",
                    sid_byte_len,
                    ", have ",
                    remaining,
                ),
            ),
        );
    }
    let sid_bytes: Vec<u8> = slice_to_vec(slice_subrange(data, offset, offset + sid_byte_len));
    offset += sid_byte_len;
    // --- NumStrings (u16) ---
    let num_strings: usize = match read_u16_le(data, &mut offset) {
        Ok(value) => value as usize,
        Err(e) => return Err(e),
    };
    // --- N null-terminated wstrings ---
    let strings: Vec<String> = match read_strings(data, offset, num_strings) {
        Ok(strings) => strings,
        Err(e) => return Err(e),
    };
    Ok(
        RawClassicRecord {
            time_created,
            real_event_id,
            qualifier,
            source_name,
            sid_bytes,
            strings,
        },
    )
}

/// Strings as null-terminated UTF-16LE bytes, one after the other.
pub open spec fn encoded_strings(strings: Seq<Seq<char>>) -> Seq<u8>
    decreases strings.len(),
{
    if strings.len() == 0 {
        Seq::empty()
    } else {
        unit_bytes(utf16(strings[0])) + seq![0u8, 0u8] + encoded_strings(strings.skip(1))
    }
}

/// Re-encode a list of strings as null-terminated UTF-16LE bytes, matching the
/// TDH property layout for `InTypeUnicodeString` properties.
///
/// A reader that scans for null terminators finds the strings in the resulting buffer.
pub fn encode_strings_as_user_data(strings: &[String]) -> (buf: Vec<u8>)
    ensures
        buf@ == encoded_strings(texts(strings@)),
{
    let mut buf: Vec<u8> = Vec::new();
    let ghost all = texts(strings@);
    let mut i: usize = 0;
    proof {
        assert(all.take(0) =~= Seq::<Seq<char>>::empty());
    }
    while i < strings.len()
        invariant
            i <= strings@.len(),
            all == texts(strings@),
            buf@ =~= encoded_strings(all.take(i as int)),
        decreases strings@.len() - i,
    {
        let mut wchars: Vec<u16> = Vec::new();
        push_utf16(&mut wchars, strings[i].as_str());
        proof {
            assert(wchars@ =~= utf16(all[i as int]));
        }
        push_unit_bytes(&mut buf, wchars.as_slice());
        // null terminator (two zero bytes for UTF-16LE)
        buf.push(0);
        buf.push(0);
        proof {
            assert(all.take(i + 1) =~= all.take(i as int).push(all[i as int]));
            lemma_encoded_strings_push(all.take(i as int), all[i as int]);
        }
        i += 1;
    }
    proof {
        assert(all.take(i as int) =~= all);
    }
    buf
}

/// Appending a string appends its bytes and its terminator.
pub proof fn lemma_encoded_strings_push(strings: Seq<Seq<char>>, text: Seq<char>)
    ensures
        encoded_strings(strings.push(text)) == encoded_strings(strings) + unit_bytes(utf16(text))
            + seq![0u8, 0u8],
    decreases strings.len(),
{
    let more = strings.push(text);
    if strings.len() == 0 {
        assert(more.skip(1) =~= Seq::<Seq<char>>::empty());
        assert(encoded_strings(more.skip(1)) =~= Seq::<u8>::empty());
    } else {
        lemma_encoded_strings_push(strings.skip(1), text);
        assert(more.skip(1) =~= strings.skip(1).push(text));
    }
    assert(encoded_strings(more) =~= encoded_strings(strings) + unit_bytes(utf16(text)) + seq![
        0u8,
        0u8,
    ]);
}

/// Convert raw SID bytes to an SDDL string, or return a hex-encoded fallback.
///
/// `converted` is what the operating system made of the bytes. No SID bytes give an empty text,
/// whatever it is.
pub fn sid_to_string(sid_bytes: &[u8], converted: Result<String, SddlNativeError>) -> (text: String)
    ensures
        text@ == sid_text(
            sid_bytes@,
            match converted {
                Ok(s) => Some(s@),
                Err(_) => None,
            },
        ),
{
    if sid_bytes.is_empty() {
        return String::new();
    }
    match converted {
        Ok(s) => s,
        Err(_) => hex_string(sid_bytes),
    }
}

/// The text of a SID: empty for no bytes, else the conversion where there is one, else the bytes
/// in hexadecimal.
pub open spec fn sid_text(sid_bytes: Seq<u8>, converted: Option<Seq<char>>) -> Seq<char> {
    if sid_bytes.len() == 0 {
        Seq::empty()
    } else {
        match converted {
            Some(text) => text,
            None => hex(sid_bytes),
        }
    }
}

} // verus!
