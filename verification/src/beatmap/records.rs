//! Records: how the comma separated fields of one line become a typed
//! record, and which error a line gives that does not hold one.
//!
//! The fields of a record are read from left to right. The first field that
//! is missing or does not write a value of its type decides the error; a
//! record is only made of a line on which every field can be read.

use crate::beatmap::error::{
    Error, ErrorModel, Field, FieldModel, outcome, RecordKind, SectionKind,
};
use crate::beatmap::events::{Background, BackgroundModel, Break, BreakModel, Video, VideoModel};
use crate::beatmap::number::{
    Decimal, is_decimal, isize_value, parse_isize, parse_u8, parse_usize, u8_value, usize_value,
};
use crate::beatmap::sections::{
    Colour, HitObject, HitObjectKind, HitObjectModel, TimingPoint, TimingPointModel,
};
use crate::beatmap::text::{
    is_name, latin1, QUOTE, strip_prefix, strip_prefix_all, text_of, trim_matches, trimmed_of,
    views,
};
use vstd::prelude::*;
use vstd::string::StringSliceAdditionalSpecFns;

verus! {

/// What a field of a record has to write.
pub enum ValueKind {
    /// Anything: the field is taken as it stands.
    Text,
    /// A `usize`.
    Unsigned,
    /// An `isize`.
    Signed,
    /// A `u8`.
    Byte,
    /// A decimal fraction.
    Fraction,
    /// A `u8` behind the word `Combo`.
    ComboIndex,
}

/// The section that holds records of the kind `record`.
pub open spec fn section_of(record: RecordKind) -> SectionKind {
    match record {
        RecordKind::Background => SectionKind::Events,
        RecordKind::Video => SectionKind::Events,
        RecordKind::Break => SectionKind::Events,
        RecordKind::TimingPoint => SectionKind::TimingPoints,
        RecordKind::Colour => SectionKind::Colours,
        RecordKind::HitObject => SectionKind::HitObjects,
    }
}

/// How many fields a record of the kind `record` needs. Fields beyond these
/// are optional or ignored.
pub open spec fn arity(record: RecordKind) -> int {
    match record {
        RecordKind::Background => 5,
        RecordKind::Video => 5,
        RecordKind::Break => 3,
        RecordKind::TimingPoint => 8,
        RecordKind::Colour => 3,
        RecordKind::HitObject => 5,
    }
}

/// What the field at `index` of a record of the kind `record` has to write.
pub open spec fn value_kind(record: RecordKind, index: int) -> ValueKind {
    match record {
        RecordKind::Background | RecordKind::Video => if index == 1 {
            ValueKind::Unsigned
        } else if index == 3 || index == 4 {
            ValueKind::Signed
        } else {
            ValueKind::Text
        },
        RecordKind::Break => if index == 1 {
            ValueKind::Unsigned
        } else {
            ValueKind::Text
        },
        RecordKind::TimingPoint => if index == 1 {
            ValueKind::Fraction
        } else if 0 <= index < 8 {
            ValueKind::Unsigned
        } else {
            ValueKind::Text
        },
        RecordKind::Colour => if index == 0 {
            ValueKind::ComboIndex
        } else if index == 1 || index == 2 {
            ValueKind::Byte
        } else {
            ValueKind::Text
        },
        RecordKind::HitObject => if 0 <= index < 3 || index == 4 {
            ValueKind::Unsigned
        } else {
            ValueKind::Text
        },
    }
}

/// The number behind `Combo` in the first field of a colour.
pub open spec fn combo_value(field: Seq<u8>) -> Option<u8> {
    u8_value(strip_prefix_all(field, "Combo".spec_bytes()))
}

/// Whether `field` writes a value of the kind `kind`.
pub open spec fn writes(kind: ValueKind, field: Seq<u8>) -> bool {
    match kind {
        ValueKind::Text => true,
        ValueKind::Unsigned => usize_value(field) is Some,
        ValueKind::Signed => isize_value(field) is Some,
        ValueKind::Byte => u8_value(field) is Some,
        ValueKind::Fraction => is_decimal(field),
        ValueKind::ComboIndex => combo_value(field) is Some,
    }
}

/// What is wrong with the field at `index`, if anything: it is missing, or
/// it does not write a value of its kind.
pub open spec fn field_error(record: RecordKind, fields: Seq<Seq<u8>>, index: int) -> Option<
    ErrorModel,
> {
    if index >= fields.len() {
        Some(ErrorModel::MissingField(section_of(record), record))
    } else if !writes(value_kind(record, index), fields[index]) {
        Some(
            ErrorModel::InvalidFieldValue(
                section_of(record),
                FieldModel::Index(index as usize),
                latin1(fields[index]),
            ),
        )
    } else {
        None
    }
}

/// The error of the first field from `from` up to `to` that has one.
pub open spec fn first_error(
    record: RecordKind,
    fields: Seq<Seq<u8>>,
    from: int,
    to: int,
) -> Option<ErrorModel>
    decreases to - from,
{
    if from >= to {
        None
    } else if field_error(record, fields, from) is Some {
        field_error(record, fields, from)
    } else {
        first_error(record, fields, from + 1, to)
    }
}

/// The kind of event that the first field of a line of `[Events]` names.
pub open spec fn event_kind(tag: Seq<u8>) -> Option<RecordKind> {
    if tag == "0".spec_bytes() {
        Some(RecordKind::Background)
    } else if tag == "1".spec_bytes() || tag == "Video".spec_bytes() {
        Some(RecordKind::Video)
    } else if tag == "2".spec_bytes() || tag == "Break".spec_bytes() {
        Some(RecordKind::Break)
    } else {
        None
    }
}

/// The kind of hit object that the fourth field of a line of `[HitObjects]`
/// names.
pub open spec fn hit_object_kind(tag: Seq<u8>) -> Option<HitObjectKind> {
    if tag == "0".spec_bytes() {
        Some(HitObjectKind::HitCircle)
    } else if tag == "1".spec_bytes() {
        Some(HitObjectKind::Slider)
    } else if tag == "2".spec_bytes() {
        Some(HitObjectKind::Spinner)
    } else if tag == "3".spec_bytes() {
        Some(HitObjectKind::ManiaHold)
    } else {
        None
    }
}

/// The background that the fields of a line write. The file name loses the
/// quotes around it.
pub open spec fn background_of(fields: Seq<Seq<u8>>) -> Result<BackgroundModel, ErrorModel> {
    match first_error(RecordKind::Background, fields, 1, 5) {
        Some(error) => Err(error),
        None => Ok(
            BackgroundModel {
                start_time: usize_value(fields[1])->0,
                filename: latin1(trimmed_of(fields[2], QUOTE)),
                x_offset: isize_value(fields[3])->0,
                y_offset: isize_value(fields[4])->0,
            },
        ),
    }
}

/// The video that the fields of a line write.
pub open spec fn video_of(fields: Seq<Seq<u8>>) -> Result<VideoModel, ErrorModel> {
    match first_error(RecordKind::Video, fields, 1, 5) {
        Some(error) => Err(error),
        None => Ok(
            VideoModel {
                start_time: usize_value(fields[1])->0,
                filename: latin1(fields[2]),
                x_offset: isize_value(fields[3])->0,
                y_offset: isize_value(fields[4])->0,
            },
        ),
    }
}

/// The break that the fields of a line write.
pub open spec fn break_of(fields: Seq<Seq<u8>>) -> Result<BreakModel, ErrorModel> {
    match first_error(RecordKind::Break, fields, 1, 3) {
        Some(error) => Err(error),
        None => Ok(
            BreakModel { start_time: usize_value(fields[1])->0, end_time: latin1(fields[2]) },
        ),
    }
}

/// The timing point that the fields of a line write.
pub open spec fn timing_point_of(fields: Seq<Seq<u8>>) -> Result<TimingPointModel, ErrorModel> {
    match first_error(RecordKind::TimingPoint, fields, 0, 8) {
        Some(error) => Err(error),
        None => Ok(
            TimingPointModel {
                time: usize_value(fields[0])->0,
                beat_length: fields[1],
                meter: usize_value(fields[2])->0,
                sample_set: usize_value(fields[3])->0,
                sample_index: usize_value(fields[4])->0,
                volume: usize_value(fields[5])->0,
                uninherited: usize_value(fields[6])->0 != 0,
                effects: usize_value(fields[7])->0,
            },
        ),
    }
}

/// The colour that the fields of a line write.
pub open spec fn colour_of(fields: Seq<Seq<u8>>) -> Result<Colour, ErrorModel> {
    match first_error(RecordKind::Colour, fields, 0, 3) {
        Some(error) => Err(error),
        None => Ok(
            Colour {
                combo: combo_value(fields[0])->0,
                slider_track_override: u8_value(fields[1])->0,
                slider_border: u8_value(fields[2])->0,
            },
        ),
    }
}

/// The field at `index` as text, where the line has such a field.
pub open spec fn optional_text(fields: Seq<Seq<u8>>, index: int) -> Option<Seq<char>> {
    if index < fields.len() {
        Some(latin1(fields[index]))
    } else {
        None
    }
}

/// The hit object that the fields of a line write, or `None` for a line
/// whose fourth field names no kind of hit object: such a line is passed
/// over. The fields before the kind are read first, the hit sound after it.
pub open spec fn hit_object_of(fields: Seq<Seq<u8>>) -> Result<Option<HitObjectModel>, ErrorModel> {
    match first_error(RecordKind::HitObject, fields, 0, 4) {
        Some(error) => Err(error),
        None => match hit_object_kind(fields[3]) {
            None => Ok(None),
            Some(kind) => match field_error(RecordKind::HitObject, fields, 4) {
                Some(error) => Err(error),
                None => Ok(
                    Some(
                        HitObjectModel {
                            x: usize_value(fields[0])->0,
                            y: usize_value(fields[1])->0,
                            time: usize_value(fields[2])->0,
                            kind,
                            hit_sound: usize_value(fields[4])->0,
                            object_params: optional_text(fields, 5),
                            hit_sample: optional_text(fields, 6),
                        },
                    ),
                ),
            },
        },
    }
}

/// The error of a field is that of a missing field or of a field that cannot
/// be read.
pub proof fn lemma_first_error_kind(record: RecordKind, fields: Seq<Seq<u8>>, from: int, to: int)
    ensures
        first_error(record, fields, from, to) matches Some(e) ==> e is MissingField || e
            is InvalidFieldValue,
    decreases to - from,
{
    if from < to && field_error(record, fields, from) is None {
        lemma_first_error_kind(record, fields, from + 1, to);
    }
}

/// A line that has fewer fields than its kind needs writes no record: the
/// first field that is missing or cannot be read gives the error.
pub proof fn lemma_short_line_fails(record: RecordKind, fields: Seq<Seq<u8>>, from: int)
    requires
        0 <= from <= fields.len() < arity(record),
    ensures
        first_error(record, fields, from, arity(record)) is Some,
        first_error(record, fields, from, arity(record)) matches Some(e) ==> e
            is MissingField || e is InvalidFieldValue,
    decreases fields.len() - from,
{
    if from < fields.len() && field_error(record, fields, from) is None {
        lemma_short_line_fails(record, fields, from + 1);
    }
}

/// The section that holds records of the kind `record`.
pub fn record_section(record: RecordKind) -> (r: SectionKind)
    ensures
        r == section_of(record),
{
    match record {
        RecordKind::Background => SectionKind::Events,
        RecordKind::Video => SectionKind::Events,
        RecordKind::Break => SectionKind::Events,
        RecordKind::TimingPoint => SectionKind::TimingPoints,
        RecordKind::Colour => SectionKind::Colours,
        RecordKind::HitObject => SectionKind::HitObjects,
    }
}

/// The error for a field that is not there.
fn missing(record: RecordKind) -> (e: Error)
    ensures
        e@ == ErrorModel::MissingField(section_of(record), record),
{
    Error::MissingField(record_section(record), record)
}

/// The error for a field that cannot be read.
fn invalid(record: RecordKind, index: usize, field: &[u8]) -> (e: Error)
    ensures
        e@ == ErrorModel::InvalidFieldValue(
            section_of(record),
            FieldModel::Index(index),
            latin1(field@),
        ),
{
    Error::InvalidFieldValue(record_section(record), Field::Index(index), text_of(field))
}

/// The field at `index`, read as a `usize`.
fn usize_at(record: RecordKind, fields: &Vec<&[u8]>, index: usize) -> (r: Result<usize, Error>)
    requires
        value_kind(record, index as int) == ValueKind::Unsigned,
    ensures
        r matches Ok(v) ==> field_error(record, views(fields@), index as int) is None
            && usize_value(views(fields@)[index as int]) == Some(v),
        r matches Err(e) ==> field_error(record, views(fields@), index as int) == Some(e@),
{
    if index >= fields.len() {
        return Err(missing(record));
    }
    match parse_usize(fields[index]) {
        Some(v) => Ok(v),
        None => Err(invalid(record, index, fields[index])),
    }
}

/// The field at `index`, read as an `isize`.
fn isize_at(record: RecordKind, fields: &Vec<&[u8]>, index: usize) -> (r: Result<isize, Error>)
    requires
        value_kind(record, index as int) == ValueKind::Signed,
    ensures
        r matches Ok(v) ==> field_error(record, views(fields@), index as int) is None
            && isize_value(views(fields@)[index as int]) == Some(v),
        r matches Err(e) ==> field_error(record, views(fields@), index as int) == Some(e@),
{
    if index >= fields.len() {
        return Err(missing(record));
    }
    match parse_isize(fields[index]) {
        Some(v) => Ok(v),
        None => Err(invalid(record, index, fields[index])),
    }
}

/// The field at `index`, read as a `u8`.
fn u8_at(record: RecordKind, fields: &Vec<&[u8]>, index: usize) -> (r: Result<u8, Error>)
    requires
        value_kind(record, index as int) == ValueKind::Byte,
    ensures
        r matches Ok(v) ==> field_error(record, views(fields@), index as int) is None && u8_value(
            views(fields@)[index as int],
        ) == Some(v),
        r matches Err(e) ==> field_error(record, views(fields@), index as int) == Some(e@),
{
    if index >= fields.len() {
        return Err(missing(record));
    }
    match parse_u8(fields[index]) {
        Some(v) => Ok(v),
        None => Err(invalid(record, index, fields[index])),
    }
}

/// The field at `index`, read as a combo index.
fn combo_at(record: RecordKind, fields: &Vec<&[u8]>, index: usize) -> (r: Result<u8, Error>)
    requires
        value_kind(record, index as int) == ValueKind::ComboIndex,
    ensures
        r matches Ok(v) ==> field_error(record, views(fields@), index as int) is None
            && combo_value(views(fields@)[index as int]) == Some(v),
        r matches Err(e) ==> field_error(record, views(fields@), index as int) == Some(e@),
{
    if index >= fields.len() {
        return Err(missing(record));
    }
    match parse_u8(strip_prefix(fields[index], "Combo".as_bytes())) {
        Some(v) => Ok(v),
        None => Err(invalid(record, index, fields[index])),
    }
}

/// The field at `index`, read as a decimal fraction.
fn decimal_at(record: RecordKind, fields: &Vec<&[u8]>, index: usize) -> (r: Result<Decimal, Error>)
    requires
        value_kind(record, index as int) == ValueKind::Fraction,
    ensures
        r matches Ok(v) ==> field_error(record, views(fields@), index as int) is None && v@
            == views(fields@)[index as int],
        r matches Err(e) ==> field_error(record, views(fields@), index as int) == Some(e@),
{
    if index >= fields.len() {
        return Err(missing(record));
    }
    match Decimal::parse(fields[index]) {
        Some(v) => Ok(v),
        None => Err(invalid(record, index, fields[index])),
    }
}

/// The field at `index`, as it stands.
fn text_at<'a>(record: RecordKind, fields: &Vec<&'a [u8]>, index: usize) -> (r: Result<
    &'a [u8],
    Error,
>)
    requires
        value_kind(record, index as int) == ValueKind::Text,
    ensures
        r matches Ok(v) ==> field_error(record, views(fields@), index as int) is None && v@
            == views(fields@)[index as int],
        r matches Err(e) ==> field_error(record, views(fields@), index as int) == Some(e@),
{
    if index >= fields.len() {
        return Err(missing(record));
    }
    Ok(fields[index])
}

/// Reads the fields of a line as a background.
pub fn parse_background(fields: &Vec<&[u8]>) -> (r: Result<Background, Error>)
    ensures
        outcome(r) == background_of(views(fields@)),
{
    proof {
        reveal_with_fuel(first_error, 5);
    }
    let start_time = usize_at(RecordKind::Background, fields, 1)?;
    let name = text_at(RecordKind::Background, fields, 2)?;
    let x_offset = isize_at(RecordKind::Background, fields, 3)?;
    let y_offset = isize_at(RecordKind::Background, fields, 4)?;
    Ok(Background { start_time, filename: text_of(trim_matches(name, QUOTE)), x_offset, y_offset })
}

/// Reads the fields of a line as a video.
pub fn parse_video(fields: &Vec<&[u8]>) -> (r: Result<Video, Error>)
    ensures
        outcome(r) == video_of(views(fields@)),
{
    proof {
        reveal_with_fuel(first_error, 5);
    }
    let start_time = usize_at(RecordKind::Video, fields, 1)?;
    let name = text_at(RecordKind::Video, fields, 2)?;
    let x_offset = isize_at(RecordKind::Video, fields, 3)?;
    let y_offset = isize_at(RecordKind::Video, fields, 4)?;
    Ok(Video { start_time, filename: text_of(name), x_offset, y_offset })
}

/// Reads the fields of a line as a break.
pub fn parse_break(fields: &Vec<&[u8]>) -> (r: Result<Break, Error>)
    ensures
        outcome(r) == break_of(views(fields@)),
{
    proof {
        reveal_with_fuel(first_error, 3);
    }
    let start_time = usize_at(RecordKind::Break, fields, 1)?;
    let end = text_at(RecordKind::Break, fields, 2)?;
    Ok(Break { start_time, end_time: text_of(end) })
}

/// Reads the fields of a line as a timing point.
pub fn parse_timing_point(fields: &Vec<&[u8]>) -> (r: Result<TimingPoint, Error>)
    ensures
        outcome(r) == timing_point_of(views(fields@)),
{
    proof {
        reveal_with_fuel(first_error, 9);
    }
    let time = usize_at(RecordKind::TimingPoint, fields, 0)?;
    let beat_length = decimal_at(RecordKind::TimingPoint, fields, 1)?;
    let meter = usize_at(RecordKind::TimingPoint, fields, 2)?;
    let sample_set = usize_at(RecordKind::TimingPoint, fields, 3)?;
    let sample_index = usize_at(RecordKind::TimingPoint, fields, 4)?;
    let volume = usize_at(RecordKind::TimingPoint, fields, 5)?;
    let uninherited = usize_at(RecordKind::TimingPoint, fields, 6)?;
    let effects = usize_at(RecordKind::TimingPoint, fields, 7)?;
    Ok(
        TimingPoint {
            time,
            beat_length,
            meter,
            sample_set,
            sample_index,
            volume,
            uninherited: uninherited != 0,
            effects,
        },
    )
}

/// Reads the fields of a line as a colour.
pub fn parse_colour(fields: &Vec<&[u8]>) -> (r: Result<Colour, Error>)
    ensures
        outcome(r) == colour_of(views(fields@)),
{
    proof {
        reveal_with_fuel(first_error, 4);
    }
    let combo = combo_at(RecordKind::Colour, fields, 0)?;
    let slider_track_override = u8_at(RecordKind::Colour, fields, 1)?;
    let slider_border = u8_at(RecordKind::Colour, fields, 2)?;
    Ok(Colour { combo, slider_track_override, slider_border })
}

/// The kind of hit object that `tag` names.
pub fn parse_hit_object_kind(tag: &[u8]) -> (r: Option<HitObjectKind>)
    ensures
        r == hit_object_kind(tag@),
{
    if is_name(tag, "0") {
        Some(HitObjectKind::HitCircle)
    } else if is_name(tag, "1") {
        Some(HitObjectKind::Slider)
    } else if is_name(tag, "2") {
        Some(HitObjectKind::Spinner)
    } else if is_name(tag, "3") {
        Some(HitObjectKind::ManiaHold)
    } else {
        None
    }
}

/// The kind of event that `tag` names.
pub fn parse_event_kind(tag: &[u8]) -> (r: Option<RecordKind>)
    ensures
        r == event_kind(tag@),
{
    if is_name(tag, "0") {
        Some(RecordKind::Background)
    } else if is_name(tag, "1") || is_name(tag, "Video") {
        Some(RecordKind::Video)
    } else if is_name(tag, "2") || is_name(tag, "Break") {
        Some(RecordKind::Break)
    } else {
        None
    }
}

/// The field at `index` as text, where there is one.
fn text_if_present(fields: &Vec<&[u8]>, index: usize) -> (r: Option<String>)
    ensures
        r.deep_view() == optional_text(views(fields@), index as int),
{
    if index < fields.len() {
        Some(text_of(fields[index]))
    } else {
        None
    }
}

/// Reads the fields of a line as a hit object. `Ok(None)` is a line to pass
/// over.
pub fn parse_hit_object(fields: &Vec<&[u8]>) -> (r: Result<Option<HitObject>, Error>)
    ensures
        outcome(r) == hit_object_of(views(fields@)),
{
    proof {
        reveal_with_fuel(first_error, 5);
    }
    let x = usize_at(RecordKind::HitObject, fields, 0)?;
    let y = usize_at(RecordKind::HitObject, fields, 1)?;
    let time = usize_at(RecordKind::HitObject, fields, 2)?;
    let tag = text_at(RecordKind::HitObject, fields, 3)?;
    let kind = match parse_hit_object_kind(tag) {
        Some(kind) => kind,
        None => {
            return Ok(None);
        },
    };
    let hit_sound = usize_at(RecordKind::HitObject, fields, 4)?;
    let object_params = text_if_present(fields, 5);
    let hit_sample = text_if_present(fields, 6);
    Ok(Some(HitObject { x, y, time, kind, hit_sound, object_params, hit_sample }))
}

} // verus!
