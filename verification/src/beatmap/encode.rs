//! Records written as lines, the way their section reads them, and the
//! proof that reading such a line gives the record back.

use crate::beatmap::BeatmapModel;
use crate::beatmap::dispatch::{is_keyed, section_named, SectionModel};
use crate::beatmap::error::{ErrorModel, RecordKind, SectionKind};
use crate::beatmap::number::{
    is_decimal, is_decimal_byte, is_digit, lemma_decimal_bytes, lemma_unsigned_text, u8_value,
    unsigned_text, usize_value,
};
use crate::beatmap::parser::{
    is_comment_byte, lemma_run_skips_space, name_end, parse_document, ParserModel, run,
};
use crate::beatmap::records::{
    colour_of, combo_value, field_error, first_error, hit_object_kind, hit_object_of,
    timing_point_of,
};
use crate::beatmap::scanner::{line_break, one_of, space_end};
use crate::beatmap::sections::{Colour, HitObjectKind, HitObjectModel, TimingPointModel};
use crate::beatmap::text::{
    blank, bytes_of, CARRIAGE_RETURN, CLOSE_BRACKET, COLON, COMMA, EQUALS, free_of, is_blank,
    is_latin1, is_space, join, lemma_find_unique, lemma_join_first, lemma_join_free_of,
    lemma_latin1_of_bytes, lemma_split_join, lemma_trim_bounds, LINE_FEED, OPEN_BRACKET, split,
    starts_with, strip_prefix_all,
};
use vstd::prelude::*;
use vstd::string::StringSliceAdditionalSpecFns;

verus! {

/// The fields that write a timing point. The flag is written `1` or `0`.
pub open spec fn timing_point_fields(point: TimingPointModel) -> Seq<Seq<u8>> {
    seq![
        unsigned_text(point.time as nat),
        point.beat_length,
        unsigned_text(point.meter as nat),
        unsigned_text(point.sample_set as nat),
        unsigned_text(point.sample_index as nat),
        unsigned_text(point.volume as nat),
        unsigned_text(
            if point.uninherited {
                1
            } else {
                0
            },
        ),
        unsigned_text(point.effects as nat),
    ]
}

/// The line that writes a timing point.
pub open spec fn timing_point_line(point: TimingPointModel) -> Seq<u8> {
    join(timing_point_fields(point), COMMA)
}

/// The fields that write a colour.
pub open spec fn colour_fields(colour: Colour) -> Seq<Seq<u8>> {
    seq![
        "Combo".spec_bytes() + unsigned_text(colour.combo as nat),
        unsigned_text(colour.slider_track_override as nat),
        unsigned_text(colour.slider_border as nat),
    ]
}

/// The line that writes a colour.
pub open spec fn colour_line(colour: Colour) -> Seq<u8> {
    join(colour_fields(colour), COMMA)
}

/// The field that names a kind of hit object.
pub open spec fn kind_tag(kind: HitObjectKind) -> Seq<u8> {
    match kind {
        HitObjectKind::HitCircle => "0".spec_bytes(),
        HitObjectKind::Slider => "1".spec_bytes(),
        HitObjectKind::Spinner => "2".spec_bytes(),
        HitObjectKind::ManiaHold => "3".spec_bytes(),
    }
}

/// The fields that write a hit object: the five that every hit object has,
/// then its parameters and its sample where it has them.
pub open spec fn hit_object_fields(object: HitObjectModel) -> Seq<Seq<u8>> {
    let fixed = seq![
        unsigned_text(object.x as nat),
        unsigned_text(object.y as nat),
        unsigned_text(object.time as nat),
        kind_tag(object.kind),
        unsigned_text(object.hit_sound as nat),
    ];
    match (object.object_params, object.hit_sample) {
        (Some(params), Some(sample)) => fixed + seq![bytes_of(params), bytes_of(sample)],
        (Some(params), None) => fixed.push(bytes_of(params)),
        (None, _) => fixed,
    }
}

/// The line that writes a hit object.
pub open spec fn hit_object_line(object: HitObjectModel) -> Seq<u8> {
    join(hit_object_fields(object), COMMA)
}

/// A text that can stand as a field of a line: each of its characters is
/// one byte, and none of them is a comma.
pub open spec fn is_field_text(text: Seq<char>) -> bool {
    is_latin1(text) && free_of(bytes_of(text), COMMA)
}

/// A hit object that a line can write: its texts can stand as fields, and
/// it has no sample without parameters before it.
pub open spec fn is_writable(object: HitObjectModel) -> bool {
    &&& object.object_params matches Some(params) ==> is_field_text(params)
    &&& object.hit_sample matches Some(sample) ==> is_field_text(sample)
    &&& object.hit_sample is Some ==> object.object_params is Some
}

/// The digits of a number hold no byte but digits.
pub proof fn lemma_unsigned_text_free_of(n: nat, b: u8)
    requires
        !is_digit(b),
    ensures
        free_of(unsigned_text(n), b),
{
    lemma_unsigned_text(n);
}

/// A decimal fraction holds no byte that is not one of its own.
pub proof fn lemma_decimal_free_of(s: Seq<u8>, b: u8)
    requires
        is_decimal(s),
        !is_decimal_byte(b),
    ensures
        free_of(s, b),
{
    lemma_decimal_bytes(s);
}

/// A number that fits a `usize` is read back from its digits.
pub proof fn lemma_usize_text(n: usize)
    ensures
        usize_value(unsigned_text(n as nat)) == Some(n),
{
    lemma_unsigned_text(n as nat);
}

/// A number that fits a `u8` is read back from its digits.
pub proof fn lemma_u8_text(n: u8)
    ensures
        u8_value(unsigned_text(n as nat)) == Some(n),
{
    lemma_unsigned_text(n as nat);
}

/// The combo index is read back from the word `Combo` and its digits.
pub proof fn lemma_combo_text(n: u8)
    ensures
        combo_value("Combo".spec_bytes() + unsigned_text(n as nat)) == Some(n),
        free_of("Combo".spec_bytes() + unsigned_text(n as nat), COMMA),
        free_of("Combo".spec_bytes() + unsigned_text(n as nat), LINE_FEED),
        free_of("Combo".spec_bytes() + unsigned_text(n as nat), CARRIAGE_RETURN),
        is_ordinary(("Combo".spec_bytes() + unsigned_text(n as nat))[0]),
{
    reveal_strlit("Combo");
    vstd::string::is_ascii_spec_bytes("Combo");
    let word = "Combo".spec_bytes();
    let digits = unsigned_text(n as nat);
    let field = word + digits;
    lemma_u8_text(n);
    lemma_unsigned_text(n as nat);
    assert(word.len() == 5);
    assert(is_ordinary(word[0]));
    assert(field.take(5) =~= word);
    assert(field.skip(5) =~= digits);
    assert(is_digit(digits[0]));
    assert(!starts_with(digits, word)) by {
        if starts_with(digits, word) {
            assert(digits.take(5)[0] == word[0]);
        }
    }
    assert(strip_prefix_all(field, word) == digits) by {
        reveal_with_fuel(strip_prefix_all, 2);
    }
    assert forall|i: int| 0 <= i < field.len() implies field[i] != COMMA && field[i] != LINE_FEED
        && field[i] != CARRIAGE_RETURN by {
        if i >= 5 {
            assert(is_digit(digits[i - 5]));
        }
    }
}

/// The tag of a kind of hit object is read back as that kind.
pub proof fn lemma_kind_tag(kind: HitObjectKind)
    ensures
        hit_object_kind(kind_tag(kind)) == Some(kind),
        kind_tag(kind).len() == 1,
        is_digit(kind_tag(kind)[0]),
{
    reveal_strlit("0");
    reveal_strlit("1");
    reveal_strlit("2");
    reveal_strlit("3");
    vstd::string::is_ascii_spec_bytes("0");
    vstd::string::is_ascii_spec_bytes("1");
    vstd::string::is_ascii_spec_bytes("2");
    vstd::string::is_ascii_spec_bytes("3");
    assert("0".spec_bytes()[0] == '0' as u8);
    assert("1".spec_bytes()[0] == '1' as u8);
    assert("2".spec_bytes()[0] == '2' as u8);
    assert("3".spec_bytes()[0] == '3' as u8);
}

/// No field of a timing point holds a comma or ends a line.
pub proof fn lemma_timing_point_fields(point: TimingPointModel, b: u8)
    requires
        is_decimal(point.beat_length),
        b == COMMA || b == LINE_FEED || b == CARRIAGE_RETURN,
    ensures
        forall|i: int|
            0 <= i < timing_point_fields(point).len() ==> free_of(
                #[trigger] timing_point_fields(point)[i],
                b,
            ),
{
    lemma_decimal_free_of(point.beat_length, b);
    lemma_unsigned_text_free_of(point.time as nat, b);
    lemma_unsigned_text_free_of(point.meter as nat, b);
    lemma_unsigned_text_free_of(point.sample_set as nat, b);
    lemma_unsigned_text_free_of(point.sample_index as nat, b);
    lemma_unsigned_text_free_of(point.volume as nat, b);
    lemma_unsigned_text_free_of(1, b);
    lemma_unsigned_text_free_of(0, b);
    lemma_unsigned_text_free_of(point.effects as nat, b);
}

/// A timing point that is written as a line and read again is the same
/// timing point, field for field.
pub proof fn lemma_timing_point_round_trip(point: TimingPointModel)
    requires
        is_decimal(point.beat_length),
    ensures
        timing_point_of(split(timing_point_line(point), COMMA)) == Ok::<
            TimingPointModel,
            ErrorModel,
        >(point),
{
    let fields = timing_point_fields(point);
    lemma_timing_point_fields(point, COMMA);
    lemma_split_join(fields, COMMA);
    lemma_usize_text(point.time);
    lemma_usize_text(point.meter);
    lemma_usize_text(point.sample_set);
    lemma_usize_text(point.sample_index);
    lemma_usize_text(point.volume);
    lemma_usize_text(1);
    lemma_usize_text(0);
    lemma_usize_text(point.effects);
    reveal_with_fuel(first_error, 9);
    assert(first_error(RecordKind::TimingPoint, fields, 0, 8) is None);
}

/// A colour that is written as a line and read again is the same colour.
pub proof fn lemma_colour_round_trip(colour: Colour)
    ensures
        colour_of(split(colour_line(colour), COMMA)) == Ok::<Colour, ErrorModel>(colour),
{
    let fields = colour_fields(colour);
    lemma_combo_text(colour.combo);
    lemma_unsigned_text_free_of(colour.slider_track_override as nat, COMMA);
    lemma_unsigned_text_free_of(colour.slider_border as nat, COMMA);
    lemma_split_join(fields, COMMA);
    lemma_u8_text(colour.slider_track_override);
    lemma_u8_text(colour.slider_border);
    reveal_with_fuel(first_error, 4);
    assert(first_error(RecordKind::Colour, fields, 0, 3) is None);
}

/// No field of a hit object that can be written holds a comma.
pub proof fn lemma_hit_object_fields(object: HitObjectModel)
    requires
        is_writable(object),
    ensures
        5 <= hit_object_fields(object).len() <= 7,
        forall|i: int|
            0 <= i < hit_object_fields(object).len() ==> free_of(
                #[trigger] hit_object_fields(object)[i],
                COMMA,
            ),
{
    lemma_unsigned_text_free_of(object.x as nat, COMMA);
    lemma_unsigned_text_free_of(object.y as nat, COMMA);
    lemma_unsigned_text_free_of(object.time as nat, COMMA);
    lemma_unsigned_text_free_of(object.hit_sound as nat, COMMA);
    lemma_kind_tag(object.kind);
}

/// A hit object that is written as a line and read again is the same hit
/// object, field for field. This holds of the hit objects that a line can
/// write: a text with a comma in it would be read as two fields.
pub proof fn lemma_hit_object_round_trip(object: HitObjectModel)
    requires
        is_writable(object),
    ensures
        hit_object_of(split(hit_object_line(object), COMMA)) == Ok::<
            Option<HitObjectModel>,
            ErrorModel,
        >(Some(object)),
{
    let fields = hit_object_fields(object);
    lemma_hit_object_fields(object);
    lemma_split_join(fields, COMMA);
    lemma_usize_text(object.x);
    lemma_usize_text(object.y);
    lemma_usize_text(object.time);
    lemma_usize_text(object.hit_sound);
    lemma_kind_tag(object.kind);
    if let Some(params) = object.object_params {
        lemma_latin1_of_bytes(params);
    }
    if let Some(sample) = object.hit_sample {
        lemma_latin1_of_bytes(sample);
    }
    reveal_with_fuel(first_error, 5);
    assert(first_error(RecordKind::HitObject, fields, 0, 4) is None);
    assert(field_error(RecordKind::HitObject, fields, 4) is None);
}

/// The text of some lines: each line with a line feed behind it.
pub open spec fn lines_text(lines: Seq<Seq<u8>>) -> Seq<u8>
    decreases lines.len(),
{
    if lines.len() == 0 {
        Seq::empty()
    } else {
        lines[0] + seq![LINE_FEED] + lines_text(lines.drop_first())
    }
}

/// The text of a section: its header on a line of its own, then its lines.
pub open spec fn section_text(name: Seq<u8>, lines: Seq<Seq<u8>>) -> Seq<u8> {
    seq![OPEN_BRACKET] + name + seq![CLOSE_BRACKET, LINE_FEED] + lines_text(lines)
}

/// The section that is left when `lines` are read into `section` as
/// records, one after another, or the first error.
pub open spec fn read_lines(section: SectionModel, lines: Seq<Seq<u8>>) -> Result<
    SectionModel,
    ErrorModel,
>
    decreases lines.len(),
{
    if lines.len() == 0 {
        Ok(section)
    } else {
        match section.with_record(split(lines[0], COMMA)) {
            Ok(next) => read_lines(next, lines.drop_first()),
            Err(error) => Err(error),
        }
    }
}

/// A byte that starts a property: no whitespace, and none of the bytes that
/// start another unit.
pub open spec fn is_ordinary(b: u8) -> bool {
    !is_space(b) && !is_comment_byte(b) && b != OPEN_BRACKET && b != EQUALS && b != COLON
}

/// A line that a section of records reads as one record: it is not empty,
/// starts with an ordinary byte, and does not end before its end.
pub open spec fn is_record_line(line: Seq<u8>) -> bool {
    &&& line.len() > 0
    &&& is_ordinary(line[0])
    &&& free_of(line, LINE_FEED)
    &&& free_of(line, CARRIAGE_RETURN)
}

/// Reading a line into a section of records leaves a section of the same
/// kind.
pub proof fn lemma_with_record_kind(section: SectionModel, fields: Seq<Seq<u8>>)
    requires
        section.with_record(fields) is Ok,
    ensures
        section.with_record(fields)->Ok_0.kind() == section.kind(),
{
}

/// One line of records, with a line feed behind it, is read as its record
/// and nothing else: the run goes on behind the line feed with the record
/// in the open section.
pub proof fn lemma_read_line(input: Seq<u8>, s: ParserModel, line: Seq<u8>)
    requires
        s.section matches Some(section) && !is_keyed(section.kind()) && section.with_record(
            split(line, COMMA),
        ) is Ok,
        is_record_line(line),
        0 <= s.position,
        s.position + line.len() < input.len(),
        input.subrange(s.position, s.position + line.len()) == line,
        input[s.position + line.len()] == LINE_FEED,
    ensures
        run(input, s) == run(
            input,
            ParserModel {
                position: s.position + line.len() + 1,
                section: Some(s.section->0.with_record(split(line, COMMA))->Ok_0),
                ..s
            },
        ),
{
    reveal(ParserModel::list_step);
    let p = s.position;
    let end = p + line.len();
    assert(input[p] == line[0]);
    assert(space_end(input, p) == p);
    assert(s.at(p) == s);
    assert forall|k: int| p <= k < end implies !line_break()(#[trigger] input[k]) by {
        assert(input[k] == line[k - p]);
    }
    lemma_find_unique(input, p, line_break(), end);
    let next = s.list_step(input)->Ok_0;
    assert(s.step(input) == Ok::<ParserModel, ErrorModel>(next));
    assert(next.position == end);
    lemma_run_skips_space(input, next);
    lemma_run_skips_space(input, next.at(end + 1));
    assert(space_end(input, end) == space_end(input, end + 1));
}

/// Lines of records up to the end of the input are read as their records:
/// the run gives the document with the section that the lines leave written
/// into it.
pub proof fn lemma_read_lines(input: Seq<u8>, s: ParserModel, lines: Seq<Seq<u8>>)
    requires
        s.section matches Some(section) && !is_keyed(section.kind()) && read_lines(section, lines)
            is Ok,
        forall|i: int| 0 <= i < lines.len() ==> is_record_line(#[trigger] lines[i]),
        0 <= s.position <= input.len(),
        input.skip(s.position) == lines_text(lines),
    ensures
        run(input, s) == Ok::<BeatmapModel, ErrorModel>(
            s.result.with_section(read_lines(s.section->0, lines)->Ok_0),
        ),
    decreases lines.len(),
{
    let p = s.position;
    let section = s.section->0;
    if lines.len() == 0 {
        assert(input.skip(p).len() == 0);
        assert(space_end(input, p) == p);
    } else {
        let line = lines[0];
        let rest = lines.drop_first();
        let tail = input.skip(p);
        assert(is_record_line(line));
        assert(tail.len() == line.len() + 1 + lines_text(rest).len());
        assert(input.subrange(p, p + line.len()) =~= line) by {
            assert forall|k: int| 0 <= k < line.len() implies input[p + k] == line[k] by {
                assert(tail[k] == input[p + k]);
            }
        }
        assert(input[p + line.len()] == LINE_FEED) by {
            assert(tail[line.len() as int] == input[p + line.len()]);
        }
        assert(input.skip(p + line.len() + 1) =~= lines_text(rest)) by {
            assert(tail.skip(line.len() as int + 1) =~= lines_text(rest));
            assert(tail.skip(line.len() as int + 1) =~= input.skip(p + line.len() + 1));
        }
        lemma_read_line(input, s, line);
        let after = section.with_record(split(line, COMMA))->Ok_0;
        lemma_with_record_kind(section, split(line, COMMA));
        let next = ParserModel { position: p + line.len() + 1, section: Some(after), ..s };
        assert forall|i: int| 0 <= i < rest.len() implies is_record_line(#[trigger] rest[i]) by {
            assert(rest[i] == lines[i + 1]);
        }
        lemma_read_lines(input, next, rest);
    }
}

/// A section header on a line of its own opens its section: from the start
/// of the input, the run goes on behind the header with the section opened
/// afresh and the document still empty.
pub proof fn lemma_read_header(input: Seq<u8>, name: Seq<u8>, kind: SectionKind)
    requires
        section_named(name) == Some(kind),
        is_section_name(name),
        input.len() >= name.len() + 3,
        input.take(name.len() as int + 3) == seq![OPEN_BRACKET] + name + seq![
            CLOSE_BRACKET,
            LINE_FEED,
        ],
    ensures
        run(input, ParserModel::start()) == run(
            input,
            ParserModel {
                position: name.len() as int + 3,
                section: Some(SectionModel::fresh(kind)),
                ..ParserModel::start()
            },
        ),
{
    reveal(ParserModel::section_step);
    let s = ParserModel::start();
    let n = name.len() as int;
    let head = input.take(n + 3);
    assert(input[0] == head[0]);
    assert(input[n + 1] == head[n + 1]);
    assert(input[n + 2] == head[n + 2]);
    assert(space_end(input, 0) == 0);
    assert(s.at(0) == s);
    assert forall|k: int| 1 <= k < n + 1 implies !one_of(name_end())(#[trigger] input[k]) by {
        assert(input[k] == head[k]);
        assert(head[k] == name[k - 1]);
        assert(name_end().len() == 1);
        assert(name_end()[0] == Some(CLOSE_BRACKET));
    }
    assert(one_of(name_end())(input[n + 1])) by {
        assert(name_end()[0] == Some(CLOSE_BRACKET));
    }
    lemma_find_unique(input, 1, one_of(name_end()), n + 1);
    assert(input.subrange(1, n + 1) =~= name) by {
        assert forall|k: int| 0 <= k < n implies input[k + 1] == name[k] by {
            assert(input[k + 1] == head[k + 1]);
        }
    }
    lemma_trim_bounds(name, blank(), 0, n);
    assert(name.subrange(0, n) =~= name);
    let next = s.section_step(input)->Ok_0;
    assert(s.step(input) == Ok::<ParserModel, ErrorModel>(next));
    assert(next.position == n + 2);
    lemma_run_skips_space(input, next);
    lemma_run_skips_space(input, next.at(n + 3));
    assert(space_end(input, n + 2) == space_end(input, n + 3));
}

/// A section of records written as text, alone in its file, is read as that
/// section: the document has the section that the lines leave, and no
/// other, and no version.
pub proof fn lemma_read_section(name: Seq<u8>, kind: SectionKind, lines: Seq<Seq<u8>>)
    requires
        section_named(name) == Some(kind),
        !is_keyed(kind),
        is_section_name(name),
        forall|i: int| 0 <= i < lines.len() ==> is_record_line(#[trigger] lines[i]),
        read_lines(SectionModel::fresh(kind), lines) is Ok,
    ensures
        parse_document(section_text(name, lines)) == Ok::<BeatmapModel, ErrorModel>(
            BeatmapModel::empty().with_section(
                read_lines(SectionModel::fresh(kind), lines)->Ok_0,
            ),
        ),
{
    let input = section_text(name, lines);
    let n = name.len() as int;
    assert(input.take(n + 3) =~= seq![OPEN_BRACKET] + name + seq![CLOSE_BRACKET, LINE_FEED]);
    lemma_read_header(input, name, kind);
    let s = ParserModel {
        position: n + 3,
        section: Some(SectionModel::fresh(kind)),
        ..ParserModel::start()
    };
    assert(input.skip(n + 3) =~= lines_text(lines));
    lemma_read_lines(input, s, lines);
}

/// The lines that write some timing points.
pub open spec fn timing_point_lines(points: Seq<TimingPointModel>) -> Seq<Seq<u8>> {
    Seq::new(points.len(), |i: int| timing_point_line(points[i]))
}

/// The text of a `[TimingPoints]` section that holds `points`.
pub open spec fn timing_points_text(points: Seq<TimingPointModel>) -> Seq<u8> {
    section_text("TimingPoints".spec_bytes(), timing_point_lines(points))
}

/// The lines that write some colours.
pub open spec fn colour_lines(colours: Seq<Colour>) -> Seq<Seq<u8>> {
    Seq::new(colours.len(), |i: int| colour_line(colours[i]))
}

/// The text of a `[Colours]` section that holds `colours`.
pub open spec fn colours_text(colours: Seq<Colour>) -> Seq<u8> {
    section_text("Colours".spec_bytes(), colour_lines(colours))
}

/// The lines that write some hit objects.
pub open spec fn hit_object_lines(objects: Seq<HitObjectModel>) -> Seq<Seq<u8>> {
    Seq::new(objects.len(), |i: int| hit_object_line(objects[i]))
}

/// The text of a `[HitObjects]` section that holds `objects`.
pub open spec fn hit_objects_text(objects: Seq<HitObjectModel>) -> Seq<u8> {
    section_text("HitObjects".spec_bytes(), hit_object_lines(objects))
}

/// A text that can stand in a line: it can stand as a field, and does not
/// end the line.
pub open spec fn is_line_text(text: Seq<char>) -> bool {
    &&& is_field_text(text)
    &&& free_of(bytes_of(text), LINE_FEED)
    &&& free_of(bytes_of(text), CARRIAGE_RETURN)
}

/// A hit object that a line of a file can write.
pub open spec fn is_line_writable(object: HitObjectModel) -> bool {
    &&& is_writable(object)
    &&& object.object_params matches Some(params) ==> is_line_text(params)
    &&& object.hit_sample matches Some(sample) ==> is_line_text(sample)
}

/// What the three section names are made of.
pub proof fn lemma_list_section_names()
    ensures
        section_named("TimingPoints".spec_bytes()) == Some(SectionKind::TimingPoints),
        section_named("Colours".spec_bytes()) == Some(SectionKind::Colours),
        section_named("HitObjects".spec_bytes()) == Some(SectionKind::HitObjects),
        is_section_name("TimingPoints".spec_bytes()),
        is_section_name("Colours".spec_bytes()),
        is_section_name("HitObjects".spec_bytes()),
{
    reveal_strlit("General");
    reveal_strlit("Editor");
    reveal_strlit("Metadata");
    reveal_strlit("Difficulty");
    reveal_strlit("Events");
    reveal_strlit("TimingPoints");
    reveal_strlit("Colours");
    reveal_strlit("HitObjects");
    vstd::string::is_ascii_spec_bytes("General");
    vstd::string::is_ascii_spec_bytes("Editor");
    vstd::string::is_ascii_spec_bytes("Metadata");
    vstd::string::is_ascii_spec_bytes("Difficulty");
    vstd::string::is_ascii_spec_bytes("Events");
    vstd::string::is_ascii_spec_bytes("TimingPoints");
    vstd::string::is_ascii_spec_bytes("Colours");
    vstd::string::is_ascii_spec_bytes("HitObjects");
    assert("General".spec_bytes()[0] == 'G' as u8);
    assert("Editor".spec_bytes()[0] == 'E' as u8);
    assert("Metadata".spec_bytes()[0] == 'M' as u8);
    assert("Difficulty".spec_bytes()[0] == 'D' as u8);
    assert("Events".spec_bytes()[0] == 'E' as u8);
    assert("TimingPoints".spec_bytes()[0] == 'T' as u8);
    assert("Colours".spec_bytes()[0] == 'C' as u8);
    assert("HitObjects".spec_bytes()[0] == 'H' as u8);
}

/// A name that can stand in a header as it is: not empty, without `]`, and
/// without a blank at either end.
pub open spec fn is_section_name(name: Seq<u8>) -> bool {
    &&& name.len() > 0
    &&& free_of(name, CLOSE_BRACKET)
    &&& !is_blank(name[0])
    &&& !is_blank(name.last())
}

/// The line of a timing point is a line of records.
pub proof fn lemma_timing_point_is_line(point: TimingPointModel)
    requires
        is_decimal(point.beat_length),
    ensures
        is_record_line(timing_point_line(point)),
{
    let fields = timing_point_fields(point);
    lemma_unsigned_text(point.time as nat);
    assert(is_digit(fields[0][0]));
    lemma_join_first(fields, COMMA);
    lemma_timing_point_fields(point, LINE_FEED);
    lemma_join_free_of(fields, COMMA, LINE_FEED);
    lemma_timing_point_fields(point, CARRIAGE_RETURN);
    lemma_join_free_of(fields, COMMA, CARRIAGE_RETURN);
}

/// The line of a colour is a line of records.
pub proof fn lemma_colour_is_line(colour: Colour)
    ensures
        is_record_line(colour_line(colour)),
{
    let fields = colour_fields(colour);
    lemma_combo_text(colour.combo);
    lemma_join_first(fields, COMMA);
    lemma_unsigned_text_free_of(colour.slider_track_override as nat, LINE_FEED);
    lemma_unsigned_text_free_of(colour.slider_border as nat, LINE_FEED);
    lemma_unsigned_text_free_of(colour.slider_track_override as nat, CARRIAGE_RETURN);
    lemma_unsigned_text_free_of(colour.slider_border as nat, CARRIAGE_RETURN);
    lemma_join_free_of(fields, COMMA, LINE_FEED);
    lemma_join_free_of(fields, COMMA, CARRIAGE_RETURN);
}

/// The line of a hit object that a file can write is a line of records.
pub proof fn lemma_hit_object_is_line(object: HitObjectModel)
    requires
        is_line_writable(object),
    ensures
        is_record_line(hit_object_line(object)),
{
    let fields = hit_object_fields(object);
    lemma_unsigned_text(object.x as nat);
    assert(is_digit(fields[0][0]));
    lemma_join_first(fields, COMMA);
    lemma_kind_tag(object.kind);
    lemma_unsigned_text_free_of(object.x as nat, LINE_FEED);
    lemma_unsigned_text_free_of(object.y as nat, LINE_FEED);
    lemma_unsigned_text_free_of(object.time as nat, LINE_FEED);
    lemma_unsigned_text_free_of(object.hit_sound as nat, LINE_FEED);
    lemma_unsigned_text_free_of(object.x as nat, CARRIAGE_RETURN);
    lemma_unsigned_text_free_of(object.y as nat, CARRIAGE_RETURN);
    lemma_unsigned_text_free_of(object.time as nat, CARRIAGE_RETURN);
    lemma_unsigned_text_free_of(object.hit_sound as nat, CARRIAGE_RETURN);
    lemma_join_free_of(fields, COMMA, LINE_FEED);
    lemma_join_free_of(fields, COMMA, CARRIAGE_RETURN);
}

/// The lines of some timing points, read into a section that holds `before`,
/// leave the section with the timing points added in their order.
pub proof fn lemma_read_timing_points(
    before: Seq<TimingPointModel>,
    points: Seq<TimingPointModel>,
)
    requires
        forall|i: int| 0 <= i < points.len() ==> is_decimal(#[trigger] points[i].beat_length),
    ensures
        read_lines(SectionModel::TimingPoints(before), timing_point_lines(points)) == Ok::<
            SectionModel,
            ErrorModel,
        >(SectionModel::TimingPoints(before + points)),
    decreases points.len(),
{
    let lines = timing_point_lines(points);
    if points.len() == 0 {
        assert(before + points =~= before);
    } else {
        let rest = points.drop_first();
        assert(is_decimal(points[0].beat_length));
        lemma_timing_point_round_trip(points[0]);
        assert(lines.drop_first() =~= timing_point_lines(rest));
        assert forall|i: int| 0 <= i < rest.len() implies is_decimal(
            #[trigger] rest[i].beat_length,
        ) by {
            assert(rest[i] == points[i + 1]);
        }
        lemma_read_timing_points(before.push(points[0]), rest);
        assert(before.push(points[0]) + rest =~= before + points);
    }
}

/// The lines of some colours, read into a section that holds `before`, leave
/// the section with the colours added in their order.
pub proof fn lemma_read_colours(before: Seq<Colour>, colours: Seq<Colour>)
    ensures
        read_lines(SectionModel::Colours(before), colour_lines(colours)) == Ok::<
            SectionModel,
            ErrorModel,
        >(SectionModel::Colours(before + colours)),
    decreases colours.len(),
{
    let lines = colour_lines(colours);
    if colours.len() == 0 {
        assert(before + colours =~= before);
    } else {
        let rest = colours.drop_first();
        lemma_colour_round_trip(colours[0]);
        assert(lines.drop_first() =~= colour_lines(rest));
        lemma_read_colours(before.push(colours[0]), rest);
        assert(before.push(colours[0]) + rest =~= before + colours);
    }
}

/// The lines of some hit objects, read into a section that holds `before`,
/// leave the section with the hit objects added in their order.
pub proof fn lemma_read_hit_objects(before: Seq<HitObjectModel>, objects: Seq<HitObjectModel>)
    requires
        forall|i: int| 0 <= i < objects.len() ==> is_writable(#[trigger] objects[i]),
    ensures
        read_lines(SectionModel::HitObjects(before), hit_object_lines(objects)) == Ok::<
            SectionModel,
            ErrorModel,
        >(SectionModel::HitObjects(before + objects)),
    decreases objects.len(),
{
    let lines = hit_object_lines(objects);
    if objects.len() == 0 {
        assert(before + objects =~= before);
    } else {
        let rest = objects.drop_first();
        assert(is_writable(objects[0]));
        lemma_hit_object_round_trip(objects[0]);
        assert(lines.drop_first() =~= hit_object_lines(rest));
        assert forall|i: int| 0 <= i < rest.len() implies is_writable(#[trigger] rest[i]) by {
            assert(rest[i] == objects[i + 1]);
        }
        lemma_read_hit_objects(before.push(objects[0]), rest);
        assert(before.push(objects[0]) + rest =~= before + objects);
    }
}

/// Timing points that are written as a `[TimingPoints]` section and read
/// again are the same timing points, in the same order.
pub proof fn lemma_timing_points_round_trip(points: Seq<TimingPointModel>)
    requires
        forall|i: int| 0 <= i < points.len() ==> is_decimal(#[trigger] points[i].beat_length),
    ensures
        parse_document(timing_points_text(points)) == Ok::<BeatmapModel, ErrorModel>(
            BeatmapModel { timing_points: Some(points), ..BeatmapModel::empty() },
        ),
{
    let lines = timing_point_lines(points);
    lemma_list_section_names();
    assert forall|i: int| 0 <= i < lines.len() implies is_record_line(#[trigger] lines[i]) by {
        assert(is_decimal(points[i].beat_length));
        lemma_timing_point_is_line(points[i]);
    }
    lemma_read_timing_points(Seq::empty(), points);
    assert(Seq::<TimingPointModel>::empty() + points =~= points);
    lemma_read_section("TimingPoints".spec_bytes(), SectionKind::TimingPoints, lines);
}

/// Colours that are written as a `[Colours]` section and read again are the
/// same colours, in the same order.
pub proof fn lemma_colours_round_trip(colours: Seq<Colour>)
    ensures
        parse_document(colours_text(colours)) == Ok::<BeatmapModel, ErrorModel>(
            BeatmapModel { colours: Some(colours), ..BeatmapModel::empty() },
        ),
{
    let lines = colour_lines(colours);
    lemma_list_section_names();
    assert forall|i: int| 0 <= i < lines.len() implies is_record_line(#[trigger] lines[i]) by {
        lemma_colour_is_line(colours[i]);
    }
    lemma_read_colours(Seq::empty(), colours);
    assert(Seq::<Colour>::empty() + colours =~= colours);
    lemma_read_section("Colours".spec_bytes(), SectionKind::Colours, lines);
}

/// Hit objects that are written as a `[HitObjects]` section and read again
/// are the same hit objects, in the same order. This holds of the hit
/// objects that a line of a file can write: a text with a comma or a line
/// break in it would be cut there.
pub proof fn lemma_hit_objects_round_trip(objects: Seq<HitObjectModel>)
    requires
        forall|i: int| 0 <= i < objects.len() ==> is_line_writable(#[trigger] objects[i]),
    ensures
        parse_document(hit_objects_text(objects)) == Ok::<BeatmapModel, ErrorModel>(
            BeatmapModel { hit_objects: Some(objects), ..BeatmapModel::empty() },
        ),
{
    let lines = hit_object_lines(objects);
    lemma_list_section_names();
    assert forall|i: int| 0 <= i < lines.len() implies is_record_line(#[trigger] lines[i]) by {
        assert(is_line_writable(objects[i]));
        lemma_hit_object_is_line(objects[i]);
    }
    assert forall|i: int| 0 <= i < objects.len() implies is_writable(#[trigger] objects[i]) by {
        assert(is_line_writable(objects[i]));
    }
    lemma_read_hit_objects(Seq::empty(), objects);
    assert(Seq::<HitObjectModel>::empty() + objects =~= objects);
    lemma_read_section("HitObjects".spec_bytes(), SectionKind::HitObjects, lines);
}

} // verus!
