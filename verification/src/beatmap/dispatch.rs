//! The section that is being read: which header opens which section, and
//! how a line is taken into the section that is open.

use crate::beatmap::error::{Error, ErrorModel, Field, FieldModel, RecordKind, SectionKind};
use crate::beatmap::records::{
    arity, background_of, break_of, colour_of, event_kind, first_error, hit_object_kind,
    hit_object_of, lemma_first_error_kind, lemma_short_line_fails, parse_background, parse_break,
    parse_colour, parse_event_kind, parse_hit_object, parse_timing_point, parse_video,
    timing_point_of, video_of,
};
use crate::beatmap::sections::{
    Colour, Colours, Difficulty, DifficultyModel, Editor, EditorModel, Events, EventsModel, General,
    GeneralModel, HitObjectModel, HitObjects, Metadata, MetadataModel, TimingPointModel,
    TimingPoints,
};
use crate::beatmap::text::{is_name, latin1, text_of, views};
use vstd::prelude::*;
use vstd::string::StringSliceAdditionalSpecFns;

verus! {

/// A section while it is being read, with what its lines have given so far.
#[derive(Debug, Clone, PartialEq, Eq)]
pub enum Section {
    General(General),
    Editor(Editor),
    Metadata(Metadata),
    Difficulty(Difficulty),
    Events(Events),
    TimingPoints(TimingPoints),
    Colours(Colours),
    HitObjects(HitObjects),
}

/// What a [`Section`] holds.
pub enum SectionModel {
    General(GeneralModel),
    Editor(EditorModel),
    Metadata(MetadataModel),
    Difficulty(DifficultyModel),
    Events(EventsModel),
    TimingPoints(Seq<TimingPointModel>),
    Colours(Seq<Colour>),
    HitObjects(Seq<HitObjectModel>),
}

impl DeepView for Section {
    type V = SectionModel;

    open spec fn deep_view(&self) -> SectionModel {
        match self {
            Section::General(s) => SectionModel::General(s@),
            Section::Editor(s) => SectionModel::Editor(s@),
            Section::Metadata(s) => SectionModel::Metadata(s@),
            Section::Difficulty(s) => SectionModel::Difficulty(s@),
            Section::Events(s) => SectionModel::Events(s@),
            Section::TimingPoints(s) => SectionModel::TimingPoints(s.deep_view()),
            Section::Colours(s) => SectionModel::Colours(s.deep_view()),
            Section::HitObjects(s) => SectionModel::HitObjects(s.deep_view()),
        }
    }
}

impl View for Section {
    type V = SectionModel;

    open spec fn view(&self) -> SectionModel {
        self.deep_view()
    }
}

/// The section that a header names. Names are matched letter for letter.
pub open spec fn section_named(name: Seq<u8>) -> Option<SectionKind> {
    if name == "General".spec_bytes() {
        Some(SectionKind::General)
    } else if name == "Editor".spec_bytes() {
        Some(SectionKind::Editor)
    } else if name == "Metadata".spec_bytes() {
        Some(SectionKind::Metadata)
    } else if name == "Difficulty".spec_bytes() {
        Some(SectionKind::Difficulty)
    } else if name == "Events".spec_bytes() {
        Some(SectionKind::Events)
    } else if name == "TimingPoints".spec_bytes() {
        Some(SectionKind::TimingPoints)
    } else if name == "Colours".spec_bytes() {
        Some(SectionKind::Colours)
    } else if name == "HitObjects".spec_bytes() {
        Some(SectionKind::HitObjects)
    } else {
        None
    }
}

/// Whether the lines of a section are `key: value` pairs; those of the other
/// sections are records.
pub open spec fn is_keyed(kind: SectionKind) -> bool {
    kind is General || kind is Editor || kind is Metadata || kind is Difficulty
}

impl SectionModel {
    /// Which section this is.
    pub open spec fn kind(self) -> SectionKind {
        match self {
            SectionModel::General(_) => SectionKind::General,
            SectionModel::Editor(_) => SectionKind::Editor,
            SectionModel::Metadata(_) => SectionKind::Metadata,
            SectionModel::Difficulty(_) => SectionKind::Difficulty,
            SectionModel::Events(_) => SectionKind::Events,
            SectionModel::TimingPoints(_) => SectionKind::TimingPoints,
            SectionModel::Colours(_) => SectionKind::Colours,
            SectionModel::HitObjects(_) => SectionKind::HitObjects,
        }
    }

    /// The section of the kind `kind` as its header leaves it: no field set
    /// and no record read.
    pub open spec fn fresh(kind: SectionKind) -> SectionModel {
        match kind {
            SectionKind::General => SectionModel::General(GeneralModel::empty()),
            SectionKind::Editor => SectionModel::Editor(EditorModel::empty()),
            SectionKind::Metadata => SectionModel::Metadata(MetadataModel::empty()),
            SectionKind::Difficulty => SectionModel::Difficulty(DifficultyModel::empty()),
            SectionKind::Events => SectionModel::Events(EventsModel::empty()),
            SectionKind::TimingPoints => SectionModel::TimingPoints(Seq::empty()),
            SectionKind::Colours => SectionModel::Colours(Seq::empty()),
            SectionKind::HitObjects => SectionModel::HitObjects(Seq::empty()),
        }
    }

    /// Whether `key` names a field of this section. No key does in a section
    /// of records.
    pub open spec fn knows(self, key: Seq<u8>) -> bool {
        match self {
            SectionModel::General(_) => GeneralModel::known(key),
            SectionModel::Editor(_) => EditorModel::known(key),
            SectionModel::Metadata(_) => MetadataModel::known(key),
            SectionModel::Difficulty(_) => DifficultyModel::known(key),
            _ => false,
        }
    }

    /// The error for a value that cannot be read under `key`.
    pub open spec fn invalid(self, key: Seq<u8>, value: Seq<u8>) -> ErrorModel {
        ErrorModel::InvalidFieldValue(self.kind(), FieldModel::Key(latin1(key)), latin1(value))
    }

    /// The section after the line `key: value`. In a section of fields the
    /// field that `key` names is set, or the value is refused; a key that
    /// names no field changes nothing, and neither does any line in a
    /// section of records.
    pub open spec fn assign(self, key: Seq<u8>, value: Seq<u8>) -> Result<
        SectionModel,
        ErrorModel,
    > {
        match self {
            SectionModel::General(s) => match s.assign(key, value) {
                Some(t) => Ok(SectionModel::General(t)),
                None => Err(self.invalid(key, value)),
            },
            SectionModel::Editor(s) => match s.assign(key, value) {
                Some(t) => Ok(SectionModel::Editor(t)),
                None => Err(self.invalid(key, value)),
            },
            SectionModel::Metadata(s) => match s.assign(key, value) {
                Some(t) => Ok(SectionModel::Metadata(t)),
                None => Err(self.invalid(key, value)),
            },
            SectionModel::Difficulty(s) => match s.assign(key, value) {
                Some(t) => Ok(SectionModel::Difficulty(t)),
                None => Err(self.invalid(key, value)),
            },
            _ => Ok(self),
        }
    }

    /// The section after a line with the fields `fields`. In a section of
    /// records the record that the fields write is added at the end; an
    /// event of no known kind and a hit object of no known kind are passed
    /// over. A section of fields takes no record.
    pub open spec fn with_record(self, fields: Seq<Seq<u8>>) -> Result<SectionModel, ErrorModel> {
        match self {
            SectionModel::Events(s) => match event_kind(fields[0]) {
                Some(RecordKind::Background) => match background_of(fields) {
                    Ok(record) => Ok(
                        SectionModel::Events(
                            EventsModel { backgrounds: s.backgrounds.push(record), ..s },
                        ),
                    ),
                    Err(error) => Err(error),
                },
                Some(RecordKind::Video) => match video_of(fields) {
                    Ok(record) => Ok(
                        SectionModel::Events(EventsModel { videos: s.videos.push(record), ..s }),
                    ),
                    Err(error) => Err(error),
                },
                Some(RecordKind::Break) => match break_of(fields) {
                    Ok(record) => Ok(
                        SectionModel::Events(EventsModel { breaks: s.breaks.push(record), ..s }),
                    ),
                    Err(error) => Err(error),
                },
                _ => Ok(self),
            },
            SectionModel::TimingPoints(s) => match timing_point_of(fields) {
                Ok(record) => Ok(SectionModel::TimingPoints(s.push(record))),
                Err(error) => Err(error),
            },
            SectionModel::Colours(s) => match colour_of(fields) {
                Ok(record) => Ok(SectionModel::Colours(s.push(record))),
                Err(error) => Err(error),
            },
            SectionModel::HitObjects(s) => match hit_object_of(fields) {
                Ok(Some(record)) => Ok(SectionModel::HitObjects(s.push(record))),
                Ok(None) => Ok(self),
                Err(error) => Err(error),
            },
            _ => Ok(self),
        }
    }
}

/// A key that the section does not know leaves the section as it is, and is
/// no error, whatever the value.
pub proof fn lemma_unknown_key(section: SectionModel, key: Seq<u8>, value: Seq<u8>)
    requires
        !section.knows(key),
    ensures
        section.assign(key, value) == Ok::<SectionModel, ErrorModel>(section),
{
}

/// The only errors that a line of records gives are those of a missing
/// field and of a field that cannot be read.
pub proof fn lemma_record_errors(section: SectionModel, fields: Seq<Seq<u8>>)
    ensures
        section.with_record(fields) matches Err(e) ==> e is MissingField || e is InvalidFieldValue,
{
    lemma_first_error_kind(RecordKind::Background, fields, 1, 5);
    lemma_first_error_kind(RecordKind::Video, fields, 1, 5);
    lemma_first_error_kind(RecordKind::Break, fields, 1, 3);
    lemma_first_error_kind(RecordKind::TimingPoint, fields, 0, 8);
    lemma_first_error_kind(RecordKind::Colour, fields, 0, 3);
    lemma_first_error_kind(RecordKind::HitObject, fields, 0, 4);
}

/// A line of a section of records is passed over, and is no error, where
/// the section is `[Events]` and its first field names no kind of event, or
/// the section is `[HitObjects]`, its first three fields can be read and its
/// fourth names no kind of hit object.
pub open spec fn passes_over(section: SectionModel, fields: Seq<Seq<u8>>) -> bool {
    match section {
        SectionModel::Events(_) => event_kind(fields[0]) is None,
        SectionModel::HitObjects(_) => first_error(RecordKind::HitObject, fields, 0, 4) is None
            && hit_object_kind(fields[3]) is None,
        _ => false,
    }
}

/// The kind of record that a line of the section holds, for a line that is
/// not passed over.
pub open spec fn record_kind(section: SectionModel, fields: Seq<Seq<u8>>) -> RecordKind {
    match section {
        SectionModel::Events(_) => event_kind(fields[0])->0,
        SectionModel::TimingPoints(_) => RecordKind::TimingPoint,
        SectionModel::Colours(_) => RecordKind::Colour,
        _ => RecordKind::HitObject,
    }
}

/// In a section of records, a line with fewer fields than its kind of
/// record needs is an error, that of a missing field or of a field that
/// cannot be read, and so adds no record. The lines that are passed over are
/// left out: they are no error whatever their length.
pub proof fn lemma_short_record_fails(section: SectionModel, fields: Seq<Seq<u8>>)
    requires
        !is_keyed(section.kind()),
        !passes_over(section, fields),
        0 < fields.len() < arity(record_kind(section, fields)),
    ensures
        section.with_record(fields) matches Err(e) && (e is MissingField || e
            is InvalidFieldValue),
{
    let record = record_kind(section, fields);
    match section {
        SectionModel::Events(_) => {
            lemma_short_line_fails(record, fields, 1);
        },
        SectionModel::HitObjects(_) => {
            lemma_short_line_fails(record, fields, 0);
            reveal_with_fuel(first_error, 6);
        },
        _ => {
            lemma_short_line_fails(record, fields, 0);
        },
    }
}

/// The section that the header `[name]` opens.
pub fn section_kind(name: &[u8]) -> (r: Option<SectionKind>)
    ensures
        r == section_named(name@),
{
    if is_name(name, "General") {
        Some(SectionKind::General)
    } else if is_name(name, "Editor") {
        Some(SectionKind::Editor)
    } else if is_name(name, "Metadata") {
        Some(SectionKind::Metadata)
    } else if is_name(name, "Difficulty") {
        Some(SectionKind::Difficulty)
    } else if is_name(name, "Events") {
        Some(SectionKind::Events)
    } else if is_name(name, "TimingPoints") {
        Some(SectionKind::TimingPoints)
    } else if is_name(name, "Colours") {
        Some(SectionKind::Colours)
    } else if is_name(name, "HitObjects") {
        Some(SectionKind::HitObjects)
    } else {
        None
    }
}

impl Section {
    /// A section of the kind `kind` with nothing read into it.
    pub fn open(kind: SectionKind) -> (r: Section)
        ensures
            r@ == SectionModel::fresh(kind),
    {
        match kind {
            SectionKind::General => Section::General(General::default()),
            SectionKind::Editor => Section::Editor(Editor::default()),
            SectionKind::Metadata => Section::Metadata(Metadata::default()),
            SectionKind::Difficulty => Section::Difficulty(Difficulty::default()),
            SectionKind::Events => Section::Events(Events::default()),
            SectionKind::TimingPoints => {
                let points: TimingPoints = Vec::new();
                assert(points.deep_view() =~= Seq::empty());
                Section::TimingPoints(points)
            },
            SectionKind::Colours => {
                let colours: Colours = Vec::new();
                assert(colours.deep_view() =~= Seq::empty());
                Section::Colours(colours)
            },
            SectionKind::HitObjects => {
                let objects: HitObjects = Vec::new();
                assert(objects.deep_view() =~= Seq::empty());
                Section::HitObjects(objects)
            },
        }
    }

    /// Which section this is.
    pub fn kind(&self) -> (r: SectionKind)
        ensures
            r == self@.kind(),
    {
        match self {
            Section::General(_) => SectionKind::General,
            Section::Editor(_) => SectionKind::Editor,
            Section::Metadata(_) => SectionKind::Metadata,
            Section::Difficulty(_) => SectionKind::Difficulty,
            Section::Events(_) => SectionKind::Events,
            Section::TimingPoints(_) => SectionKind::TimingPoints,
            Section::Colours(_) => SectionKind::Colours,
            Section::HitObjects(_) => SectionKind::HitObjects,
        }
    }

    /// Takes the line `key: value` into the section. A key that the section
    /// does not know leaves it as it is, and is no error.
    pub fn assign(&mut self, key: &[u8], value: &[u8]) -> (r: Result<(), Error>)
        ensures
            match old(self)@.assign(key@, value@) {
                Ok(section) => r is Ok && final(self)@ == section,
                Err(error) => r matches Err(e) && e@ == error && final(self)@ == old(self)@,
            },
            !old(self)@.knows(key@) ==> r is Ok && final(self)@ == old(self)@,
    {
        let kind = self.kind();
        let ok = match self {
            Section::General(s) => s.assign(key, value),
            Section::Editor(s) => s.assign(key, value),
            Section::Metadata(s) => s.assign(key, value),
            Section::Difficulty(s) => s.assign(key, value),
            _ => true,
        };
        if ok {
            Ok(())
        } else {
            Err(Error::InvalidFieldValue(kind, Field::Key(text_of(key)), text_of(value)))
        }
    }

    /// Takes a line of records with the fields `fields` into the section.
    /// Where the line gives an error the section is as it was.
    pub fn add_record(&mut self, fields: &Vec<&[u8]>) -> (r: Result<(), Error>)
        requires
            fields@.len() > 0,
        ensures
            match old(self)@.with_record(views(fields@)) {
                Ok(section) => r is Ok && final(self)@ == section,
                Err(error) => r matches Err(e) && e@ == error && final(self)@ == old(self)@,
            },
    {
        match self {
            Section::Events(s) => {
                match parse_event_kind(fields[0]) {
                    Some(RecordKind::Background) => {
                        let record = parse_background(fields)?;
                        let ghost before = s.backgrounds.deep_view();
                        s.backgrounds.push(record);
                        assert(s.backgrounds.deep_view() =~= before.push(record@));
                    },
                    Some(RecordKind::Video) => {
                        let record = parse_video(fields)?;
                        let ghost before = s.videos.deep_view();
                        s.videos.push(record);
                        assert(s.videos.deep_view() =~= before.push(record@));
                    },
                    Some(RecordKind::Break) => {
                        let record = parse_break(fields)?;
                        let ghost before = s.breaks.deep_view();
                        s.breaks.push(record);
                        assert(s.breaks.deep_view() =~= before.push(record@));
                    },
                    _ => {},
                }
            },
            Section::TimingPoints(s) => {
                let record = parse_timing_point(fields)?;
                let ghost before = s.deep_view();
                s.push(record);
                assert(s.deep_view() =~= before.push(record@));
            },
            Section::Colours(s) => {
                let record = parse_colour(fields)?;
                let ghost before = s.deep_view();
                s.push(record);
                assert(s.deep_view() =~= before.push(record@));
            },
            Section::HitObjects(s) => {
                match parse_hit_object(fields)? {
                    Some(record) => {
                        let ghost before = s.deep_view();
                        s.push(record);
                        assert(s.deep_view() =~= before.push(record@));
                    },
                    None => {},
                }
            },
            _ => {},
        }
        Ok(())
    }
}

} // verus!
