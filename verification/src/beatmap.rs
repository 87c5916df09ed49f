//! The beatmap document and the parser that reads it.

pub mod dispatch;
pub mod encode;
pub mod error;
pub mod events;
pub mod number;
pub mod parser;
pub mod records;
pub mod scanner;
pub mod sections;
pub mod text;

pub use crate::beatmap::error::Error;

use crate::beatmap::dispatch::SectionModel;
use crate::beatmap::error::{outcome, SectionKind};
use crate::beatmap::parser::{parse_document, Parser};
use crate::beatmap::sections::{
    Colour, Colours, Difficulty, DifficultyModel, Editor, EditorModel, Events, EventsModel, General,
    GeneralModel, HitObjectModel, HitObjects, Metadata, MetadataModel, TimingPointModel,
    TimingPoints,
};
use vstd::prelude::*;

verus! {

/// A beatmap as its file gives it: the version of the format and the eight
/// sections. A section is `None` unless the file has its header.
#[derive(Debug, Clone, PartialEq, Eq)]
pub struct Beatmap {
    pub version: Option<usize>,
    pub general: Option<General>,
    pub editor: Option<Editor>,
    pub metadata: Option<Metadata>,
    pub difficulty: Option<Difficulty>,
    pub events: Option<Events>,
    pub timing_points: Option<TimingPoints>,
    pub colours: Option<Colours>,
    pub hit_objects: Option<HitObjects>,
}

/// The document under the name of its file format.
pub type Osu = Beatmap;

/// What a [`Beatmap`] holds.
pub struct BeatmapModel {
    pub version: Option<usize>,
    pub general: Option<GeneralModel>,
    pub editor: Option<EditorModel>,
    pub metadata: Option<MetadataModel>,
    pub difficulty: Option<DifficultyModel>,
    pub events: Option<EventsModel>,
    pub timing_points: Option<Seq<TimingPointModel>>,
    pub colours: Option<Seq<Colour>>,
    pub hit_objects: Option<Seq<HitObjectModel>>,
}

impl DeepView for Beatmap {
    type V = BeatmapModel;

    open spec fn deep_view(&self) -> BeatmapModel {
        BeatmapModel {
            version: self.version,
            general: self.general.deep_view(),
            editor: self.editor.deep_view(),
            metadata: self.metadata.deep_view(),
            difficulty: self.difficulty.deep_view(),
            events: self.events.deep_view(),
            timing_points: self.timing_points.deep_view(),
            colours: self.colours.deep_view(),
            hit_objects: self.hit_objects.deep_view(),
        }
    }
}

impl View for Beatmap {
    type V = BeatmapModel;

    open spec fn view(&self) -> BeatmapModel {
        self.deep_view()
    }
}

impl BeatmapModel {
    /// The document with no version and no section.
    pub open spec fn empty() -> BeatmapModel {
        BeatmapModel {
            version: None,
            general: None,
            editor: None,
            metadata: None,
            difficulty: None,
            events: None,
            timing_points: None,
            colours: None,
            hit_objects: None,
        }
    }

    /// The section of the kind `kind`, if the document has it.
    pub open spec fn section(self, kind: SectionKind) -> Option<SectionModel> {
        match kind {
            SectionKind::General => match self.general {
                Some(s) => Some(SectionModel::General(s)),
                None => None,
            },
            SectionKind::Editor => match self.editor {
                Some(s) => Some(SectionModel::Editor(s)),
                None => None,
            },
            SectionKind::Metadata => match self.metadata {
                Some(s) => Some(SectionModel::Metadata(s)),
                None => None,
            },
            SectionKind::Difficulty => match self.difficulty {
                Some(s) => Some(SectionModel::Difficulty(s)),
                None => None,
            },
            SectionKind::Events => match self.events {
                Some(s) => Some(SectionModel::Events(s)),
                None => None,
            },
            SectionKind::TimingPoints => match self.timing_points {
                Some(s) => Some(SectionModel::TimingPoints(s)),
                None => None,
            },
            SectionKind::Colours => match self.colours {
                Some(s) => Some(SectionModel::Colours(s)),
                None => None,
            },
            SectionKind::HitObjects => match self.hit_objects {
                Some(s) => Some(SectionModel::HitObjects(s)),
                None => None,
            },
        }
    }

    /// The document after `section` has been written into it: the section
    /// takes its place, whatever stood there, and nothing else changes.
    pub open spec fn with_section(self, section: SectionModel) -> BeatmapModel {
        match section {
            SectionModel::General(s) => BeatmapModel { general: Some(s), ..self },
            SectionModel::Editor(s) => BeatmapModel { editor: Some(s), ..self },
            SectionModel::Metadata(s) => BeatmapModel { metadata: Some(s), ..self },
            SectionModel::Difficulty(s) => BeatmapModel { difficulty: Some(s), ..self },
            SectionModel::Events(s) => BeatmapModel { events: Some(s), ..self },
            SectionModel::TimingPoints(s) => BeatmapModel { timing_points: Some(s), ..self },
            SectionModel::Colours(s) => BeatmapModel { colours: Some(s), ..self },
            SectionModel::HitObjects(s) => BeatmapModel { hit_objects: Some(s), ..self },
        }
    }
}

impl Default for Beatmap {
    fn default() -> (r: Self)
        ensures
            r@ == BeatmapModel::empty(),
    {
        Beatmap {
            version: None,
            general: None,
            editor: None,
            metadata: None,
            difficulty: None,
            events: None,
            timing_points: None,
            colours: None,
            hit_objects: None,
        }
    }
}

impl Beatmap {
    /// A document with no version and no section.
    pub fn new() -> (r: Self)
        ensures
            r@ == BeatmapModel::empty(),
    {
        Beatmap::default()
    }

    /// Reads the text of a beatmap file. The text is taken byte by byte, in
    /// its UTF-8 encoding, and the outcome is what [`parse_document`] says of
    /// those bytes: the document, or the first error.
    pub fn load_from_string(string: String) -> (r: Result<Beatmap, Error>)
        ensures
            loads(string@, r),
    {
        let parser = Parser::new(string.as_str().as_bytes());
        parser.parse()
    }
}

/// What `load_from_string` owes for the text `text`: the outcome `r` is the
/// one that the bytes of the text have.
pub open spec fn loads(text: Seq<char>, r: Result<Beatmap, Error>) -> bool {
    outcome(r) == parse_document(vstd::utf8::encode_utf8(text))
}

/// Reading the same text twice gives the same outcome: two results that
/// `load_from_string` can give for one text hold the same document, or the
/// same error.
pub proof fn lemma_load_is_repeatable(
    text: Seq<char>,
    first: Result<Beatmap, Error>,
    second: Result<Beatmap, Error>,
)
    requires
        loads(text, first),
        loads(text, second),
    ensures
        outcome(first) == outcome(second),
{
}

} // verus!
