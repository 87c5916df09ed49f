//! The sections of a beatmap, and how a `key: value` line fills the four
//! that are made of named fields.

use crate::beatmap::events::{Background, BackgroundModel, Break, BreakModel, Video, VideoModel};
use crate::beatmap::number::{
    Decimal, is_decimal, isize_value, parse_isize, parse_usize, usize_value,
};
use crate::beatmap::text::{is_name, latin1, text_of};
use vstd::prelude::*;
use vstd::string::StringSliceAdditionalSpecFns;

verus! {

/// The `[General]` section: how the beatmap is set up.
///
/// A field is `None` until a line of the section names its key.
#[derive(Debug, Clone, PartialEq, Eq)]
pub struct General {
    pub audio_filename: Option<String>,
    pub audio_lead_in: Option<isize>,
    pub audio_hash: Option<String>,
    pub preview_time: Option<isize>,
    pub countdown: Option<usize>,
    pub sample_set: Option<String>,
    pub stack_leniency: Option<Decimal>,
    pub mode: Option<usize>,
    pub letter_box_in_breaks: Option<bool>,
    pub story_fire_in_front: Option<bool>,
    pub use_skin_sprites: Option<bool>,
    pub always_show_playfield: Option<bool>,
    pub overlay_position: Option<String>,
    pub skin_preference: Option<String>,
    pub epilepsy_warning: Option<bool>,
    pub countdown_offset: Option<isize>,
    pub special_style: Option<bool>,
    pub widescreen_storyboard: Option<bool>,
    pub samples_match_playback_rate: Option<bool>,
}

/// What a [`General`] holds.
pub struct GeneralModel {
    pub audio_filename: Option<Seq<char>>,
    pub audio_lead_in: Option<isize>,
    pub audio_hash: Option<Seq<char>>,
    pub preview_time: Option<isize>,
    pub countdown: Option<usize>,
    pub sample_set: Option<Seq<char>>,
    pub stack_leniency: Option<Seq<u8>>,
    pub mode: Option<usize>,
    pub letter_box_in_breaks: Option<bool>,
    pub story_fire_in_front: Option<bool>,
    pub use_skin_sprites: Option<bool>,
    pub always_show_playfield: Option<bool>,
    pub overlay_position: Option<Seq<char>>,
    pub skin_preference: Option<Seq<char>>,
    pub epilepsy_warning: Option<bool>,
    pub countdown_offset: Option<isize>,
    pub special_style: Option<bool>,
    pub widescreen_storyboard: Option<bool>,
    pub samples_match_playback_rate: Option<bool>,
}

impl DeepView for General {
    type V = GeneralModel;

    open spec fn deep_view(&self) -> GeneralModel {
        GeneralModel {
            audio_filename: self.audio_filename.deep_view(),
            audio_lead_in: self.audio_lead_in.deep_view(),
            audio_hash: self.audio_hash.deep_view(),
            preview_time: self.preview_time.deep_view(),
            countdown: self.countdown.deep_view(),
            sample_set: self.sample_set.deep_view(),
            stack_leniency: self.stack_leniency.deep_view(),
            mode: self.mode.deep_view(),
            letter_box_in_breaks: self.letter_box_in_breaks.deep_view(),
            story_fire_in_front: self.story_fire_in_front.deep_view(),
            use_skin_sprites: self.use_skin_sprites.deep_view(),
            always_show_playfield: self.always_show_playfield.deep_view(),
            overlay_position: self.overlay_position.deep_view(),
            skin_preference: self.skin_preference.deep_view(),
            epilepsy_warning: self.epilepsy_warning.deep_view(),
            countdown_offset: self.countdown_offset.deep_view(),
            special_style: self.special_style.deep_view(),
            widescreen_storyboard: self.widescreen_storyboard.deep_view(),
            samples_match_playback_rate: self.samples_match_playback_rate.deep_view(),
        }
    }
}

impl View for General {
    type V = GeneralModel;

    open spec fn view(&self) -> GeneralModel {
        self.deep_view()
    }
}

impl GeneralModel {
    /// The section with no field set.
    pub open spec fn empty() -> GeneralModel {
        GeneralModel {
            audio_filename: None,
            audio_lead_in: None,
            audio_hash: None,
            preview_time: None,
            countdown: None,
            sample_set: None,
            stack_leniency: None,
            mode: None,
            letter_box_in_breaks: None,
            story_fire_in_front: None,
            use_skin_sprites: None,
            always_show_playfield: None,
            overlay_position: None,
            skin_preference: None,
            epilepsy_warning: None,
            countdown_offset: None,
            special_style: None,
            widescreen_storyboard: None,
            samples_match_playback_rate: None,
        }
    }

    /// Whether `key` names a field of this section.
    pub open spec fn known(key: Seq<u8>) -> bool {
        ||| key == "AudioFilename".spec_bytes()
        ||| key == "AudioLeadIn".spec_bytes()
        ||| key == "AudioHash".spec_bytes()
        ||| key == "PreviewTime".spec_bytes()
        ||| key == "Countdown".spec_bytes()
        ||| key == "SampleSet".spec_bytes()
        ||| key == "StackLeniency".spec_bytes()
        ||| key == "Mode".spec_bytes()
        ||| key == "LetterboxInBreaks".spec_bytes()
        ||| key == "StoryFireInFront".spec_bytes()
        ||| key == "UseSkinSprites".spec_bytes()
        ||| key == "AlwaysShowPlayfield".spec_bytes()
        ||| key == "OverlayPosition".spec_bytes()
        ||| key == "SkinPreference".spec_bytes()
        ||| key == "EpilepsyWarning".spec_bytes()
        ||| key == "CountdownOffset".spec_bytes()
        ||| key == "SpecialStyle".spec_bytes()
        ||| key == "WidescreenStoryboard".spec_bytes()
        ||| key == "samples_match_playback_rate".spec_bytes()
    }

    /// The section after the line `key: value`: the field that `key` names
    /// holds what `value` writes, and a key that names none changes nothing.
    /// `None` where `value` does not write a value of the field's type.
    pub open spec fn assign(self, key: Seq<u8>, value: Seq<u8>) -> Option<GeneralModel> {
        if key == "AudioFilename".spec_bytes() {
            Some(GeneralModel { audio_filename: Some(latin1(value)), ..self })
        } else if key == "AudioLeadIn".spec_bytes() {
            match isize_value(value) {
                Some(v) => Some(GeneralModel { audio_lead_in: Some(v), ..self }),
                None => None,
            }
        } else if key == "AudioHash".spec_bytes() {
            Some(GeneralModel { audio_hash: Some(latin1(value)), ..self })
        } else if key == "PreviewTime".spec_bytes() {
            match isize_value(value) {
                Some(v) => Some(GeneralModel { preview_time: Some(v), ..self }),
                None => None,
            }
        } else if key == "Countdown".spec_bytes() {
            match usize_value(value) {
                Some(v) => Some(GeneralModel { countdown: Some(v), ..self }),
                None => None,
            }
        } else if key == "SampleSet".spec_bytes() {
            Some(GeneralModel { sample_set: Some(latin1(value)), ..self })
        } else if key == "StackLeniency".spec_bytes() {
            if is_decimal(value) {
                Some(GeneralModel { stack_leniency: Some(value), ..self })
            } else {
                None
            }
        } else if key == "Mode".spec_bytes() {
            match usize_value(value) {
                Some(v) => Some(GeneralModel { mode: Some(v), ..self }),
                None => None,
            }
        } else if key == "LetterboxInBreaks".spec_bytes() {
            match usize_value(value) {
                Some(v) => Some(GeneralModel { letter_box_in_breaks: Some(v != 0), ..self }),
                None => None,
            }
        } else if key == "StoryFireInFront".spec_bytes() {
            match usize_value(value) {
                Some(v) => Some(GeneralModel { story_fire_in_front: Some(v != 0), ..self }),
                None => None,
            }
        } else if key == "UseSkinSprites".spec_bytes() {
            match usize_value(value) {
                Some(v) => Some(GeneralModel { use_skin_sprites: Some(v != 0), ..self }),
                None => None,
            }
        } else if key == "AlwaysShowPlayfield".spec_bytes() {
            match usize_value(value) {
                Some(v) => Some(GeneralModel { always_show_playfield: Some(v != 0), ..self }),
                None => None,
            }
        } else if key == "OverlayPosition".spec_bytes() {
            Some(GeneralModel { overlay_position: Some(latin1(value)), ..self })
        } else if key == "SkinPreference".spec_bytes() {
            Some(GeneralModel { skin_preference: Some(latin1(value)), ..self })
        } else if key == "EpilepsyWarning".spec_bytes() {
            match usize_value(value) {
                Some(v) => Some(GeneralModel { epilepsy_warning: Some(v != 0), ..self }),
                None => None,
            }
        } else if key == "CountdownOffset".spec_bytes() {
            match isize_value(value) {
                Some(v) => Some(GeneralModel { countdown_offset: Some(v), ..self }),
                None => None,
            }
        } else if key == "SpecialStyle".spec_bytes() {
            match usize_value(value) {
                Some(v) => Some(GeneralModel { special_style: Some(v != 0), ..self }),
                None => None,
            }
        } else if key == "WidescreenStoryboard".spec_bytes() {
            match usize_value(value) {
                Some(v) => Some(GeneralModel { widescreen_storyboard: Some(v != 0), ..self }),
                None => None,
            }
        } else if key == "samples_match_playback_rate".spec_bytes() {
            match usize_value(value) {
                Some(v) => Some(GeneralModel { samples_match_playback_rate: Some(v != 0), ..self }),
                None => None,
            }
        } else {
            Some(self)
        }
    }
}

impl Default for General {
    fn default() -> (r: Self)
        ensures
            r@ == GeneralModel::empty(),
    {
        General {
            audio_filename: None,
            audio_lead_in: None,
            audio_hash: None,
            preview_time: None,
            countdown: None,
            sample_set: None,
            stack_leniency: None,
            mode: None,
            letter_box_in_breaks: None,
            story_fire_in_front: None,
            use_skin_sprites: None,
            always_show_playfield: None,
            overlay_position: None,
            skin_preference: None,
            epilepsy_warning: None,
            countdown_offset: None,
            special_style: None,
            widescreen_storyboard: None,
            samples_match_playback_rate: None,
        }
    }
}

impl General {
    /// Takes the line `key: value` into the section. Returns whether `value`
    /// could be read; where it could not, the section is as it was.
    pub fn assign(&mut self, key: &[u8], value: &[u8]) -> (ok: bool)
        ensures
            ok == old(self)@.assign(key@, value@) is Some,
            ok ==> final(self)@ == old(self)@.assign(key@, value@)->0,
            !ok ==> *final(self) == *old(self),
            !GeneralModel::known(key@) ==> ok && final(self)@ == old(self)@,
    {
        if is_name(key, "AudioFilename") {
            self.audio_filename = Some(text_of(value));
            true
        } else if is_name(key, "AudioLeadIn") {
            match parse_isize(value) {
                Some(v) => {
                    self.audio_lead_in = Some(v);
                    true
                },
                None => false,
            }
        } else if is_name(key, "AudioHash") {
            self.audio_hash = Some(text_of(value));
            true
        } else if is_name(key, "PreviewTime") {
            match parse_isize(value) {
                Some(v) => {
                    self.preview_time = Some(v);
                    true
                },
                None => false,
            }
        } else if is_name(key, "Countdown") {
            match parse_usize(value) {
                Some(v) => {
                    self.countdown = Some(v);
                    true
                },
                None => false,
            }
        } else if is_name(key, "SampleSet") {
            self.sample_set = Some(text_of(value));
            true
        } else if is_name(key, "StackLeniency") {
            match Decimal::parse(value) {
                Some(v) => {
                    self.stack_leniency = Some(v);
                    true
                },
                None => false,
            }
        } else if is_name(key, "Mode") {
            match parse_usize(value) {
                Some(v) => {
                    self.mode = Some(v);
                    true
                },
                None => false,
            }
        } else if is_name(key, "LetterboxInBreaks") {
            match parse_usize(value) {
                Some(v) => {
                    self.letter_box_in_breaks = Some(v != 0);
                    true
                },
                None => false,
            }
        } else if is_name(key, "StoryFireInFront") {
            match parse_usize(value) {
                Some(v) => {
                    self.story_fire_in_front = Some(v != 0);
                    true
                },
                None => false,
            }
        } else if is_name(key, "UseSkinSprites") {
            match parse_usize(value) {
                Some(v) => {
                    self.use_skin_sprites = Some(v != 0);
                    true
                },
                None => false,
            }
        } else if is_name(key, "AlwaysShowPlayfield") {
            match parse_usize(value) {
                Some(v) => {
                    self.always_show_playfield = Some(v != 0);
                    true
                },
                None => false,
            }
        } else if is_name(key, "OverlayPosition") {
            self.overlay_position = Some(text_of(value));
            true
        } else if is_name(key, "SkinPreference") {
            self.skin_preference = Some(text_of(value));
            true
        } else if is_name(key, "EpilepsyWarning") {
            match parse_usize(value) {
                Some(v) => {
                    self.epilepsy_warning = Some(v != 0);
                    true
                },
                None => false,
            }
        } else if is_name(key, "CountdownOffset") {
            match parse_isize(value) {
                Some(v) => {
                    self.countdown_offset = Some(v);
                    true
                },
                None => false,
            }
        } else if is_name(key, "SpecialStyle") {
            match parse_usize(value) {
                Some(v) => {
                    self.special_style = Some(v != 0);
                    true
                },
                None => false,
            }
        } else if is_name(key, "WidescreenStoryboard") {
            match parse_usize(value) {
                Some(v) => {
                    self.widescreen_storyboard = Some(v != 0);
                    true
                },
                None => false,
            }
        } else if is_name(key, "samples_match_playback_rate") {
            match parse_usize(value) {
                Some(v) => {
                    self.samples_match_playback_rate = Some(v != 0);
                    true
                },
                None => false,
            }
        } else {
            true
        }
    }
}

/// The `[Editor]` section: what the editor remembers.
///
/// A field is `None` until a line of the section names its key.
#[derive(Debug, Clone, PartialEq, Eq)]
pub struct Editor {
    pub bookmarks: Option<String>,
    pub distance_spacing: Option<Decimal>,
    pub beat_divisor: Option<usize>,
    pub grid_size: Option<usize>,
    pub timeline_zoom: Option<Decimal>,
}

/// What a [`Editor`] holds.
pub struct EditorModel {
    pub bookmarks: Option<Seq<char>>,
    pub distance_spacing: Option<Seq<u8>>,
    pub beat_divisor: Option<usize>,
    pub grid_size: Option<usize>,
    pub timeline_zoom: Option<Seq<u8>>,
}

impl DeepView for Editor {
    type V = EditorModel;

    open spec fn deep_view(&self) -> EditorModel {
        EditorModel {
            bookmarks: self.bookmarks.deep_view(),
            distance_spacing: self.distance_spacing.deep_view(),
            beat_divisor: self.beat_divisor.deep_view(),
            grid_size: self.grid_size.deep_view(),
            timeline_zoom: self.timeline_zoom.deep_view(),
        }
    }
}

impl View for Editor {
    type V = EditorModel;

    open spec fn view(&self) -> EditorModel {
        self.deep_view()
    }
}

impl EditorModel {
    /// The section with no field set.
    pub open spec fn empty() -> EditorModel {
        EditorModel {
            bookmarks: None,
            distance_spacing: None,
            beat_divisor: None,
            grid_size: None,
            timeline_zoom: None,
        }
    }

    /// Whether `key` names a field of this section.
    pub open spec fn known(key: Seq<u8>) -> bool {
        ||| key == "Bookmarks".spec_bytes()
        ||| key == "DistanceSpacing".spec_bytes()
        ||| key == "BeatDivisor".spec_bytes()
        ||| key == "GridSize".spec_bytes()
        ||| key == "TimelineZoom".spec_bytes()
    }

    /// The section after the line `key: value`: the field that `key` names
    /// holds what `value` writes, and a key that names none changes nothing.
    /// `None` where `value` does not write a value of the field's type.
    pub open spec fn assign(self, key: Seq<u8>, value: Seq<u8>) -> Option<EditorModel> {
        if key == "Bookmarks".spec_bytes() {
            Some(EditorModel { bookmarks: Some(latin1(value)), ..self })
        } else if key == "DistanceSpacing".spec_bytes() {
            if is_decimal(value) {
                Some(EditorModel { distance_spacing: Some(value), ..self })
            } else {
                None
            }
        } else if key == "BeatDivisor".spec_bytes() {
            match usize_value(value) {
                Some(v) => Some(EditorModel { beat_divisor: Some(v), ..self }),
                None => None,
            }
        } else if key == "GridSize".spec_bytes() {
            match usize_value(value) {
                Some(v) => Some(EditorModel { grid_size: Some(v), ..self }),
                None => None,
            }
        } else if key == "TimelineZoom".spec_bytes() {
            if is_decimal(value) {
                Some(EditorModel { timeline_zoom: Some(value), ..self })
            } else {
                None
            }
        } else {
            Some(self)
        }
    }
}

impl Default for Editor {
    fn default() -> (r: Self)
        ensures
            r@ == EditorModel::empty(),
    {
        Editor {
            bookmarks: None,
            distance_spacing: None,
            beat_divisor: None,
            grid_size: None,
            timeline_zoom: None,
        }
    }
}

impl Editor {
    /// Takes the line `key: value` into the section. Returns whether `value`
    /// could be read; where it could not, the section is as it was.
    pub fn assign(&mut self, key: &[u8], value: &[u8]) -> (ok: bool)
        ensures
            ok == old(self)@.assign(key@, value@) is Some,
            ok ==> final(self)@ == old(self)@.assign(key@, value@)->0,
            !ok ==> *final(self) == *old(self),
            !EditorModel::known(key@) ==> ok && final(self)@ == old(self)@,
    {
        if is_name(key, "Bookmarks") {
            self.bookmarks = Some(text_of(value));
            true
        } else if is_name(key, "DistanceSpacing") {
            match Decimal::parse(value) {
                Some(v) => {
                    self.distance_spacing = Some(v);
                    true
                },
                None => false,
            }
        } else if is_name(key, "BeatDivisor") {
            match parse_usize(value) {
                Some(v) => {
                    self.beat_divisor = Some(v);
                    true
                },
                None => false,
            }
        } else if is_name(key, "GridSize") {
            match parse_usize(value) {
                Some(v) => {
                    self.grid_size = Some(v);
                    true
                },
                None => false,
            }
        } else if is_name(key, "TimelineZoom") {
            match Decimal::parse(value) {
                Some(v) => {
                    self.timeline_zoom = Some(v);
                    true
                },
                None => false,
            }
        } else {
            true
        }
    }
}

/// The `[Metadata]` section: what the beatmap is called and who made it.
///
/// A field is `None` until a line of the section names its key.
#[derive(Debug, Clone, PartialEq, Eq)]
pub struct Metadata {
    pub title: Option<String>,
    pub title_unicode: Option<String>,
    pub artist: Option<String>,
    pub artist_unicode: Option<String>,
    pub creator: Option<String>,
    pub version: Option<String>,
    pub source: Option<String>,
    pub tags: Option<String>,
    pub beatmap_id: Option<usize>,
    pub beatmap_set_id: Option<usize>,
}

/// What a [`Metadata`] holds.
pub struct MetadataModel {
    pub title: Option<Seq<char>>,
    pub title_unicode: Option<Seq<char>>,
    pub artist: Option<Seq<char>>,
    pub artist_unicode: Option<Seq<char>>,
    pub creator: Option<Seq<char>>,
    pub version: Option<Seq<char>>,
    pub source: Option<Seq<char>>,
    pub tags: Option<Seq<char>>,
    pub beatmap_id: Option<usize>,
    pub beatmap_set_id: Option<usize>,
}

impl DeepView for Metadata {
    type V = MetadataModel;

    open spec fn deep_view(&self) -> MetadataModel {
        MetadataModel {
            title: self.title.deep_view(),
            title_unicode: self.title_unicode.deep_view(),
            artist: self.artist.deep_view(),
            artist_unicode: self.artist_unicode.deep_view(),
            creator: self.creator.deep_view(),
            version: self.version.deep_view(),
            source: self.source.deep_view(),
            tags: self.tags.deep_view(),
            beatmap_id: self.beatmap_id.deep_view(),
            beatmap_set_id: self.beatmap_set_id.deep_view(),
        }
    }
}

impl View for Metadata {
    type V = MetadataModel;

    open spec fn view(&self) -> MetadataModel {
        self.deep_view()
    }
}

impl MetadataModel {
    /// The section with no field set.
    pub open spec fn empty() -> MetadataModel {
        MetadataModel {
            title: None,
            title_unicode: None,
            artist: None,
            artist_unicode: None,
            creator: None,
            version: None,
            source: None,
            tags: None,
            beatmap_id: None,
            beatmap_set_id: None,
        }
    }

    /// Whether `key` names a field of this section.
    pub open spec fn known(key: Seq<u8>) -> bool {
        ||| key == "Title".spec_bytes()
        ||| key == "TitleUnicode".spec_bytes()
        ||| key == "Artist".spec_bytes()
        ||| key == "ArtistUnicode".spec_bytes()
        ||| key == "Creator".spec_bytes()
        ||| key == "Version".spec_bytes()
        ||| key == "Source".spec_bytes()
        ||| key == "Tags".spec_bytes()
        ||| key == "BeatmapID".spec_bytes()
        ||| key == "BeatmapSetID".spec_bytes()
    }

    /// The section after the line `key: value`: the field that `key` names
    /// holds what `value` writes, and a key that names none changes nothing.
    /// `None` where `value` does not write a value of the field's type.
    pub open spec fn assign(self, key: Seq<u8>, value: Seq<u8>) -> Option<MetadataModel> {
        if key == "Title".spec_bytes() {
            Some(MetadataModel { title: Some(latin1(value)), ..self })
        } else if key == "TitleUnicode".spec_bytes() {
            Some(MetadataModel { title_unicode: Some(latin1(value)), ..self })
        } else if key == "Artist".spec_bytes() {
            Some(MetadataModel { artist: Some(latin1(value)), ..self })
        } else if key == "ArtistUnicode".spec_bytes() {
            Some(MetadataModel { artist_unicode: Some(latin1(value)), ..self })
        } else if key == "Creator".spec_bytes() {
            Some(MetadataModel { creator: Some(latin1(value)), ..self })
        } else if key == "Version".spec_bytes() {
            Some(MetadataModel { version: Some(latin1(value)), ..self })
        } else if key == "Source".spec_bytes() {
            Some(MetadataModel { source: Some(latin1(value)), ..self })
        } else if key == "Tags".spec_bytes() {
            Some(MetadataModel { tags: Some(latin1(value)), ..self })
        } else if key == "BeatmapID".spec_bytes() {
            match usize_value(value) {
                Some(v) => Some(MetadataModel { beatmap_id: Some(v), ..self }),
                None => None,
            }
        } else if key == "BeatmapSetID".spec_bytes() {
            match usize_value(value) {
                Some(v) => Some(MetadataModel { beatmap_set_id: Some(v), ..self }),
                None => None,
            }
        } else {
            Some(self)
        }
    }
}

impl Default for Metadata {
    fn default() -> (r: Self)
        ensures
            r@ == MetadataModel::empty(),
    {
        Metadata {
            title: None,
            title_unicode: None,
            artist: None,
            artist_unicode: None,
            creator: None,
            version: None,
            source: None,
            tags: None,
            beatmap_id: None,
            beatmap_set_id: None,
        }
    }
}

impl Metadata {
    /// Takes the line `key: value` into the section. Returns whether `value`
    /// could be read; where it could not, the section is as it was.
    pub fn assign(&mut self, key: &[u8], value: &[u8]) -> (ok: bool)
        ensures
            ok == old(self)@.assign(key@, value@) is Some,
            ok ==> final(self)@ == old(self)@.assign(key@, value@)->0,
            !ok ==> *final(self) == *old(self),
            !MetadataModel::known(key@) ==> ok && final(self)@ == old(self)@,
    {
        if is_name(key, "Title") {
            self.title = Some(text_of(value));
            true
        } else if is_name(key, "TitleUnicode") {
            self.title_unicode = Some(text_of(value));
            true
        } else if is_name(key, "Artist") {
            self.artist = Some(text_of(value));
            true
        } else if is_name(key, "ArtistUnicode") {
            self.artist_unicode = Some(text_of(value));
            true
        } else if is_name(key, "Creator") {
            self.creator = Some(text_of(value));
            true
        } else if is_name(key, "Version") {
            self.version = Some(text_of(value));
            true
        } else if is_name(key, "Source") {
            self.source = Some(text_of(value));
            true
        } else if is_name(key, "Tags") {
            self.tags = Some(text_of(value));
            true
        } else if is_name(key, "BeatmapID") {
            match parse_usize(value) {
                Some(v) => {
                    self.beatmap_id = Some(v);
                    true
                },
                None => false,
            }
        } else if is_name(key, "BeatmapSetID") {
            match parse_usize(value) {
                Some(v) => {
                    self.beatmap_set_id = Some(v);
                    true
                },
                None => false,
            }
        } else {
            true
        }
    }
}

/// The `[Difficulty]` section.
///
/// A field is `None` until a line of the section names its key.
#[derive(Debug, Clone, PartialEq, Eq)]
pub struct Difficulty {
    pub hp_drain_rate: Option<Decimal>,
    pub circle_size: Option<Decimal>,
    pub overall_difficulty: Option<Decimal>,
    pub approach_rate: Option<Decimal>,
    pub slider_multiplier: Option<Decimal>,
    pub slider_tick_rate: Option<Decimal>,
}

/// What a [`Difficulty`] holds.
pub struct DifficultyModel {
    pub hp_drain_rate: Option<Seq<u8>>,
    pub circle_size: Option<Seq<u8>>,
    pub overall_difficulty: Option<Seq<u8>>,
    pub approach_rate: Option<Seq<u8>>,
    pub slider_multiplier: Option<Seq<u8>>,
    pub slider_tick_rate: Option<Seq<u8>>,
}

impl DeepView for Difficulty {
    type V = DifficultyModel;

    open spec fn deep_view(&self) -> DifficultyModel {
        DifficultyModel {
            hp_drain_rate: self.hp_drain_rate.deep_view(),
            circle_size: self.circle_size.deep_view(),
            overall_difficulty: self.overall_difficulty.deep_view(),
            approach_rate: self.approach_rate.deep_view(),
            slider_multiplier: self.slider_multiplier.deep_view(),
            slider_tick_rate: self.slider_tick_rate.deep_view(),
        }
    }
}

impl View for Difficulty {
    type V = DifficultyModel;

    open spec fn view(&self) -> DifficultyModel {
        self.deep_view()
    }
}

impl DifficultyModel {
    /// The section with no field set.
    pub open spec fn empty() -> DifficultyModel {
        DifficultyModel {
            hp_drain_rate: None,
            circle_size: None,
            overall_difficulty: None,
            approach_rate: None,
            slider_multiplier: None,
            slider_tick_rate: None,
        }
    }

    /// Whether `key` names a field of this section.
    pub open spec fn known(key: Seq<u8>) -> bool {
        ||| key == "HPDrainRate".spec_bytes()
        ||| key == "CircleSize".spec_bytes()
        ||| key == "OverallDifficulty".spec_bytes()
        ||| key == "ApproachRate".spec_bytes()
        ||| key == "SliderMultiplier".spec_bytes()
        ||| key == "SliderTickRate".spec_bytes()
    }

    /// The section after the line `key: value`: the field that `key` names
    /// holds what `value` writes, and a key that names none changes nothing.
    /// `None` where `value` does not write a value of the field's type.
    pub open spec fn assign(self, key: Seq<u8>, value: Seq<u8>) -> Option<DifficultyModel> {
        if key == "HPDrainRate".spec_bytes() {
            if is_decimal(value) {
                Some(DifficultyModel { hp_drain_rate: Some(value), ..self })
            } else {
                None
            }
        } else if key == "CircleSize".spec_bytes() {
            if is_decimal(value) {
                Some(DifficultyModel { circle_size: Some(value), ..self })
            } else {
                None
            }
        } else if key == "OverallDifficulty".spec_bytes() {
            if is_decimal(value) {
                Some(DifficultyModel { overall_difficulty: Some(value), ..self })
            } else {
                None
            }
        } else if key == "ApproachRate".spec_bytes() {
            if is_decimal(value) {
                Some(DifficultyModel { approach_rate: Some(value), ..self })
            } else {
                None
            }
        } else if key == "SliderMultiplier".spec_bytes() {
            if is_decimal(value) {
                Some(DifficultyModel { slider_multiplier: Some(value), ..self })
            } else {
                None
            }
        } else if key == "SliderTickRate".spec_bytes() {
            if is_decimal(value) {
                Some(DifficultyModel { slider_tick_rate: Some(value), ..self })
            } else {
                None
            }
        } else {
            Some(self)
        }
    }
}

impl Default for Difficulty {
    fn default() -> (r: Self)
        ensures
            r@ == DifficultyModel::empty(),
    {
        Difficulty {
            hp_drain_rate: None,
            circle_size: None,
            overall_difficulty: None,
            approach_rate: None,
            slider_multiplier: None,
            slider_tick_rate: None,
        }
    }
}

impl Difficulty {
    /// Takes the line `key: value` into the section. Returns whether `value`
    /// could be read; where it could not, the section is as it was.
    pub fn assign(&mut self, key: &[u8], value: &[u8]) -> (ok: bool)
        ensures
            ok == old(self)@.assign(key@, value@) is Some,
            ok ==> final(self)@ == old(self)@.assign(key@, value@)->0,
            !ok ==> *final(self) == *old(self),
            !DifficultyModel::known(key@) ==> ok && final(self)@ == old(self)@,
    {
        if is_name(key, "HPDrainRate") {
            match Decimal::parse(value) {
                Some(v) => {
                    self.hp_drain_rate = Some(v);
                    true
                },
                None => false,
            }
        } else if is_name(key, "CircleSize") {
            match Decimal::parse(value) {
                Some(v) => {
                    self.circle_size = Some(v);
                    true
                },
                None => false,
            }
        } else if is_name(key, "OverallDifficulty") {
            match Decimal::parse(value) {
                Some(v) => {
                    self.overall_difficulty = Some(v);
                    true
                },
                None => false,
            }
        } else if is_name(key, "ApproachRate") {
            match Decimal::parse(value) {
                Some(v) => {
                    self.approach_rate = Some(v);
                    true
                },
                None => false,
            }
        } else if is_name(key, "SliderMultiplier") {
            match Decimal::parse(value) {
                Some(v) => {
                    self.slider_multiplier = Some(v);
                    true
                },
                None => false,
            }
        } else if is_name(key, "SliderTickRate") {
            match Decimal::parse(value) {
                Some(v) => {
                    self.slider_tick_rate = Some(v);
                    true
                },
                None => false,
            }
        } else {
            true
        }
    }
}

/// The `[Events]` section: the events of each kind, in the order of their
/// lines.
#[derive(Debug, Clone, PartialEq, Eq)]
pub struct Events {
    pub backgrounds: Vec<Background>,
    pub videos: Vec<Video>,
    pub breaks: Vec<Break>,
}

/// What an [`Events`] holds.
pub struct EventsModel {
    pub backgrounds: Seq<BackgroundModel>,
    pub videos: Seq<VideoModel>,
    pub breaks: Seq<BreakModel>,
}

impl DeepView for Events {
    type V = EventsModel;

    open spec fn deep_view(&self) -> EventsModel {
        EventsModel {
            backgrounds: self.backgrounds.deep_view(),
            videos: self.videos.deep_view(),
            breaks: self.breaks.deep_view(),
        }
    }
}

impl View for Events {
    type V = EventsModel;

    open spec fn view(&self) -> EventsModel {
        self.deep_view()
    }
}

impl EventsModel {
    /// The section with no event.
    pub open spec fn empty() -> EventsModel {
        EventsModel { backgrounds: Seq::empty(), videos: Seq::empty(), breaks: Seq::empty() }
    }
}

impl Default for Events {
    fn default() -> (r: Self)
        ensures
            r@ == EventsModel::empty(),
    {
        let r = Events { backgrounds: Vec::new(), videos: Vec::new(), breaks: Vec::new() };
        assert(r.backgrounds.deep_view() =~= Seq::empty());
        assert(r.videos.deep_view() =~= Seq::empty());
        assert(r.breaks.deep_view() =~= Seq::empty());
        r
    }
}

/// The timing points, in the order of their lines. Where two of them
/// overlap, the later one counts; the list itself keeps them all.
pub type TimingPoints = Vec<TimingPoint>;

/// One line of `[TimingPoints]`:
/// `time,beat_length,meter,sample_set,sample_index,volume,uninherited,effects`.
#[derive(Debug, Default, Clone, PartialEq, Eq)]
pub struct TimingPoint {
    /// Milliseconds from the start of the audio.
    pub time: usize,
    /// Milliseconds per beat; a negative value marks an inherited point.
    pub beat_length: Decimal,
    pub meter: usize,
    pub sample_set: usize,
    pub sample_index: usize,
    pub volume: usize,
    /// Whether the point sets its own tempo: written as a number, true
    /// unless that number is 0.
    pub uninherited: bool,
    pub effects: usize,
}

/// What a [`TimingPoint`] holds.
pub struct TimingPointModel {
    pub time: usize,
    pub beat_length: Seq<u8>,
    pub meter: usize,
    pub sample_set: usize,
    pub sample_index: usize,
    pub volume: usize,
    pub uninherited: bool,
    pub effects: usize,
}

impl DeepView for TimingPoint {
    type V = TimingPointModel;

    open spec fn deep_view(&self) -> TimingPointModel {
        TimingPointModel {
            time: self.time,
            beat_length: self.beat_length@,
            meter: self.meter,
            sample_set: self.sample_set,
            sample_index: self.sample_index,
            volume: self.volume,
            uninherited: self.uninherited,
            effects: self.effects,
        }
    }
}

impl View for TimingPoint {
    type V = TimingPointModel;

    open spec fn view(&self) -> TimingPointModel {
        self.deep_view()
    }
}

/// The combo colours, in the order of their lines.
pub type Colours = Vec<Colour>;

/// One line of `[Colours]`: `ComboN,track,border`.
#[derive(Debug, Default, Clone, Copy, PartialEq, Eq)]
pub struct Colour {
    /// The `N` of `ComboN`.
    pub combo: u8,
    pub slider_track_override: u8,
    pub slider_border: u8,
}

impl DeepView for Colour {
    type V = Colour;

    open spec fn deep_view(&self) -> Colour {
        *self
    }
}

impl View for Colour {
    type V = Colour;

    open spec fn view(&self) -> Colour {
        *self
    }
}

/// The hit objects, in the order of their lines.
pub type HitObjects = Vec<HitObject>;

/// What kind of object a hit object is.
#[derive(Debug, Clone, Copy, PartialEq, Eq)]
pub enum HitObjectKind {
    HitCircle,
    Slider,
    Spinner,
    ManiaHold,
}

impl Default for HitObjectKind {
    fn default() -> (r: Self)
        ensures
            r == HitObjectKind::HitCircle,
    {
        HitObjectKind::HitCircle
    }
}

/// One line of `[HitObjects]`: `x,y,time,kind,hit_sound` and up to two more
/// fields, which are kept as they were written.
#[derive(Debug, Default, Clone, PartialEq, Eq)]
pub struct HitObject {
    pub x: usize,
    pub y: usize,
    /// Milliseconds from the start of the audio.
    pub time: usize,
    pub kind: HitObjectKind,
    pub hit_sound: usize,
    pub object_params: Option<String>,
    pub hit_sample: Option<String>,
}

/// What a [`HitObject`] holds.
pub struct HitObjectModel {
    pub x: usize,
    pub y: usize,
    pub time: usize,
    pub kind: HitObjectKind,
    pub hit_sound: usize,
    pub object_params: Option<Seq<char>>,
    pub hit_sample: Option<Seq<char>>,
}

impl DeepView for HitObject {
    type V = HitObjectModel;

    open spec fn deep_view(&self) -> HitObjectModel {
        HitObjectModel {
            x: self.x,
            y: self.y,
            time: self.time,
            kind: self.kind,
            hit_sound: self.hit_sound,
            object_params: self.object_params.deep_view(),
            hit_sample: self.hit_sample.deep_view(),
        }
    }
}

impl View for HitObject {
    type V = HitObjectModel;

    open spec fn view(&self) -> HitObjectModel {
        self.deep_view()
    }
}

/// A value that is either text or a number.
#[derive(Debug, Clone, PartialEq, Eq)]
pub enum Value {
    Str(String),
    Int(i32),
}

/// What a [`Value`] holds.
pub enum ValueModel {
    Str(Seq<char>),
    Int(i32),
}

impl DeepView for Value {
    type V = ValueModel;

    open spec fn deep_view(&self) -> ValueModel {
        match self {
            Value::Str(text) => ValueModel::Str(text@),
            Value::Int(number) => ValueModel::Int(*number),
        }
    }
}

impl View for Value {
    type V = ValueModel;

    open spec fn view(&self) -> ValueModel {
        self.deep_view()
    }
}

} // verus!
