use rosu_parser::beatmap::dispatch::{section_kind, Section};
use rosu_parser::beatmap::error::{Error, Field, SectionKind};
use rosu_parser::beatmap::number::Decimal;
use rosu_parser::beatmap::sections::{Difficulty, Editor, General, Metadata, Value};
use rosu_parser::beatmap::{Beatmap, Osu};

fn load(text: &str) -> Result<Beatmap, Error> {
    Beatmap::load_from_string(text.to_string())
}

fn decimal(text: &str) -> Option<Decimal> {
    Some(Decimal::parse(text.as_bytes()).unwrap())
}

fn text(text: &str) -> Option<String> {
    Some(text.to_string())
}

#[test]
fn general_takes_every_key() {
    let map = load(
        "[General]\n\
         AudioFilename: audio.mp3\n\
         AudioLeadIn: -100\n\
         AudioHash: abc\n\
         PreviewTime: 42000\n\
         Countdown: 1\n\
         SampleSet: Soft\n\
         StackLeniency: 0.7\n\
         Mode: 3\n\
         LetterboxInBreaks: 0\n\
         StoryFireInFront: 1\n\
         UseSkinSprites: 0\n\
         AlwaysShowPlayfield: 2\n\
         OverlayPosition: NoChange\n\
         SkinPreference: Default\n\
         EpilepsyWarning: 1\n\
         CountdownOffset: -2\n\
         SpecialStyle: 0\n\
         WidescreenStoryboard: 1\n\
         samples_match_playback_rate: 1\n",
    )
    .unwrap();
    assert_eq!(
        map.general,
        Some(General {
            audio_filename: text("audio.mp3"),
            audio_lead_in: Some(-100),
            audio_hash: text("abc"),
            preview_time: Some(42000),
            countdown: Some(1),
            sample_set: text("Soft"),
            stack_leniency: decimal("0.7"),
            mode: Some(3),
            letter_box_in_breaks: Some(false),
            story_fire_in_front: Some(true),
            use_skin_sprites: Some(false),
            always_show_playfield: Some(true),
            overlay_position: text("NoChange"),
            skin_preference: text("Default"),
            epilepsy_warning: Some(true),
            countdown_offset: Some(-2),
            special_style: Some(false),
            widescreen_storyboard: Some(true),
            samples_match_playback_rate: Some(true),
        })
    );
}

#[test]
fn editor_takes_every_key() {
    let map = load(
        "[Editor]\nBookmarks: 1,2,3\nDistanceSpacing: 1.2\nBeatDivisor: 4\nGridSize: 32\n\
         TimelineZoom: 2\n",
    )
    .unwrap();
    assert_eq!(
        map.editor,
        Some(Editor {
            bookmarks: text("1,2,3"),
            distance_spacing: decimal("1.2"),
            beat_divisor: Some(4),
            grid_size: Some(32),
            timeline_zoom: decimal("2"),
        })
    );
}

#[test]
fn metadata_takes_every_key() {
    let map = load(
        "[Metadata]\nTitle:Song\nTitleUnicode:Song\nArtist:Band\nArtistUnicode:Band\nCreator:me\n\
         Version:Hard\nSource:game\nTags:a b c\nBeatmapID:12\nBeatmapSetID:34\n",
    )
    .unwrap();
    assert_eq!(
        map.metadata,
        Some(Metadata {
            title: text("Song"),
            title_unicode: text("Song"),
            artist: text("Band"),
            artist_unicode: text("Band"),
            creator: text("me"),
            version: text("Hard"),
            source: text("game"),
            tags: text("a b c"),
            beatmap_id: Some(12),
            beatmap_set_id: Some(34),
        })
    );
}

#[test]
fn difficulty_takes_every_key() {
    let map = load(
        "[Difficulty]\nHPDrainRate:5\nCircleSize:4.2\nOverallDifficulty:8\nApproachRate:9.3\n\
         SliderMultiplier:1.4\nSliderTickRate:1\n",
    )
    .unwrap();
    assert_eq!(
        map.difficulty,
        Some(Difficulty {
            hp_drain_rate: decimal("5"),
            circle_size: decimal("4.2"),
            overall_difficulty: decimal("8"),
            approach_rate: decimal("9.3"),
            slider_multiplier: decimal("1.4"),
            slider_tick_rate: decimal("1"),
        })
    );
}

#[test]
fn both_separators_and_blanks_around_them() {
    let map = load("[General]\nMode = 1\nCountdown\t:\t2  \nPreviewTime=3\n").unwrap();
    let general = map.general.unwrap();
    assert_eq!(general.mode, Some(1));
    assert_eq!(general.countdown, Some(2));
    assert_eq!(general.preview_time, Some(3));
}

#[test]
fn empty_value_is_kept_for_text_and_refused_for_numbers() {
    let map = load("[Metadata]\nSource:\nTags:  \n").unwrap();
    let metadata = map.metadata.unwrap();
    assert_eq!(metadata.source, text(""));
    assert_eq!(metadata.tags, text(""));
    assert_eq!(
        load("[General]\nMode:\nCountdown: 1\n"),
        Err(Error::InvalidFieldValue(
            SectionKind::General,
            Field::Key("Mode".to_string()),
            "".to_string()
        ))
    );
    let at_end = load("[Metadata]\nTitle:").unwrap();
    assert_eq!(at_end.metadata.unwrap().title, text(""));
}

#[test]
fn unknown_key_changes_nothing() {
    let with = load("[General]\nMode: 1\nNewKey: whatever\nNothing:\n").unwrap();
    let without = load("[General]\nMode: 1\n").unwrap();
    assert_eq!(with, without);
    let mut section = Section::open(SectionKind::Metadata);
    let before = section.clone();
    assert_eq!(section.assign(b"BeatmapSetId", b"not a number"), Ok(()));
    assert_eq!(section, before);
    let mut list = Section::open(SectionKind::Colours);
    assert_eq!(list.assign(b"Combo1", b"1,2,3"), Ok(()));
    assert_eq!(list, Section::open(SectionKind::Colours));
}

#[test]
fn keys_are_matched_letter_for_letter() {
    let map = load("[General]\nmode: 1\nMODE: 2\nMode : 3\n").unwrap();
    assert_eq!(map.general.unwrap().mode, Some(3));
}

#[test]
fn later_line_of_a_key_wins() {
    let map = load("[General]\nMode: 1\nMode: 2\n").unwrap();
    assert_eq!(map.general.unwrap().mode, Some(2));
}

#[test]
fn refused_values_name_their_key() {
    let cases = [
        ("[General]\nStackLeniency: high\n", SectionKind::General, "StackLeniency", "high"),
        ("[General]\nLetterboxInBreaks: yes\n", SectionKind::General, "LetterboxInBreaks", "yes"),
        ("[General]\nCountdown: -1\n", SectionKind::General, "Countdown", "-1"),
        ("[Editor]\nBeatDivisor: 4.0\n", SectionKind::Editor, "BeatDivisor", "4.0"),
        ("[Metadata]\nBeatmapID: x\n", SectionKind::Metadata, "BeatmapID", "x"),
        ("[Difficulty]\nCircleSize: big\n", SectionKind::Difficulty, "CircleSize", "big"),
    ];
    for (input, section, key, raw) in cases {
        assert_eq!(
            load(input),
            Err(Error::InvalidFieldValue(section, Field::Key(key.to_string()), raw.to_string())),
            "{:?}",
            input
        );
    }
}

#[test]
fn assign_leaves_the_section_alone_on_error() {
    let mut general = General::default();
    assert!(general.assign(b"Mode", b"3"));
    let before = general.clone();
    assert!(!general.assign(b"Mode", b"three"));
    assert_eq!(general, before);
    assert!(!general.assign(b"StackLeniency", b""));
    assert_eq!(general, before);
}

#[test]
fn every_header_opens_its_section() {
    let names = [
        ("General", SectionKind::General),
        ("Editor", SectionKind::Editor),
        ("Metadata", SectionKind::Metadata),
        ("Difficulty", SectionKind::Difficulty),
        ("Events", SectionKind::Events),
        ("TimingPoints", SectionKind::TimingPoints),
        ("Colours", SectionKind::Colours),
        ("HitObjects", SectionKind::HitObjects),
    ];
    for (name, kind) in names {
        assert_eq!(section_kind(name.as_bytes()), Some(kind));
        assert_eq!(Section::open(kind).kind(), kind);
        let map = load(&format!("[{}]", name)).unwrap();
        assert_eq!(map.general.is_some(), kind == SectionKind::General);
        assert_eq!(map.editor.is_some(), kind == SectionKind::Editor);
        assert_eq!(map.metadata.is_some(), kind == SectionKind::Metadata);
        assert_eq!(map.difficulty.is_some(), kind == SectionKind::Difficulty);
        assert_eq!(map.events.is_some(), kind == SectionKind::Events);
        assert_eq!(map.timing_points.is_some(), kind == SectionKind::TimingPoints);
        assert_eq!(map.colours.is_some(), kind == SectionKind::Colours);
        assert_eq!(map.hit_objects.is_some(), kind == SectionKind::HitObjects);
    }
    assert_eq!(section_kind(b"Colors"), None);
    assert_eq!(section_kind(b""), None);
}

#[test]
fn sections_present_are_those_with_headers() {
    let map = load("[Metadata]\nTitle:a\n[General]\nMode:1\n[HitObjects]\n").unwrap();
    assert_eq!(map.metadata.unwrap().title, text("a"));
    assert_eq!(map.general.unwrap().mode, Some(1));
    assert_eq!(map.hit_objects, Some(vec![]));
    assert!(map.editor.is_none());
    assert!(map.difficulty.is_none());
    assert!(map.events.is_none());
    assert!(map.timing_points.is_none());
    assert!(map.colours.is_none());
}

#[test]
fn last_section_of_a_kind_wins() {
    let map =
        load("[General]\nMode:1\nCountdown:5\n[Metadata]\nTitle:a\n[General]\nMode:2\n").unwrap();
    let general = map.general.unwrap();
    assert_eq!(general.mode, Some(2));
    assert_eq!(general.countdown, None);
    assert_eq!(map.metadata.unwrap().title, text("a"));
    let map = load("[HitObjects]\n1,2,3,0,0\n[HitObjects]\n4,5,6,1,0\n").unwrap();
    let objects = map.hit_objects.unwrap();
    assert_eq!(objects.len(), 1);
    assert_eq!(objects[0].x, 4);
}

#[test]
fn reading_twice_gives_the_same() {
    let input = "osu file format v14\n[General]\nMode:1\n[HitObjects]\n1,2,3,0,0,a,b\n";
    assert_eq!(load(input), load(input));
    let bad = "[General]\nMode:x\n";
    assert_eq!(load(bad), load(bad));
    assert!(load(bad).is_err());
}

#[test]
fn text_is_read_byte_by_byte() {
    let map = load("[Metadata]\nTitleUnicode: caf\u{e9}\n").unwrap();
    assert_eq!(map.metadata.unwrap().title_unicode, text("caf\u{c3}\u{a9}"));
}

#[test]
fn lines_may_end_in_carriage_returns() {
    let map = load("osu file format v14\r\n\r\n[General]\r\nMode: 1\r\nCountdown: 2\r\n").unwrap();
    assert_eq!(map.version, Some(14));
    let general = map.general.unwrap();
    assert_eq!(general.mode, Some(1));
    assert_eq!(general.countdown, Some(2));
}

#[test]
fn key_runs_over_lines_until_its_separator() {
    let map = load("[General]\nno separator here\nMode: 1\nCountdown: 2\n").unwrap();
    let general = map.general.unwrap();
    assert_eq!(general.mode, None);
    assert_eq!(general.countdown, Some(2));
}

#[test]
fn document_under_both_names() {
    let osu: Osu = Osu::new();
    assert_eq!(osu, Beatmap::default());
    assert_eq!(Osu::load_from_string(String::new()), Ok(Beatmap::new()));
}

#[test]
fn value_holds_text_or_number() {
    assert_eq!(Value::Str("a".to_string()), Value::Str("a".to_string()));
    assert_ne!(Value::Int(1), Value::Int(2));
}
