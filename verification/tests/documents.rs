use rosu_parser::beatmap::error::{Error, Field, RecordKind, SectionKind, Token};
use rosu_parser::beatmap::events::{Background, Break};
use rosu_parser::beatmap::sections::HitObjectKind;
use rosu_parser::beatmap::Beatmap;

fn load(text: &str) -> Result<Beatmap, Error> {
    Beatmap::load_from_string(text.to_string())
}

#[test]
fn empty_input_gives_empty_document() {
    let map = load("").unwrap();
    assert_eq!(map, Beatmap::new());
    assert_eq!(map.version, None);
    assert!(map.general.is_none());
    assert!(map.editor.is_none());
    assert!(map.metadata.is_none());
    assert!(map.difficulty.is_none());
    assert!(map.events.is_none());
    assert!(map.timing_points.is_none());
    assert!(map.colours.is_none());
    assert!(map.hit_objects.is_none());
}

#[test]
fn version_and_general() {
    let map = load("osu file format v14\n\n[General]\nAudioFilename: audio.mp3\n").unwrap();
    assert_eq!(map.version, Some(14));
    let general = map.general.unwrap();
    assert_eq!(general.audio_filename, Some("audio.mp3".to_string()));
    assert_eq!(general.audio_lead_in, None);
    assert!(map.editor.is_none());
    assert!(map.metadata.is_none());
    assert!(map.difficulty.is_none());
    assert!(map.events.is_none());
    assert!(map.timing_points.is_none());
    assert!(map.colours.is_none());
    assert!(map.hit_objects.is_none());
}

#[test]
fn events_background_and_break() {
    let map = load("[Events]\n0,0,\"bg.jpg\",0,0\n2,1000,3000\n").unwrap();
    let events = map.events.unwrap();
    assert_eq!(
        events.backgrounds,
        vec![Background { start_time: 0, filename: "bg.jpg".to_string(), x_offset: 0, y_offset: 0 }]
    );
    assert_eq!(events.breaks, vec![Break { start_time: 1000, end_time: "3000".to_string() }]);
    assert!(events.videos.is_empty());
}

#[test]
fn hit_object_of_unknown_kind_is_skipped() {
    let map = load("[HitObjects]\n256,192,1000,1,0\n256,192,2000,99,0\n").unwrap();
    let objects = map.hit_objects.unwrap();
    assert_eq!(objects.len(), 1);
    assert_eq!(objects[0].time, 1000);
    assert_eq!(objects[0].kind, HitObjectKind::Slider);
    assert_eq!(objects[0].x, 256);
    assert_eq!(objects[0].y, 192);
    assert_eq!(objects[0].hit_sound, 0);
    assert_eq!(objects[0].object_params, None);
    assert_eq!(objects[0].hit_sample, None);
}

#[test]
fn comment_behind_a_value_is_refused() {
    assert_eq!(load("[General]\nkey=val //comment\n"), Err(Error::UnsupportedInlineComment));
    assert_eq!(load("[Metadata]\nTitle: a # b\n"), Err(Error::UnsupportedInlineComment));
}

#[test]
fn unknown_section_is_refused() {
    assert_eq!(load("[Bogus]\n"), Err(Error::UnknownSection("Bogus".to_string())));
}

#[test]
fn section_name_is_trimmed_and_case_matters() {
    assert!(load("[ General ]\n").unwrap().general.is_some());
    assert_eq!(load("[general]\n"), Err(Error::UnknownSection("general".to_string())));
}

#[test]
fn open_section_header_is_refused() {
    assert_eq!(load("[General"), Err(Error::UnexpectedEndOfInput(Token::SectionName)));
}

#[test]
fn key_without_separator_is_refused() {
    assert_eq!(load("[General]\nAudioFilename"), Err(Error::UnexpectedEndOfInput(Token::Key)));
}

#[test]
fn separator_without_key_is_refused() {
    assert_eq!(load("[General]\n= 5\n"), Err(Error::MissingKey));
    assert_eq!(load(": 5\n"), Err(Error::MissingKey));
    assert_eq!(load("[HitObjects]\n:1\n"), Err(Error::MissingKey));
}

#[test]
fn comments_at_the_start_of_a_line() {
    let map = load("// a comment\n# another\n[General]\n//x\nMode: 3\n").unwrap();
    assert_eq!(map.general.unwrap().mode, Some(3));
    let map = load(" # one blank before it\n").unwrap();
    assert_eq!(map, Beatmap::new());
}

#[test]
fn comment_past_the_second_column_is_refused() {
    assert_eq!(load("  # two blanks before it\n"), Err(Error::UnsupportedInlineComment));
    assert_eq!(load("[General] // behind a header\n"), Err(Error::UnsupportedInlineComment));
}

#[test]
fn single_slash_is_refused() {
    assert_eq!(load("/ comment\n"), Err(Error::MalformedCommentMarker));
    assert_eq!(load("/"), Err(Error::MalformedCommentMarker));
}

#[test]
fn version_header_only_on_first_line() {
    assert_eq!(load("osu file format v14").unwrap().version, Some(14));
    assert_eq!(load("14").unwrap().version, Some(14));
    assert_eq!(load("vv7").unwrap().version, Some(7));
    assert_eq!(load("\nosu file format v14\n").unwrap().version, None);
    assert_eq!(load("osu file format v14\nanything else\n").unwrap().version, Some(14));
}

#[test]
fn invalid_version_is_refused() {
    assert_eq!(load("osu file format vX\n"), Err(Error::InvalidVersion("vX".to_string())));
    assert_eq!(load("osu file format \n"), Err(Error::InvalidVersion("".to_string())));
}

#[test]
fn malformed_value_is_refused() {
    assert_eq!(
        load("[General]\nAudioLeadIn: soon\n"),
        Err(Error::InvalidFieldValue(
            SectionKind::General,
            Field::Key("AudioLeadIn".to_string()),
            "soon".to_string()
        ))
    );
}

#[test]
fn short_record_is_refused() {
    assert_eq!(
        load("[TimingPoints]\n100,300.5,4\n"),
        Err(Error::MissingField(SectionKind::TimingPoints, RecordKind::TimingPoint))
    );
    assert_eq!(
        load("[Events]\n2,1000\n"),
        Err(Error::MissingField(SectionKind::Events, RecordKind::Break))
    );
    assert_eq!(
        load("[Colours]\nCombo1,255\n"),
        Err(Error::MissingField(SectionKind::Colours, RecordKind::Colour))
    );
    assert_eq!(
        load("[HitObjects]\n1,2,3\n"),
        Err(Error::MissingField(SectionKind::HitObjects, RecordKind::HitObject))
    );
    assert_eq!(
        load("[HitObjects]\n1,2,3,0\n"),
        Err(Error::MissingField(SectionKind::HitObjects, RecordKind::HitObject))
    );
}

#[test]
fn bad_record_field_is_refused() {
    assert_eq!(
        load("[TimingPoints]\n100,fast,4,1,0,100,1,0\n"),
        Err(Error::InvalidFieldValue(
            SectionKind::TimingPoints,
            Field::Index(1),
            "fast".to_string()
        ))
    );
    assert_eq!(
        load("[Events]\n0,x\n"),
        Err(Error::InvalidFieldValue(SectionKind::Events, Field::Index(1), "x".to_string()))
    );
}
