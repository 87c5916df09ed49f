use rosu_parser::args::{path_from_args, PlayBeatmap};
use rosu_parser::beatmap::dispatch::Section;
use rosu_parser::beatmap::error::{Error, SectionKind, Token};
use rosu_parser::beatmap::parser::{holds_comment, Parser};
use rosu_parser::beatmap::sections::Metadata;
use rosu_parser::beatmap::Beatmap;
use rosu_parser::file::Error as FileError;
use rosu_parser::file::{
    asset_path, beatmap_pattern, beatmap_set_pattern, maps_not_found, Search,
};

#[test]
fn parser_reads_bytes() {
    let map = Parser::new(b"osu file format v9\n[Metadata]\nTitle: x\n").parse().unwrap();
    assert_eq!(map.version, Some(9));
    assert_eq!(map.metadata.unwrap().title, Some("x".to_string()));
    assert_eq!(Parser::new(b"").parse(), Ok(Beatmap::new()));
    assert_eq!(Parser::new(b" \n\t ").parse(), Ok(Beatmap::new()));
}

#[test]
fn parser_takes_bytes_that_are_no_text() {
    let map = Parser::new(b"[Metadata]\nTitle: \xff\xfe\n").parse().unwrap();
    assert_eq!(map.metadata.unwrap().title, Some("\u{ff}\u{fe}".to_string()));
}

#[test]
fn section_header_step_by_step() {
    let mut parser = Parser::new(b"[General][Bogus][open");
    assert_eq!(parser.parse_section(), Ok(()));
    assert_eq!(parser.parse_section(), Err(Error::UnknownSection("Bogus".to_string())));
    assert_eq!(parser.parse_section(), Err(Error::UnexpectedEndOfInput(Token::SectionName)));
}

#[test]
fn unknown_header_ends_the_parse() {
    let mut parser = Parser::new(b"[Metadata]\nTitle:a\n[Bogus]\n");
    assert_eq!(parser.parse_section(), Ok(()));
    assert_eq!(parser.parse_property(), Ok(()));
    assert_eq!(parser.parse_val(), Ok(()));
    let mut at_bogus = parser;
    assert_eq!(at_bogus.parse_list(), Ok(()));
    assert_eq!(at_bogus.parse().unwrap_err(), Error::UnknownSection("Bogus".to_string()));
}

#[test]
fn key_and_value_step_by_step() {
    let mut parser = Parser::new(b"[Metadata]Title : a song \nrest");
    assert_eq!(parser.parse_section(), Ok(()));
    assert_eq!(parser.parse_key(), Ok(()));
    assert_eq!(parser.parse_val(), Ok(()));
    assert_eq!(parser.parse_val(), Err(Error::MissingKey));
    let mut expected = Metadata::default();
    expected.title = Some("a song".to_string());
    let map = Parser::new(b"[Metadata]Title : a song \n").parse().unwrap();
    assert_eq!(map.metadata, Some(expected));
}

#[test]
fn finished_section_lands_in_the_document() {
    let mut parser = Parser::new(b"");
    let mut metadata = Metadata::default();
    metadata.creator = Some("me".to_string());
    parser.finish_section(Section::Metadata(metadata.clone()));
    parser.finish_section(Section::open(SectionKind::Events));
    let map = parser.parse().unwrap();
    assert_eq!(map.metadata, Some(metadata));
    assert!(map.events.is_some());
    assert!(map.general.is_none());
}

#[test]
fn comment_bytes_are_found() {
    assert!(holds_comment(b"val //comment"));
    assert!(holds_comment(b"a/b"));
    assert!(holds_comment(b"#"));
    assert!(!holds_comment(b"value"));
    assert!(!holds_comment(b""));
}

#[test]
fn value_with_a_comment_byte_is_refused_whatever_the_key() {
    let inputs = [
        "[General]\nAudioFilename: dir/audio.mp3\n",
        "[Metadata]\nSource: http://x\n",
        "[Editor]\nUnknown: #1\n",
    ];
    for input in inputs {
        assert_eq!(
            Beatmap::load_from_string(input.to_string()),
            Err(Error::UnsupportedInlineComment),
            "{:?}",
            input
        );
    }
}

#[test]
fn records_may_hold_comment_bytes() {
    let input = "[Events]\n0,0,\"dir/bg #1.jpg\",0,0\n";
    let map = Beatmap::load_from_string(input.to_string()).unwrap();
    assert_eq!(map.events.unwrap().backgrounds[0].filename, "dir/bg #1.jpg");
}

#[test]
fn lines_outside_any_section_are_passed_over() {
    let input = "osu file format v14\nfoo = bar\nanything, at all\n[General]\n";
    let map = Beatmap::load_from_string(input.to_string()).unwrap();
    assert_eq!(map.version, Some(14));
    assert!(map.general.is_some());
}

#[test]
fn path_is_taken_from_the_arguments() {
    assert_eq!(
        path_from_args(PlayBeatmap { beatmap_path: Some("maps/a.osu".to_string()) }),
        Some("maps/a.osu".to_string())
    );
    assert_eq!(path_from_args(PlayBeatmap { beatmap_path: None }), None);
    assert_eq!(path_from_args(PlayBeatmap::default()), None);
}

#[test]
fn search_patterns() {
    assert_eq!(
        beatmap_set_pattern("/home/me/osu", "freedom dive"),
        "/home/me/osu/Songs/*freedom dive*"
    );
    assert_eq!(beatmap_set_pattern("", ""), "/Songs/**");
    assert_eq!(
        beatmap_pattern("x", Search::Found("/osu/Songs/123 x".to_string())),
        Ok("/osu/Songs/123 x/*.osu".to_string())
    );
}

#[test]
fn assets_lie_beside_the_beatmap() {
    assert_eq!(asset_path("/osu/Songs/1 x", "bg.jpg"), "/osu/Songs/1 x/bg.jpg");
    assert_eq!(asset_path("", ""), "/");
}

#[test]
fn search_errors() {
    assert_eq!(
        beatmap_pattern("x", Search::Empty),
        Err(FileError::SetNotFound("beamap set x not found".to_string()))
    );
    assert_eq!(
        beatmap_pattern("x", Search::BadPattern),
        Err(FileError::SetNotFound("beamap set x not found".to_string()))
    );
    assert_eq!(
        beatmap_pattern("x", Search::Unreadable),
        Err(FileError::SetNotFound("first beatmap set found is invalid".to_string()))
    );
    assert_eq!(
        maps_not_found(),
        FileError::MapNotFound("no beatmaps in the se were found".to_string())
    );
}
