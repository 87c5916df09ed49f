use rosu_parser::beatmap::dispatch::Section;
use rosu_parser::beatmap::error::{Error, Field, RecordKind, SectionKind};
use rosu_parser::beatmap::events::{Background, Break, Video};
use rosu_parser::beatmap::number::Decimal;
use rosu_parser::beatmap::records::{
    parse_background, parse_break, parse_colour, parse_event_kind, parse_hit_object,
    parse_hit_object_kind, parse_timing_point, parse_video, record_section,
};
use rosu_parser::beatmap::sections::{Colour, HitObject, HitObjectKind, TimingPoint};
use rosu_parser::beatmap::text::split_fields;
use rosu_parser::beatmap::Beatmap;

fn load(text: &str) -> Result<Beatmap, Error> {
    Beatmap::load_from_string(text.to_string())
}

fn fields(line: &str) -> Vec<&[u8]> {
    split_fields(line.as_bytes(), b',')
}

#[test]
fn background_loses_its_quotes() {
    assert_eq!(
        parse_background(&fields("0,12,\"bg image.jpg\",-3,+4")),
        Ok(Background {
            start_time: 12,
            filename: "bg image.jpg".to_string(),
            x_offset: -3,
            y_offset: 4
        })
    );
    assert_eq!(
        parse_background(&fields("0,0,bg.png,0,0,extra")),
        Ok(Background { start_time: 0, filename: "bg.png".to_string(), x_offset: 0, y_offset: 0 })
    );
}

#[test]
fn video_keeps_its_quotes() {
    assert_eq!(
        parse_video(&fields("Video,500,\"intro.avi\",1,2")),
        Ok(Video {
            start_time: 500,
            filename: "\"intro.avi\"".to_string(),
            x_offset: 1,
            y_offset: 2
        })
    );
}

#[test]
fn break_keeps_its_end_as_written() {
    assert_eq!(
        parse_break(&fields("2,1000,3000")),
        Ok(Break { start_time: 1000, end_time: "3000".to_string() })
    );
    assert_eq!(
        parse_break(&fields("Break,1000, soon ")),
        Ok(Break { start_time: 1000, end_time: " soon ".to_string() })
    );
}

#[test]
fn event_kinds() {
    assert_eq!(parse_event_kind(b"0"), Some(RecordKind::Background));
    assert_eq!(parse_event_kind(b"1"), Some(RecordKind::Video));
    assert_eq!(parse_event_kind(b"Video"), Some(RecordKind::Video));
    assert_eq!(parse_event_kind(b"2"), Some(RecordKind::Break));
    assert_eq!(parse_event_kind(b"Break"), Some(RecordKind::Break));
    assert_eq!(parse_event_kind(b"3"), None);
    assert_eq!(parse_event_kind(b"Sprite"), None);
    assert_eq!(parse_event_kind(b"video"), None);
    assert_eq!(parse_event_kind(b""), None);
    assert_eq!(parse_event_kind(b"00"), None);
}

#[test]
fn events_of_unknown_kind_are_passed_over() {
    let map = load(
        "[Events]\nSprite,Foreground,Centre,\"a.png\",320,240\n3,100,163,162,255\n1,0,v.avi,0,0\n",
    )
    .unwrap();
    let events = map.events.unwrap();
    assert!(events.backgrounds.is_empty());
    assert!(events.breaks.is_empty());
    assert_eq!(
        events.videos,
        vec![Video { start_time: 0, filename: "v.avi".to_string(), x_offset: 0, y_offset: 0 }]
    );
}

#[test]
fn events_keep_the_order_of_their_lines() {
    let map = load("[Events]\n2,1,2\n0,0,a,0,0\n2,3,4\n0,0,b,0,0\n").unwrap();
    let events = map.events.unwrap();
    assert_eq!(events.breaks.iter().map(|b| b.start_time).collect::<Vec<usize>>(), vec![1, 3]);
    assert_eq!(
        events.backgrounds.iter().map(|b| b.filename.clone()).collect::<Vec<String>>(),
        vec!["a".to_string(), "b".to_string()]
    );
}

#[test]
fn timing_point_has_eight_fields() {
    assert_eq!(
        parse_timing_point(&fields("1000,-133.33,4,2,1,60,0,3")),
        Ok(TimingPoint {
            time: 1000,
            beat_length: Decimal::parse(b"-133.33").unwrap(),
            meter: 4,
            sample_set: 2,
            sample_index: 1,
            volume: 60,
            uninherited: false,
            effects: 3,
        })
    );
    let point = parse_timing_point(&fields("0,500,4,1,0,100,7,0,ignored")).unwrap();
    assert!(point.uninherited);
    assert_eq!(point.beat_length.text().parse::<f32>().unwrap(), 500.0);
}

#[test]
fn timing_point_errors_go_by_position() {
    assert_eq!(
        parse_timing_point(&fields("x,y,4")),
        Err(Error::InvalidFieldValue(SectionKind::TimingPoints, Field::Index(0), "x".to_string()))
    );
    assert_eq!(
        parse_timing_point(&fields("1,y,4")),
        Err(Error::InvalidFieldValue(SectionKind::TimingPoints, Field::Index(1), "y".to_string()))
    );
    assert_eq!(
        parse_timing_point(&fields("1,2,4")),
        Err(Error::MissingField(SectionKind::TimingPoints, RecordKind::TimingPoint))
    );
    assert_eq!(
        parse_timing_point(&fields("1,2,4,1,0,100,yes,0")),
        Err(Error::InvalidFieldValue(SectionKind::TimingPoints, Field::Index(6), "yes".to_string()))
    );
    assert_eq!(
        parse_timing_point(&fields("")),
        Err(Error::InvalidFieldValue(SectionKind::TimingPoints, Field::Index(0), "".to_string()))
    );
}

#[test]
fn colour_reads_its_combo_index() {
    assert_eq!(
        parse_colour(&fields("Combo1,255,128")),
        Ok(Colour { combo: 1, slider_track_override: 255, slider_border: 128 })
    );
    assert_eq!(
        parse_colour(&fields("7,0,0")),
        Ok(Colour { combo: 7, slider_track_override: 0, slider_border: 0 })
    );
    assert_eq!(
        parse_colour(&fields("ComboCombo12,1,2")),
        Ok(Colour { combo: 12, slider_track_override: 1, slider_border: 2 })
    );
    assert_eq!(
        parse_colour(&fields("Combo,1,2")),
        Err(Error::InvalidFieldValue(SectionKind::Colours, Field::Index(0), "Combo".to_string()))
    );
    assert_eq!(
        parse_colour(&fields("Combo1,256,2")),
        Err(Error::InvalidFieldValue(SectionKind::Colours, Field::Index(1), "256".to_string()))
    );
    assert_eq!(
        parse_colour(&fields("Combo1 : 255,192,255")),
        Err(Error::InvalidFieldValue(
            SectionKind::Colours,
            Field::Index(0),
            "Combo1 : 255".to_string()
        ))
    );
}

#[test]
fn colours_section_is_a_list() {
    let map = load("[Colours]\nCombo1,1,2\nCombo2,3,4\n").unwrap();
    assert_eq!(
        map.colours,
        Some(vec![
            Colour { combo: 1, slider_track_override: 1, slider_border: 2 },
            Colour { combo: 2, slider_track_override: 3, slider_border: 4 },
        ])
    );
}

#[test]
fn hit_object_kinds() {
    assert_eq!(parse_hit_object_kind(b"0"), Some(HitObjectKind::HitCircle));
    assert_eq!(parse_hit_object_kind(b"1"), Some(HitObjectKind::Slider));
    assert_eq!(parse_hit_object_kind(b"2"), Some(HitObjectKind::Spinner));
    assert_eq!(parse_hit_object_kind(b"3"), Some(HitObjectKind::ManiaHold));
    assert_eq!(parse_hit_object_kind(b"4"), None);
    assert_eq!(parse_hit_object_kind(b"99"), None);
    assert_eq!(parse_hit_object_kind(b"01"), None);
    assert_eq!(parse_hit_object_kind(b""), None);
    assert_eq!(parse_hit_object_kind(b"x"), None);
    assert_eq!(HitObjectKind::default(), HitObjectKind::HitCircle);
}

#[test]
fn hit_object_with_and_without_its_texts() {
    assert_eq!(
        parse_hit_object(&fields("256,192,1000,2,4")),
        Ok(Some(HitObject {
            x: 256,
            y: 192,
            time: 1000,
            kind: HitObjectKind::Spinner,
            hit_sound: 4,
            object_params: None,
            hit_sample: None,
        }))
    );
    assert_eq!(
        parse_hit_object(&fields("1,2,3,1,0,B|1:2|3:4")),
        Ok(Some(HitObject {
            x: 1,
            y: 2,
            time: 3,
            kind: HitObjectKind::Slider,
            hit_sound: 0,
            object_params: Some("B|1:2|3:4".to_string()),
            hit_sample: None,
        }))
    );
    assert_eq!(
        parse_hit_object(&fields("1,2,3,0,0,,0:0:0:0:,more,fields")),
        Ok(Some(HitObject {
            x: 1,
            y: 2,
            time: 3,
            kind: HitObjectKind::HitCircle,
            hit_sound: 0,
            object_params: Some("".to_string()),
            hit_sample: Some("0:0:0:0:".to_string()),
        }))
    );
}

#[test]
fn hit_object_is_read_from_left_to_right() {
    assert_eq!(parse_hit_object(&fields("1,2,3,9")), Ok(None));
    assert_eq!(parse_hit_object(&fields("1,2,3,9,x")), Ok(None));
    assert_eq!(parse_hit_object(&fields("1,2,3,,")), Ok(None));
    assert_eq!(
        parse_hit_object(&fields("1,x,3,9,0")),
        Err(Error::InvalidFieldValue(SectionKind::HitObjects, Field::Index(1), "x".to_string()))
    );
    assert_eq!(
        parse_hit_object(&fields("1,2,3,1,x")),
        Err(Error::InvalidFieldValue(SectionKind::HitObjects, Field::Index(4), "x".to_string()))
    );
    assert_eq!(
        parse_hit_object(&fields("1,2,3")),
        Err(Error::MissingField(SectionKind::HitObjects, RecordKind::HitObject))
    );
    assert_eq!(
        parse_hit_object(&fields("1,2,3,1")),
        Err(Error::MissingField(SectionKind::HitObjects, RecordKind::HitObject))
    );
}

#[test]
fn short_lines_add_no_record() {
    let cases = [
        (SectionKind::Events, "0,1,a,2"),
        (SectionKind::Events, "Video,1"),
        (SectionKind::Events, "2"),
        (SectionKind::TimingPoints, "1,2,3,4,5,6,7"),
        (SectionKind::Colours, "Combo1,2"),
        (SectionKind::HitObjects, "1,2"),
        (SectionKind::HitObjects, "1,2,3,0"),
    ];
    for (kind, line) in cases {
        let mut section = Section::open(kind);
        let result = section.add_record(&fields(line));
        assert!(
            matches!(result, Err(Error::MissingField(..)) | Err(Error::InvalidFieldValue(..))),
            "{:?}",
            line
        );
        assert_eq!(section, Section::open(kind), "{:?}", line);
    }
}

#[test]
fn records_go_to_the_end_of_their_list() {
    let mut section = Section::open(SectionKind::Colours);
    assert_eq!(section.add_record(&fields("Combo1,1,1")), Ok(()));
    assert_eq!(section.add_record(&fields("Combo2,2,2")), Ok(()));
    assert_eq!(
        section,
        Section::Colours(vec![
            Colour { combo: 1, slider_track_override: 1, slider_border: 1 },
            Colour { combo: 2, slider_track_override: 2, slider_border: 2 },
        ])
    );
    let mut keyed = Section::open(SectionKind::General);
    assert_eq!(keyed.add_record(&fields("1,2,3")), Ok(()));
    assert_eq!(keyed, Section::open(SectionKind::General));
}

#[test]
fn record_kinds_belong_to_sections() {
    assert_eq!(record_section(RecordKind::Background), SectionKind::Events);
    assert_eq!(record_section(RecordKind::Video), SectionKind::Events);
    assert_eq!(record_section(RecordKind::Break), SectionKind::Events);
    assert_eq!(record_section(RecordKind::TimingPoint), SectionKind::TimingPoints);
    assert_eq!(record_section(RecordKind::Colour), SectionKind::Colours);
    assert_eq!(record_section(RecordKind::HitObject), SectionKind::HitObjects);
}

#[test]
fn quoted_comma_is_cut_like_any_other() {
    assert_eq!(
        load("[Events]\n0,0,\"my, file.jpg\",0,0\n"),
        Err(Error::InvalidFieldValue(
            SectionKind::Events,
            Field::Index(3),
            " file.jpg\"".to_string()
        ))
    );
}

#[test]
fn timing_points_written_and_read_again() {
    let points = vec![
        TimingPoint {
            time: 0,
            beat_length: Decimal::parse(b"500").unwrap(),
            meter: 4,
            sample_set: 1,
            sample_index: 0,
            volume: 100,
            uninherited: true,
            effects: 0,
        },
        TimingPoint {
            time: 12345,
            beat_length: Decimal::parse(b"-66.6666666666667").unwrap(),
            meter: 3,
            sample_set: 2,
            sample_index: 7,
            volume: 55,
            uninherited: false,
            effects: 9,
        },
    ];
    let mut text = String::from("[TimingPoints]\n");
    for p in &points {
        text.push_str(&format!(
            "{},{},{},{},{},{},{},{}\n",
            p.time,
            p.beat_length.text(),
            p.meter,
            p.sample_set,
            p.sample_index,
            p.volume,
            if p.uninherited { 1 } else { 0 },
            p.effects
        ));
    }
    let map = load(&text).unwrap();
    assert_eq!(map.timing_points, Some(points));
    assert!(map.colours.is_none());
    assert_eq!(map.version, None);
}

#[test]
fn colours_written_and_read_again() {
    let colours = vec![
        Colour { combo: 0, slider_track_override: 0, slider_border: 0 },
        Colour { combo: 255, slider_track_override: 17, slider_border: 200 },
        Colour { combo: 3, slider_track_override: 255, slider_border: 1 },
    ];
    let mut text = String::from("[Colours]\n");
    for c in &colours {
        text.push_str(&format!(
            "Combo{},{},{}\n",
            c.combo, c.slider_track_override, c.slider_border
        ));
    }
    assert_eq!(load(&text).unwrap().colours, Some(colours));
}

#[test]
fn hit_objects_written_and_read_again() {
    let objects = vec![
        HitObject {
            x: 256,
            y: 192,
            time: 1000,
            kind: HitObjectKind::HitCircle,
            hit_sound: 0,
            object_params: None,
            hit_sample: None,
        },
        HitObject {
            x: 0,
            y: usize::MAX,
            time: 2000,
            kind: HitObjectKind::Slider,
            hit_sound: 2,
            object_params: Some("B|100:100|200:200".to_string()),
            hit_sample: None,
        },
        HitObject {
            x: 5,
            y: 6,
            time: 3000,
            kind: HitObjectKind::ManiaHold,
            hit_sound: 8,
            object_params: Some("".to_string()),
            hit_sample: Some("0:0:0:0: ".to_string()),
        },
    ];
    let mut text = String::from("[HitObjects]\n");
    for o in &objects {
        let kind = match o.kind {
            HitObjectKind::HitCircle => 0,
            HitObjectKind::Slider => 1,
            HitObjectKind::Spinner => 2,
            HitObjectKind::ManiaHold => 3,
        };
        text.push_str(&format!("{},{},{},{},{}", o.x, o.y, o.time, kind, o.hit_sound));
        if let Some(params) = &o.object_params {
            text.push_str(&format!(",{}", params));
        }
        if let Some(sample) = &o.hit_sample {
            text.push_str(&format!(",{}", sample));
        }
        text.push('\n');
    }
    assert_eq!(load(&text).unwrap().hit_objects, Some(objects));
}

#[test]
fn text_with_a_comma_does_not_come_back() {
    let map = load("[HitObjects]\n1,2,3,1,0,a,b,c\n").unwrap();
    let object = &map.hit_objects.unwrap()[0];
    assert_eq!(object.object_params, Some("a".to_string()));
    assert_eq!(object.hit_sample, Some("b".to_string()));
}
