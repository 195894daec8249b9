use cuna::error::Error;
use cuna::error::InvalidArgument;
use cuna::error::ParseError;
use cuna::parser::Command;
use cuna::parser::Parser;
use cuna::time::TimeStamp;
use cuna::track::Index;
use cuna::track::Track;
use cuna::track::TrackInfo;
use cuna::utils;
use cuna::CueSheet;
use cuna::Cuna;

type Result = std::result::Result<(), Error>;

#[test]
fn create() {
    let timestamp = TimeStamp::new(61, 29, 73);
    assert_eq!(TimeStamp::from_msf_opt(61, 29, 73), Some(timestamp.clone()));
    assert_eq!(TimeStamp::from_msf_opt(61, 29, 77), None);
    assert_eq!(TimeStamp::from_msf(61, 28, 73 + 75), timestamp);
}

#[test]
fn display() {
    let timestamp = TimeStamp::new(61, 29, 73);
    assert_eq!(timestamp.to_string(), "61:29:73");
}

#[test]
fn parse() -> Result {
    assert_eq!("61:29:73".parse::<TimeStamp>()?, TimeStamp::new(61, 29, 73));
    assert!("xd".parse::<TimeStamp>().is_err());
    assert!("6:772:11".parse::<TimeStamp>().is_err());
    assert!("6:72:111".parse::<TimeStamp>().is_err());
    Ok(())
}

#[test]
fn modify() {
    let mut timestamp = TimeStamp::new(21, 29, 73);
    timestamp.set_frames(21);
    assert_eq!(timestamp, TimeStamp::new(21, 29, 21));
    timestamp.set_seconds(33);
    assert_eq!(timestamp, TimeStamp::new(21, 33, 21));
    timestamp.set_minutes(28);
    assert_eq!(timestamp, TimeStamp::new(28, 33, 21));
}

#[test]
fn new() -> Result {
    let cmd = r#"PERFORMER "Supercell""#;
    Command::new(cmd)?;
    Ok(())
}

#[test]
fn tests_display() -> Result {
    let cmds = r#"REM COMMENT ExactAudioCopy v0.99pb5
        PERFORMER "Supercell"
        TITLE "My Dearest"
        FILE "Supercell - My Dearest.flac" WAVE"#;
    for (cmd, ori) in cmds.lines().map(Command::new).zip(cmds.lines()) {
        assert_eq!(cmd?.to_string(), ori.trim().to_string())
    }
    Ok(())
}

const CUE: &str = "\u{feff}REM GENRE Pop
PERFORMER \"EGOIST\"
TITLE \"Departures ～あなたにおくるアイの歌～\"
FILE \"EGOIST - Departures ～あなたにおくるアイの歌～.flac\" WAVE
  TRACK 01 AUDIO
    TITLE \"Departures ～あなたにおくるアイの歌～\"
    PERFORMER \"EGOIST\"
    INDEX 01 00:00:00
  TRACK 02 AUDIO
    TITLE \"Departures ～あなたにおくるアイの歌～ (Instrumental)\"
    PERFORMER \"EGOIST\"
    INDEX 00 04:51:40
    INDEX 01 04:53:40
";

#[test]
fn tests_new() -> Result {
    let sheet = CueSheet::from_utf8_with_bom(CUE)?;
    assert_eq!(sheet.header.title, Some(vec!["Departures ～あなたにおくるアイの歌～".to_owned()]));
    assert_eq!(sheet.files.len(), 1);
    assert_eq!(&sheet.files[0].name, "EGOIST - Departures ～あなたにおくるアイの歌～.flac");
    assert_eq!(sheet.last_track().unwrap().performer(), Some(&vec!["EGOIST".to_owned()]));
    Ok(())
}

#[test]
fn sheet_structure() -> Result {
    let sheet = Cuna::from_utf8_with_bom(CUE)?;
    assert_eq!(sheet.comments.0, vec!["GENRE Pop".to_owned()]);
    assert_eq!(sheet.header.performer, Some(vec!["EGOIST".to_owned()]));
    let file = &sheet.files[0];
    assert_eq!(file.format, "WAVE");
    assert_eq!(file.tracks.len(), 2);
    assert_eq!(file.tracks[0].id(), 1);
    assert_eq!(file.tracks[1].id(), 2);
    assert_eq!(file.tracks[1].index.len(), 2);
    assert_eq!(file.tracks[1].index[0].id(), 0);
    assert_eq!(*file.tracks[1].index[1].begin_time(), TimeStamp::new(4, 53, 40));
    Ok(())
}

#[test]
fn two_digit_matcher() {
    assert_eq!(utils::number(2, "07 AUDIO"), Some((" AUDIO", 7)));
    assert_eq!(utils::number(2, "99"), Some(("", 99)));
    assert_eq!(utils::number(2, "7 AUDIO"), None);
    assert_eq!(utils::number(2, "123"), None);
    assert_eq!(utils::number(2, ""), None);
    assert_eq!(utils::number(13, "0123456789012"), Some(("", 123456789012)));
}

#[test]
fn primitive_matchers() {
    assert_eq!(utils::keyword("rem", "REM hello"), Some("hello"));
    assert_eq!(utils::keyword("rem", "REMARK"), None);
    assert_eq!(utils::quote(r#""a b" c"#), Some((" c", "a b")));
    assert_eq!(utils::quote("a b"), None);
    assert_eq!(utils::quote_opt("a b"), ("", "a b"));
    assert_eq!(utils::token("01 AUDIO"), Some(("AUDIO", "01")));
    assert_eq!(utils::token("AUDIO"), None);
    assert_eq!(utils::trim("  \tx y \r"), "x y");
    assert_eq!(utils::unquote(r#""x""#), "x");
    assert!(utils::eq_ignore_case("Track", "TRACK"));
    assert!(!utils::eq_ignore_case("Track", "TRACKS"));
    assert_eq!(utils::split_on("DCP  4CH", ' '), vec!["DCP", "", "4CH"]);
}

#[test]
fn render_round_trip() -> Result {
    let lines = [
        "REM DATE 2010",
        r#"TITLE "My Dearest""#,
        r#"PERFORMER "Supercell""#,
        r#"SONGWRITER "ryo""#,
        "CATALOG 0123456789012",
        r#"CDTEXTFILE "a.cdt""#,
        r#"FILE "a b.wav" WAVE"#,
        "TRACK 01 AUDIO",
        "INDEX 01 00:02:74",
        "PREGAP 00:02:00",
        "POSTGAP 00:01:00",
        "ISRC JPX001000001",
        "FLAG DCP 4CH",
    ];
    for line in lines {
        assert_eq!(Command::new(line)?.to_string(), line);
    }
    assert_eq!(Command::new("title \"x\"")?.to_string(), "TITLE \"x\"");
    Ok(())
}

#[test]
fn blank_line_is_empty() {
    assert!(Command::new("  \t ").unwrap_err() == ParseError::Empty);
    assert!(Command::new("").unwrap_err() == ParseError::Empty);
    let mut sheet = Cuna::default();
    let mut parser = Parser::new("   \nREM x");
    parser.parse_next_line(&mut sheet).unwrap();
    assert!(sheet.comments.0.is_empty());
    assert!(sheet.files.is_empty());
    assert_eq!(parser.current_line(), Some("REM x"));
}

#[test]
fn index_after_track() -> Result {
    let sheet = Cuna::new("FILE \"a.wav\" WAVE\nTRACK 01 AUDIO\nINDEX 01 00:00:00")?;
    let track = sheet.files.last().unwrap().last_track().unwrap();
    assert_eq!(track.index.len(), 1);
    assert_eq!(track.index[0].id(), 1);
    Ok(())
}

#[test]
fn pregap_then_index() {
    let ok = Cuna::new("FILE a.wav WAVE\nTRACK 01 AUDIO\nPREGAP 00:02:00\nINDEX 01 00:00:00");
    let sheet = ok.unwrap();
    assert_eq!(sheet.last_track().unwrap().pregap(), Some(&TimeStamp::new(0, 2, 0)));
    let err = Cuna::new("FILE a.wav WAVE\nTRACK 01 AUDIO\nINDEX 01 00:00:00\nPREGAP 00:02:00").unwrap_err();
    assert_eq!(err.pos(), Some(4));
    assert!(
        *err.kind()
            == ParseError::SyntaxError(
                "PREGAP 00:02:00: Command `PREGAP` should be before `INDEX`".to_owned()
            )
    );
}

#[test]
fn duplicate_catalog() {
    let mut sheet = Cuna::default();
    let mut parser = Parser::new("CATALOG 1111111111111\nCATALOG 2222222222222");
    parser.parse_next_line(&mut sheet).unwrap();
    let err = parser.parse_next_line(&mut sheet).unwrap_err();
    assert_eq!(err.pos(), Some(2));
    assert!(
        *err.kind()
            == ParseError::SyntaxError(
                "CATALOG 2222222222222: multiple `CATALOG` commands is not allowed".to_owned()
            )
    );
    assert_eq!(sheet.header.catalog, Some(1111111111111));
}

#[test]
fn index_out_of_scope() {
    let mut sheet = Cuna::default();
    let mut parser = Parser::new("REM x\nINDEX 01 00:00:00");
    parser.parse_next_line(&mut sheet).unwrap();
    let err = parser.parse_next_line(&mut sheet).unwrap_err();
    assert!(*err.kind() == ParseError::UnexpectedToken("INDEX".to_owned()));
    assert_eq!(err.pos(), Some(2));
    assert_eq!(sheet.comments.0, vec!["x".to_owned()]);
    assert!(sheet.files.is_empty());
    assert_eq!(sheet.header.catalog, None);
    assert_eq!(sheet.header.title, None);
}

#[test]
fn batches_match_one_scan() {
    let mut all = Cuna::default();
    Parser::new(CUE.trim_start_matches('\u{feff}')).parse(&mut all).unwrap();
    let mut one = Cuna::default();
    let mut parser = Parser::new(CUE.trim_start_matches('\u{feff}'));
    while parser.current_line().is_some() {
        parser.parse_next_line(&mut one).unwrap();
    }
    assert_eq!(all.files, one.files);
    assert_eq!(all.header, one.header);
    assert_eq!(all.comments.0, one.comments.0);
    let mut three = Cuna::default();
    let mut parser = Parser::new(CUE.trim_start_matches('\u{feff}'));
    while parser.current_line().is_some() {
        parser.parse_next_n_lines(3, &mut three).unwrap();
    }
    assert_eq!(all.files, three.files);
}

#[test]
fn argument_errors() {
    assert!(Command::new("TRACK 1 AUDIO").unwrap_err() == ParseError::InvalidArgument(InvalidArgument::InvalidId));
    assert!(Command::new("INDEX 01 00:61:00").unwrap_err() == ParseError::InvalidArgument(InvalidArgument::InvalidTimestamp));
    assert!(Command::new("TRACK 01").unwrap_err() == ParseError::SyntaxError("TRACK: missing arguments".to_owned()));
    assert!(Command::new("CATALOG").unwrap_err() == ParseError::SyntaxError("CATALOG: missing arguments".to_owned()));
    assert!(Command::new("CATALOG 123").unwrap_err() == ParseError::SyntaxError("123: invaild catalog".to_owned()));
    assert!(Command::new("CATALOG 1234567890123x").unwrap_err() == ParseError::SyntaxError("1234567890123x: invaild catalog".to_owned()));
    assert!(Command::new("TRACK 07x AUDIO").unwrap_err() == ParseError::InvalidArgument(InvalidArgument::InvalidId));
    assert!(Command::new("INDEX 01x 00:00:00").unwrap_err() == ParseError::InvalidArgument(InvalidArgument::InvalidId));
    assert!(Command::new("FOO bar").unwrap_err() == ParseError::UnexpectedToken("FOO".to_owned()));
}

#[test]
fn scope_errors() {
    let err = Cuna::new("TRACK 01 AUDIO").unwrap_err();
    assert!(*err.kind() == ParseError::SyntaxError("TRACK 01 AUDIO: no `FILE` in scope".to_owned()));
    let err = Cuna::new("ISRC X").unwrap_err();
    assert!(*err.kind() == ParseError::UnexpectedToken("ISRC".to_owned()));
    let err = Cuna::new("FILE a WAVE\nTRACK 01 AUDIO\nPOSTGAP 00:01:00\nINDEX 01 00:00:00").unwrap_err();
    assert_eq!(err.pos(), Some(4));
    let err = Cuna::new("FILE a WAVE\nTRACK 01 AUDIO\nFLAG DCP\nFLAG PRE").unwrap_err();
    assert!(*err.kind() == ParseError::SyntaxError("FLAG PRE: Multiple `FLAGS` commands are not allowed in one `TRACK` scope".to_owned()));
    let err = Cuna::new("CDTEXTFILE a\nCDTEXTFILE b").unwrap_err();
    assert_eq!(err.pos(), Some(2));
}

#[test]
fn track_fields() -> Result {
    let sheet = Cuna::new("FILE a WAVE\r\nTRACK 02 AUDIO\r\nISRC JPX001\r\nFLAG DCP 4CH\r\nSONGWRITER ryo\r\n\r\nTITLE t")?;
    let track = sheet.last_track().unwrap();
    assert_eq!(track.isrc(), Some("JPX001"));
    assert_eq!(track.flags(), Some(&vec!["DCP".to_owned(), "4CH".to_owned()]));
    assert_eq!(track.songwriter(), Some(&vec!["ryo".to_owned()]));
    assert_eq!(track.title(), Some(&vec!["t".to_owned()]));
    assert_eq!(track.format(), "AUDIO");
    Ok(())
}

#[test]
fn constructors() {
    assert!(Track::new_opt(0, "AUDIO".to_owned()).is_none());
    assert!(Track::new_opt(100, "AUDIO".to_owned()).is_none());
    assert_eq!(Track::new(99, "AUDIO".to_owned()).id(), 99);
    assert!(Index::new_opt(100, TimeStamp::new(0, 0, 0)).is_none());
    assert_eq!(Index::new(5, TimeStamp::new(0, 0, 0)).id(), 5);
    let track: Track = "TRACK 03 MODE1/2352".parse().unwrap();
    assert_eq!(track.id(), 3);
    assert_eq!(track.format(), "MODE1/2352");
    let index: Index = "INDEX 02 01:02:03".parse().unwrap();
    assert_eq!(index.id(), 2);
    assert_eq!(*index.begin_time(), TimeStamp::new(1, 2, 3));
    assert!("INDEX 2 01:02:03".parse::<Index>().is_err());
    let mut info = TrackInfo::new("a".to_owned(), "WAVE".to_owned());
    assert!(info.last_track().is_none());
    info.push_track(Track::new(1, "AUDIO".to_owned()));
    info.last_track_mut().unwrap().push_title("x".to_owned());
    assert_eq!(info.last_track().unwrap().title(), Some(&vec!["x".to_owned()]));
}

#[test]
fn timestamp_carry() {
    let t = TimeStamp::from_msf(0, 59, 150);
    assert_eq!((t.minutes(), t.seconds(), t.frames()), (1, 1, 0));
    assert_eq!(TimeStamp::new(123, 4, 5).to_string(), "123:04:05");
}

#[test]
fn comments_from_text() {
    let c = cuna::comment::Comment::new("REM a\nTITLE x\nrem  b  \nREMARK");
    assert_eq!(c.0, vec!["a".to_owned(), "b".to_owned()]);
}

#[test]
fn line_endings() {
    let mut parser = Parser::new("REM a\r\n\r\nREM b\rc\n");
    let mut sheet = Cuna::default();
    parser.parse(&mut sheet).unwrap();
    assert_eq!(sheet.comments.0, vec!["a".to_owned(), "b\rc".to_owned()]);
    let err = Cuna::new("REM a\n\n\nFOO x\n").unwrap_err();
    assert_eq!(err.pos(), Some(4));
}
