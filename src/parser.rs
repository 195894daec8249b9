use vstd::prelude::*;

use crate::error::Error;
use crate::error::InvalidArgument;
use crate::error::ParseError;
use crate::error::ParseErrorView;
use crate::error::syntax_message;
use crate::lines::lines_of;
use crate::lines::text_lines;
use crate::time::TimeStamp;
use crate::time::timestamp_spec;
use crate::time::timestamp_text;
use crate::track::Index;
use crate::track::Track;
use crate::track::TrackInfo;
use crate::track::TrackInfoView;
use crate::track::TrackView;
use crate::track::empty_track;
use crate::track::push_opt;
use crate::track::strings_view;
use crate::utils::decimal_text;
use crate::utils::eq_ignore_case;
use crate::utils::lemma_two_digits_below;
use crate::utils::number;
use crate::utils::number_spec;
use crate::utils::push_decimal;
use crate::utils::quote_opt;
use crate::utils::quote_opt_spec;
use crate::utils::same_ignoring_case;
use crate::utils::split_from;
use crate::utils::split_on;
use crate::utils::token;
use crate::utils::token_spec;
use crate::utils::trim;
use crate::utils::trim_spec;
use crate::utils::unquote;
use crate::utils::unquote_spec;
use crate::utils::white_space;
use crate::utils::lemma_trim_blank;
use crate::Cuna;
use crate::CunaView;
use crate::HeaderView;
use crate::last_track_of;
use crate::set_last_track;
use crate::push_last_track;
use crate::empty_sheet;

verus! {

/// One command of a cue sheet.
#[derive(Debug, Clone, PartialEq, Eq, Hash)]
pub enum Command {
    Rem(String),
    Title(String),
    Performer(String),
    Songwriter(String),
    Catalog(u64),
    Cdtextfile(String),
    File(String, String),
    Track(u8, String),
    Index(u8, TimeStamp),
    Pregap(String),
    Postgap(String),
    Isrc(String),
    Flags(String),
}

/// The mathematical value of a `Command`.
pub enum CommandView {
    Rem(Seq<char>),
    Title(Seq<char>),
    Performer(Seq<char>),
    Songwriter(Seq<char>),
    Catalog(u64),
    Cdtextfile(Seq<char>),
    File(Seq<char>, Seq<char>),
    Track(u8, Seq<char>),
    Index(u8, (u32, u32, u32)),
    Pregap(Seq<char>),
    Postgap(Seq<char>),
    Isrc(Seq<char>),
    Flags(Seq<char>),
}

impl View for Command {
    type V = CommandView;

    open spec fn view(&self) -> CommandView {
        match self {
            Command::Rem(s) => CommandView::Rem(s@),
            Command::Title(s) => CommandView::Title(s@),
            Command::Performer(s) => CommandView::Performer(s@),
            Command::Songwriter(s) => CommandView::Songwriter(s@),
            Command::Catalog(n) => CommandView::Catalog(*n),
            Command::Cdtextfile(s) => CommandView::Cdtextfile(s@),
            Command::File(n, f) => CommandView::File(n@, f@),
            Command::Track(i, f) => CommandView::Track(*i, f@),
            Command::Index(i, t) => CommandView::Index(*i, t@),
            Command::Pregap(s) => CommandView::Pregap(s@),
            Command::Postgap(s) => CommandView::Postgap(s@),
            Command::Isrc(s) => CommandView::Isrc(s@),
            Command::Flags(s) => CommandView::Flags(s@),
        }
    }
}

pub open spec fn result_view(r: Result<Command, ParseError>) -> Result<CommandView, ParseErrorView> {
    match r {
        Ok(c) => Ok(c@),
        Err(e) => Err(e@),
    }
}

/// `"text"`
pub open spec fn quoted(s: Seq<char>) -> Seq<char> {
    "\""@ + s + "\""@
}

/// The canonical text of a command.
pub open spec fn render_spec(c: CommandView) -> Seq<char> {
    match c {
        CommandView::Rem(s) => "REM "@ + s,
        CommandView::Title(s) => "TITLE "@ + quoted(s),
        CommandView::Performer(s) => "PERFORMER "@ + quoted(s),
        CommandView::Songwriter(s) => "SONGWRITER "@ + quoted(s),
        CommandView::Catalog(n) => "CATALOG "@ + decimal_text(n as nat, 13),
        CommandView::Cdtextfile(s) => "CDTEXTFILE "@ + quoted(s),
        CommandView::File(n, f) => "FILE "@ + quoted(n) + " "@ + f,
        CommandView::Track(i, f) => "TRACK "@ + decimal_text(i as nat, 2) + " "@ + f,
        CommandView::Index(i, t) => "INDEX "@ + decimal_text(i as nat, 2) + " "@ + timestamp_text(t),
        CommandView::Pregap(s) => "PREGAP "@ + s,
        CommandView::Postgap(s) => "POSTGAP "@ + s,
        CommandView::Isrc(s) => "ISRC "@ + s,
        CommandView::Flags(s) => "FLAG "@ + s,
    }
}

pub open spec fn missing(s: Seq<char>) -> ParseErrorView {
    ParseErrorView::SyntaxError(syntax_message(s, "missing arguments"@))
}

/// `TRACK` content: a two-digit id, a space, the format.
pub open spec fn track_spec(command: Seq<char>, content: Seq<char>) -> Result<CommandView, ParseErrorView> {
    match token_spec(content) {
        Some((format, id)) => match number_spec(id, 2) {
            Some((rest, v)) => if rest.len() == 0 {
                Ok(CommandView::Track(v as u8, format))
            } else {
                Err(ParseErrorView::InvalidArgument(InvalidArgument::InvalidId))
            },
            None => Err(ParseErrorView::InvalidArgument(InvalidArgument::InvalidId)),
        },
        None => Err(missing(command)),
    }
}

/// `INDEX` content: a two-digit id, a space, the time stamp.
pub open spec fn index_spec(command: Seq<char>, content: Seq<char>) -> Result<CommandView, ParseErrorView> {
    match token_spec(content) {
        Some((ts, id)) => match number_spec(id, 2) {
            Some((rest, v)) => if rest.len() == 0 {
                match timestamp_spec(ts) {
                    Some(t) => Ok(CommandView::Index(v as u8, t)),
                    None => Err(ParseErrorView::InvalidArgument(InvalidArgument::InvalidTimestamp)),
                }
            } else {
                Err(ParseErrorView::InvalidArgument(InvalidArgument::InvalidId))
            },
            None => Err(ParseErrorView::InvalidArgument(InvalidArgument::InvalidId)),
        },
        None => Err(missing(command)),
    }
}

/// The command that a line holds, or why it holds none.
pub open spec fn parse_spec(line: Seq<char>) -> Result<CommandView, ParseErrorView> {
    let s = trim_spec(line);
    if s.len() == 0 {
        Err(ParseErrorView::Empty)
    } else {
        match token_spec(s) {
            None => Err(missing(s)),
            Some((content, command)) => {
                if same_ignoring_case(command, "REM"@) {
                    Ok(CommandView::Rem(content))
                } else if same_ignoring_case(command, "TITLE"@) {
                    Ok(CommandView::Title(unquote_spec(content)))
                } else if same_ignoring_case(command, "PERFORMER"@) {
                    Ok(CommandView::Performer(unquote_spec(content)))
                } else if same_ignoring_case(command, "SONGWRITER"@) {
                    Ok(CommandView::Songwriter(unquote_spec(content)))
                } else if same_ignoring_case(command, "CATALOG"@) {
                    match number_spec(content, 13) {
                        Some((rest, n)) if rest.len() == 0 => Ok(CommandView::Catalog(n as u64)),
                        _ => Err(
                            ParseErrorView::SyntaxError(syntax_message(content, "invaild catalog"@)),
                        ),
                    }
                } else if same_ignoring_case(command, "CDTEXTFILE"@) {
                    Ok(CommandView::Cdtextfile(unquote_spec(content)))
                } else if same_ignoring_case(command, "FILE"@) {
                    let (format, path) = quote_opt_spec(content);
                    Ok(CommandView::File(unquote_spec(path), trim_spec(format)))
                } else if same_ignoring_case(command, "TRACK"@) {
                    track_spec(command, content)
                } else if same_ignoring_case(command, "INDEX"@) {
                    index_spec(command, content)
                } else if same_ignoring_case(command, "PREGAP"@) {
                    Ok(CommandView::Pregap(unquote_spec(content)))
                } else if same_ignoring_case(command, "POSTGAP"@) {
                    Ok(CommandView::Postgap(unquote_spec(content)))
                } else if same_ignoring_case(command, "ISRC"@) {
                    Ok(CommandView::Isrc(unquote_spec(content)))
                } else if same_ignoring_case(command, "FLAG"@) {
                    Ok(CommandView::Flags(unquote_spec(content)))
                } else {
                    Err(ParseErrorView::UnexpectedToken(command))
                }
            },
        }
    }
}

/// The error that names command `c` and what is wrong with it.
pub open spec fn misplaced(c: CommandView, description: Seq<char>) -> ParseErrorView {
    ParseErrorView::SyntaxError(syntax_message(render_spec(c), description))
}

pub open spec fn with_header(s: CunaView, h: HeaderView) -> CunaView {
    CunaView { header: h, ..s }
}

/// The sheet after command `c`, or the error it meets; on an error the sheet is unchanged.
pub open spec fn apply_spec(c: CommandView, s: CunaView) -> Result<CunaView, ParseErrorView> {
    let h = s.header;
    match c {
        CommandView::Rem(x) => Ok(CunaView { comments: s.comments.push(x), ..s }),
        CommandView::Title(x) => match last_track_of(s) {
            Some(t) => Ok(set_last_track(s, TrackView { title: push_opt(t.title, x), ..t })),
            None => Ok(with_header(s, HeaderView { title: push_opt(h.title, x), ..h })),
        },
        CommandView::Performer(x) => match last_track_of(s) {
            Some(t) => Ok(set_last_track(s, TrackView { performer: push_opt(t.performer, x), ..t })),
            None => Ok(with_header(s, HeaderView { performer: push_opt(h.performer, x), ..h })),
        },
        CommandView::Songwriter(x) => match last_track_of(s) {
            Some(t) => Ok(set_last_track(s, TrackView { songwriter: push_opt(t.songwriter, x), ..t })),
            None => Ok(with_header(s, HeaderView { songwriter: push_opt(h.songwriter, x), ..h })),
        },
        CommandView::Catalog(n) => if h.catalog.is_none() {
            Ok(with_header(s, HeaderView { catalog: Some(n), ..h }))
        } else {
            Err(misplaced(c, "multiple `CATALOG` commands is not allowed"@))
        },
        CommandView::Cdtextfile(x) => if h.cdtextfile.is_none() {
            Ok(with_header(s, HeaderView { cdtextfile: Some(x), ..h }))
        } else {
            Err(misplaced(c, "multiple `CDTEXTFILE` commands are not allowed"@))
        },
        CommandView::File(name, format) => Ok(
            CunaView {
                files: s.files.push(TrackInfoView { name, format, tracks: Seq::empty() }),
                ..s
            },
        ),
        CommandView::Track(id, format) => if s.files.len() > 0 {
            Ok(push_last_track(s, empty_track(id, format)))
        } else {
            Err(misplaced(c, "no `FILE` in scope"@))
        },
        CommandView::Index(id, ts) => match last_track_of(s) {
            None => Err(ParseErrorView::UnexpectedToken("INDEX"@)),
            Some(t) => if t.postgap.is_none() {
                Ok(set_last_track(s, TrackView { index: t.index.push((id, ts)), ..t }))
            } else {
                Err(misplaced(c, "Command `INDEX` should be before `POSTGAP`"@))
            },
        },
        CommandView::Pregap(x) => match last_track_of(s) {
            None => Err(ParseErrorView::UnexpectedToken("PREGAP"@)),
            Some(t) => if t.index.len() > 0 {
                Err(misplaced(c, "Command `PREGAP` should be before `INDEX`"@))
            } else if t.pregap.is_some() {
                Err(misplaced(c, "Multiple `PREGAP` commands are not allowed in one `TRACK` scope"@))
            } else if t.postgap.is_some() {
                Err(misplaced(c, "Command `PREGAP` should be before `POSTGAP`"@))
            } else {
                match timestamp_spec(x) {
                    Some(v) => Ok(set_last_track(s, TrackView { pregap: Some(v), ..t })),
                    None => Err(ParseErrorView::InvalidArgument(InvalidArgument::InvalidTimestamp)),
                }
            },
        },
        CommandView::Postgap(x) => match last_track_of(s) {
            None => Err(ParseErrorView::UnexpectedToken("POSTGAP"@)),
            Some(t) => if t.postgap.is_some() {
                Err(misplaced(c, "Multiple `POSTGAP` commands are not allowed in one `TRACK` scope"@))
            } else {
                match timestamp_spec(x) {
                    Some(v) => Ok(set_last_track(s, TrackView { postgap: Some(v), ..t })),
                    None => Err(ParseErrorView::InvalidArgument(InvalidArgument::InvalidTimestamp)),
                }
            },
        },
        CommandView::Isrc(x) => match last_track_of(s) {
            None => Err(ParseErrorView::UnexpectedToken("ISRC"@)),
            Some(t) => if t.isrc.is_some() {
                Err(misplaced(c, "Multiple `ISRC` commands are not allowed in one `TRACK` scope"@))
            } else {
                Ok(set_last_track(s, TrackView { isrc: Some(x), ..t }))
            },
        },
        CommandView::Flags(x) => match last_track_of(s) {
            None => Err(ParseErrorView::UnexpectedToken("FLAGS"@)),
            Some(t) => if t.flags.is_some() {
                Err(misplaced(c, "Multiple `FLAGS` commands are not allowed in one `TRACK` scope"@))
            } else {
                Ok(set_last_track(s, TrackView { flags: Some(split_from(x, ' ', 0)), ..t }))
            },
        },
    }
}

fn owned(s: &str) -> (r: String)
    ensures
        r@ == s@,
{
    String::from_str(s)
}

impl Command {
    /// Reads the command on one line; a blank line gives `ParseError::Empty`.
    pub fn new(s: &str) -> (r: Result<Command, ParseError>)
        ensures
            result_view(r) == parse_spec(s@),
    {
        let s = trim(s);
        if s.unicode_len() == 0 {
            return Err(ParseError::Empty);
        }
        let (content, command) = match token(s) {
            Some(p) => p,
            None => return Err(ParseError::syntax_error(s, "missing arguments")),
        };
        if eq_ignore_case(command, "REM") {
            Ok(Command::Rem(owned(content)))
        } else if eq_ignore_case(command, "TITLE") {
            Ok(Command::Title(owned(unquote(content))))
        } else if eq_ignore_case(command, "PERFORMER") {
            Ok(Command::Performer(owned(unquote(content))))
        } else if eq_ignore_case(command, "SONGWRITER") {
            Ok(Command::Songwriter(owned(unquote(content))))
        } else if eq_ignore_case(command, "CATALOG") {
            match number(13, content) {
                Some((rest, n)) if rest.unicode_len() == 0 => Ok(Command::Catalog(n)),
                _ => Err(ParseError::syntax_error(content, "invaild catalog")),
            }
        } else if eq_ignore_case(command, "CDTEXTFILE") {
            Ok(Command::Cdtextfile(owned(unquote(content))))
        } else if eq_ignore_case(command, "FILE") {
            let (format, path) = quote_opt(content);
            Ok(Command::File(owned(unquote(path)), owned(trim(format))))
        } else if eq_ignore_case(command, "TRACK") {
            match token(content) {
                Some((format, id)) => match number(2, id) {
                    Some((rest, v)) if rest.unicode_len() == 0 => {
                        proof {
                            lemma_two_digits_below(id@);
                        }
                        Ok(Command::Track(v as u8, owned(format)))
                    },
                    _ => Err(ParseError::InvalidArgument(InvalidArgument::InvalidId)),
                },
                None => Err(ParseError::syntax_error(command, "missing arguments")),
            }
        } else if eq_ignore_case(command, "INDEX") {
            match token(content) {
                Some((ts, id)) => match number(2, id) {
                    Some((rest, v)) if rest.unicode_len() == 0 => {
                        proof {
                            lemma_two_digits_below(id@);
                        }
                        match TimeStamp::from_text(ts) {
                            Ok(t) => Ok(Command::Index(v as u8, t)),
                            Err(e) => Err(e),
                        }
                    },
                    _ => Err(ParseError::InvalidArgument(InvalidArgument::InvalidId)),
                },
                None => Err(ParseError::syntax_error(command, "missing arguments")),
            }
        } else if eq_ignore_case(command, "PREGAP") {
            Ok(Command::Pregap(owned(unquote(content))))
        } else if eq_ignore_case(command, "POSTGAP") {
            Ok(Command::Postgap(owned(unquote(content))))
        } else if eq_ignore_case(command, "ISRC") {
            Ok(Command::Isrc(owned(unquote(content))))
        } else if eq_ignore_case(command, "FLAG") {
            Ok(Command::Flags(owned(unquote(content))))
        } else {
            Err(ParseError::unexpected_token(command))
        }
    }

    /// The canonical text of the command; quoted fields are always quoted.
    pub fn to_string(&self) -> (r: String)
        ensures
            r@ == render_spec(self@),
    {
        match self {
            Command::Rem(c) => {
                let mut o = owned("REM ");
                o.append(c.as_str());
                assert(o@ =~= render_spec(self@));
                o
            },
            Command::Title(c) => {
                let mut o = owned("TITLE ");
                o.append("\"");
                o.append(c.as_str());
                o.append("\"");
                assert(o@ =~= render_spec(self@));
                o
            },
            Command::Performer(c) => {
                let mut o = owned("PERFORMER ");
                o.append("\"");
                o.append(c.as_str());
                o.append("\"");
                assert(o@ =~= render_spec(self@));
                o
            },
            Command::Songwriter(c) => {
                let mut o = owned("SONGWRITER ");
                o.append("\"");
                o.append(c.as_str());
                o.append("\"");
                assert(o@ =~= render_spec(self@));
                o
            },
            Command::Catalog(n) => {
                let mut o = owned("CATALOG ");
                push_decimal(&mut o, *n, 13);
                assert(o@ =~= render_spec(self@));
                o
            },
            Command::Cdtextfile(c) => {
                let mut o = owned("CDTEXTFILE ");
                o.append("\"");
                o.append(c.as_str());
                o.append("\"");
                assert(o@ =~= render_spec(self@));
                o
            },
            Command::File(name, format) => {
                let mut o = owned("FILE ");
                o.append("\"");
                o.append(name.as_str());
                o.append("\"");
                o.append(" ");
                o.append(format.as_str());
                assert(o@ =~= render_spec(self@));
                o
            },
            Command::Track(id, format) => {
                let mut o = owned("TRACK ");
                push_decimal(&mut o, *id as u64, 2);
                o.append(" ");
                o.append(format.as_str());
                assert(o@ =~= render_spec(self@));
                o
            },
            Command::Index(id, ts) => {
                let mut o = owned("INDEX ");
                push_decimal(&mut o, *id as u64, 2);
                o.append(" ");
                let t = ts.to_string();
                o.append(t.as_str());
                assert(o@ =~= render_spec(self@));
                o
            },
            Command::Pregap(c) => {
                let mut o = owned("PREGAP ");
                o.append(c.as_str());
                assert(o@ =~= render_spec(self@));
                o
            },
            Command::Postgap(c) => {
                let mut o = owned("POSTGAP ");
                o.append(c.as_str());
                assert(o@ =~= render_spec(self@));
                o
            },
            Command::Isrc(c) => {
                let mut o = owned("ISRC ");
                o.append(c.as_str());
                assert(o@ =~= render_spec(self@));
                o
            },
            Command::Flags(c) => {
                let mut o = owned("FLAG ");
                o.append(c.as_str());
                assert(o@ =~= render_spec(self@));
                o
            },
        }
    }
}

/// What the current track of a sheet holds, as far as the rules of order need it.
struct TrackState {
    open: bool,
    indexed: bool,
    pregap: bool,
    postgap: bool,
    isrc: bool,
    flags: bool,
}

fn track_state(sheet: &Cuna) -> (r: TrackState)
    ensures
        r.open == last_track_of(sheet@).is_some(),
        r.open ==> {
            let t = last_track_of(sheet@).unwrap();
            &&& r.indexed == (t.index.len() > 0)
            &&& r.pregap == t.pregap.is_some()
            &&& r.postgap == t.postgap.is_some()
            &&& r.isrc == t.isrc.is_some()
            &&& r.flags == t.flags.is_some()
        },
{
    match sheet.last_track() {
        Some(t) => TrackState {
            open: true,
            indexed: t.index_len() > 0,
            pregap: t.pregap().is_some(),
            postgap: t.postgap().is_some(),
            isrc: t.isrc().is_some(),
            flags: t.flags().is_some(),
        },
        None => TrackState {
            open: false,
            indexed: false,
            pregap: false,
            postgap: false,
            isrc: false,
            flags: false,
        },
    }
}

impl Command {
    /// The syntax error that names this command.
    fn fail(&self, description: &str) -> (r: ParseError)
        ensures
            r@ == misplaced(self@, description@),
    {
        let text = self.to_string();
        ParseError::syntax_error(text.as_str(), description)
    }

    /// Applies the command to the sheet; on an error the sheet is left as it was.
    pub fn parse(&self, sheet: &mut Cuna) -> (r: Result<(), ParseError>)
        ensures
            match apply_spec(self@, old(sheet)@) {
                Ok(s) => r.is_ok() && final(sheet)@ == s,
                Err(e) => r.is_err() && r.unwrap_err()@ == e && final(sheet)@ == old(sheet)@,
            },
    {
        let st = track_state(sheet);
        match self {
            Command::Rem(s) => {
                sheet.comments.push(s.clone());
            },
            Command::Title(s) => {
                if st.open {
                    let mut t = sheet.take_last_track();
                    t.push_title(s.clone());
                    sheet.push_track(t);
                } else {
                    sheet.header.push_title(s.clone());
                }
            },
            Command::Performer(s) => {
                if st.open {
                    let mut t = sheet.take_last_track();
                    t.push_performer(s.clone());
                    sheet.push_track(t);
                } else {
                    sheet.header.push_performer(s.clone());
                }
            },
            Command::Songwriter(s) => {
                if st.open {
                    let mut t = sheet.take_last_track();
                    t.push_songwriter(s.clone());
                    sheet.push_track(t);
                } else {
                    sheet.header.push_songwriter(s.clone());
                }
            },
            Command::Catalog(n) => {
                if sheet.header.catalog.is_some() {
                    return Err(self.fail("multiple `CATALOG` commands is not allowed"));
                }
                sheet.header.set_catalog(*n);
            },
            Command::Cdtextfile(s) => {
                if sheet.header.cdtextfile.is_some() {
                    return Err(self.fail("multiple `CDTEXTFILE` commands are not allowed"));
                }
                sheet.header.set_cdtextfile(s.clone());
            },
            Command::File(name, format) => {
                sheet.push_file(TrackInfo::new(name.clone(), format.clone()));
            },
            Command::Track(id, format) => {
                if sheet.files.len() == 0 {
                    return Err(self.fail("no `FILE` in scope"));
                }
                sheet.push_track(Track::new_unchecked(*id, format.clone()));
            },
            Command::Index(id, ts) => {
                if !st.open {
                    return Err(ParseError::unexpected_token("INDEX"));
                }
                if st.postgap {
                    return Err(self.fail("Command `INDEX` should be before `POSTGAP`"));
                }
                let mut t = sheet.take_last_track();
                t.push_index(Index::new_unchecked(*id, *ts));
                sheet.push_track(t);
            },
            Command::Pregap(x) => {
                if !st.open {
                    return Err(ParseError::unexpected_token("PREGAP"));
                }
                if st.indexed {
                    return Err(self.fail("Command `PREGAP` should be before `INDEX`"));
                }
                if st.pregap {
                    return Err(
                        self.fail("Multiple `PREGAP` commands are not allowed in one `TRACK` scope"),
                    );
                }
                if st.postgap {
                    return Err(self.fail("Command `PREGAP` should be before `POSTGAP`"));
                }
                let v = TimeStamp::from_text(x.as_str())?;
                let mut t = sheet.take_last_track();
                t.set_pregep(v);
                sheet.push_track(t);
            },
            Command::Postgap(x) => {
                if !st.open {
                    return Err(ParseError::unexpected_token("POSTGAP"));
                }
                if st.postgap {
                    return Err(
                        self.fail("Multiple `POSTGAP` commands are not allowed in one `TRACK` scope"),
                    );
                }
                let v = TimeStamp::from_text(x.as_str())?;
                let mut t = sheet.take_last_track();
                t.set_postgep(v);
                sheet.push_track(t);
            },
            Command::Isrc(x) => {
                if !st.open {
                    return Err(ParseError::unexpected_token("ISRC"));
                }
                if st.isrc {
                    return Err(
                        self.fail("Multiple `ISRC` commands are not allowed in one `TRACK` scope"),
                    );
                }
                let mut t = sheet.take_last_track();
                t.set_isrc(x.clone());
                sheet.push_track(t);
            },
            Command::Flags(x) => {
                if !st.open {
                    return Err(ParseError::unexpected_token("FLAGS"));
                }
                if st.flags {
                    return Err(
                        self.fail("Multiple `FLAGS` commands are not allowed in one `TRACK` scope"),
                    );
                }
                let pieces = split_on(x.as_str(), ' ');
                let mut t = sheet.take_last_track();
                t.push_flags(pieces);
                sheet.push_track(t);
            },
        }
        Ok(())
    }
}

/// The sheet after one line, or the error that line meets; blank lines change nothing.
pub open spec fn step_spec(line: Seq<char>, s: CunaView) -> Result<CunaView, ParseErrorView> {
    match parse_spec(line) {
        Ok(c) => apply_spec(c, s),
        Err(ParseErrorView::Empty) => Ok(s),
        Err(e) => Err(e),
    }
}

/// Scans `lines[i..end]` from sheet `s`: the sheet reached, and the first failing line
/// (0-based) with its error, where one fails.
pub open spec fn run_spec(lines: Seq<Seq<char>>, i: int, end: int, s: CunaView) -> (
    CunaView,
    Option<(int, ParseErrorView)>,
)
    decreases end - i,
{
    if i < end {
        match step_spec(lines[i], s) {
            Ok(s2) => run_spec(lines, i + 1, end, s2),
            Err(e) => (s, Some((i, e))),
        }
    } else {
        (s, None)
    }
}

/// A line of white space alone holds no command (the `Empty` signal), and scanning it
/// leaves the sheet exactly as it was.
pub proof fn lemma_blank_line(line: Seq<char>, s: CunaView)
    requires
        forall|i: int| 0 <= i < line.len() ==> white_space(#[trigger] line[i]),
    ensures
        parse_spec(line) == Err::<CommandView, ParseErrorView>(ParseErrorView::Empty),
        step_spec(line, s) == Ok::<CunaView, ParseErrorView>(s),
{
    lemma_trim_blank(line);
}

/// Scanning lines `a..c` in one call gives what scanning `a..b` gives when a line there
/// fails, and otherwise what scanning `b..c` gives from the sheet that `a..b` reached. So a
/// scan in batches of any size, one line at a time included, ends with the same sheet and
/// the same error as one scan of all the lines.
pub proof fn lemma_batches_compose(lines: Seq<Seq<char>>, a: int, b: int, c: int, s: CunaView)
    requires
        a <= b <= c,
    ensures
        run_spec(lines, a, c, s) == (match run_spec(lines, a, b, s) {
            (s1, None) => run_spec(lines, b, c, s1),
            out => out,
        }),
    decreases b - a,
{
    if a < b {
        match step_spec(lines[a], s) {
            Ok(s2) => lemma_batches_compose(lines, a + 1, b, c, s2),
            Err(_) => {},
        }
    }
}

/// A scanner over the lines of a text, with a cursor on the next line to read.
#[derive(Debug, Clone)]
pub struct Parser {
    lines: Vec<String>,
    pos: usize,
}

/// The mathematical value of a `Parser`.
pub struct ParserView {
    pub lines: Seq<Seq<char>>,
    pub pos: int,
}

impl View for Parser {
    type V = ParserView;

    closed spec fn view(&self) -> ParserView {
        ParserView { lines: strings_view(self.lines@), pos: self.pos as int }
    }
}

/// Where a batch of `n` lines from the cursor ends.
pub open spec fn batch_end(p: ParserView, n: int) -> int {
    if p.pos >= p.lines.len() {
        p.pos
    } else if p.pos + n >= p.lines.len() {
        p.lines.len() as int
    } else {
        p.pos + n
    }
}

/// What a scan of a batch owes: the sheet that `run_spec` reaches, the error with its
/// 1-based line, and the cursor after the last line read.
pub open spec fn scanned(
    p: ParserView,
    n: int,
    before: CunaView,
    after: CunaView,
    next: ParserView,
    r: Result<(), Error>,
) -> bool {
    let out = run_spec(p.lines, p.pos, batch_end(p, n), before);
    &&& after == out.0
    &&& next.lines == p.lines
    &&& match out.1 {
        None => r.is_ok() && next.pos == batch_end(p, n),
        Some((i, e)) => r.is_err() && r.unwrap_err()@ == (e, Some((i + 1) as usize)) && next.pos
            == i + 1,
    }
}

impl Parser {
    pub fn new(s: &str) -> (r: Self)
        ensures
            r@ == (ParserView { lines: lines_of(s@), pos: 0 }),
    {
        Parser { lines: text_lines(s), pos: 0 }
    }

    pub fn from_lines(lines: Vec<String>) -> (r: Self)
        ensures
            r@ == (ParserView { lines: strings_view(lines@), pos: 0 }),
    {
        Parser { lines, pos: 0 }
    }

    /// Starts over on other lines.
    pub fn set_lines(&mut self, lines: Vec<String>)
        ensures
            final(self)@ == (ParserView { lines: strings_view(lines@), pos: 0 }),
    {
        self.lines = lines;
        self.pos = 0;
    }

    /// The next line to read, if any is left.
    pub fn current_line(&self) -> (r: Option<&str>)
        ensures
            r.is_some() == (0 <= self@.pos < self@.lines.len()),
            r.is_some() ==> r.unwrap()@ == self@.lines[self@.pos],
    {
        if self.pos < self.lines.len() {
            Some(self.lines[self.pos].as_str())
        } else {
            None
        }
    }

    /// Parses one line and writes to state
    pub fn parse_next_line(&mut self, state: &mut Cuna) -> (r: Result<(), Error>)
        ensures
            scanned(old(self)@, 1, old(state)@, final(state)@, final(self)@, r),
    {
        self.parse_next_n_lines(1, state)
    }

    /// Parses n lines and writes to state
    /// Each line will be parsed and written to state until an Error is returned
    pub fn parse_next_n_lines(&mut self, n: usize, state: &mut Cuna) -> (r: Result<(), Error>)
        ensures
            scanned(old(self)@, n as int, old(state)@, final(state)@, final(self)@, r),
    {
        let len = self.lines.len();
        let start = self.pos;
        let end = if start >= len {
            start
        } else if n >= len - start {
            len
        } else {
            start + n
        };
        assert(end == batch_end(old(self)@, n as int));
        let mut i = start;
        while i < end
            invariant
                start <= i <= end,
                end <= len || end == start,
                end == batch_end(old(self)@, n as int),
                len == self.lines@.len(),
                self@.lines == old(self)@.lines,
                self.pos == start,
                start == old(self)@.pos,
                run_spec(old(self)@.lines, start as int, end as int, old(state)@) == run_spec(
                    old(self)@.lines,
                    i as int,
                    end as int,
                    state@,
                ),
            decreases end - i,
        {
            let ghost s0 = state@;
            assert(self.lines@[i as int]@ == old(self)@.lines[i as int]);
            let parsed = Command::new(self.lines[i].as_str());
            match parsed {
                Ok(c) => {
                    match c.parse(state) {
                        Ok(()) => {},
                        Err(e) => {
                            assert(run_spec(old(self)@.lines, i as int, end as int, s0) == (
                                s0,
                                Some((i as int, e@)),
                            ));
                            self.pos = i + 1;
                            return Err(Error::new(e, i + 1));
                        },
                    }
                },
                Err(e) => {
                    if !e.is_empty_kind() {
                        assert(run_spec(old(self)@.lines, i as int, end as int, s0) == (
                            s0,
                            Some((i as int, e@)),
                        ));
                        self.pos = i + 1;
                        return Err(Error::new(e, i + 1));
                    }
                },
            }
            i += 1;
        }
        self.pos = end;
        Ok(())
    }

    /// Parses all the lines and writes to state
    /// Each line will be parsed and written to state until an Error is returned
    pub fn parse(self, state: &mut Cuna) -> (r: Result<(), Error>)
        ensures
            ({
                let out = run_spec(self@.lines, self@.pos, self@.lines.len() as int, old(state)@);
                &&& final(state)@ == out.0
                &&& match out.1 {
                    None => r.is_ok(),
                    Some((i, e)) => r.is_err() && r.unwrap_err()@ == (e, Some((i + 1) as usize)),
                }
            }),
    {
        let mut p = self;
        let len = p.lines.len();
        p.parse_next_n_lines(len, state)
    }
}

/// The text with a leading byte-order mark taken off.
pub open spec fn strip_bom(s: Seq<char>) -> Seq<char> {
    if s.len() > 0 && s[0] == '\u{feff}' {
        s.subrange(1, s.len() as int)
    } else {
        s
    }
}

/// What reading a whole text gives: the sheet, or the error at its 1-based line.
pub open spec fn sheet_spec(text: Seq<char>, r: Result<Cuna, Error>) -> bool {
    let lines = lines_of(text);
    let out = run_spec(lines, 0, lines.len() as int, empty_sheet());
    match out.1 {
        None => r.is_ok() && r.unwrap()@ == out.0,
        Some((i, e)) => r.is_err() && r.unwrap_err()@ == (e, Some((i + 1) as usize)),
    }
}

impl Cuna {
    /// Reads a whole cue sheet.
    pub fn new(s: &str) -> (r: Result<Self, Error>)
        ensures
            sheet_spec(s@, r),
    {
        let mut sheet = Cuna::empty();
        match Parser::new(s).parse(&mut sheet) {
            Ok(()) => Ok(sheet),
            Err(e) => Err(e),
        }
    }

    /// Reads a whole cue sheet that may start with a byte-order mark.
    pub fn from_utf8_with_bom(s: &str) -> (r: Result<Self, Error>)
        ensures
            sheet_spec(strip_bom(s@), r),
    {
        let n = s.unicode_len();
        if n > 0 && s.get_char(0) == '\u{feff}' {
            Cuna::new(s.substring_char(1, n))
        } else {
            Cuna::new(s)
        }
    }
}

} // verus!
