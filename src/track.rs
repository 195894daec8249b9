use vstd::prelude::*;

use crate::error::ParseError;
use crate::error::ParseErrorView;
use crate::error::syntax_message;
use crate::time::TimeStamp;
use crate::time::timestamp_spec;
use crate::utils::keyword;
use crate::utils::keyword_spec;
use crate::utils::number;
use crate::utils::number_spec;
use crate::utils::lemma_two_digits_below;

verus! {

/// The texts held in a list of strings.
pub open spec fn strings_view(v: Seq<String>) -> Seq<Seq<char>> {
    v.map_values(|s: String| s@)
}

/// The texts held in an optional list of strings.
pub open spec fn opt_strings_view(o: Option<Vec<String>>) -> Option<Seq<Seq<char>>> {
    match o {
        Some(v) => Some(strings_view(v@)),
        None => None,
    }
}

/// An optional list with `s` appended; a missing list starts empty.
pub open spec fn push_opt(o: Option<Seq<Seq<char>>>, s: Seq<char>) -> Option<Seq<Seq<char>>> {
    match o {
        Some(l) => Some(l.push(s)),
        None => Some(seq![s]),
    }
}

/// An optional list with the items `l` appended; a missing list starts empty.
pub open spec fn extend_opt(o: Option<Seq<Seq<char>>>, l: Seq<Seq<char>>) -> Option<Seq<Seq<char>>> {
    match o {
        Some(k) => Some(k + l),
        None => Some(l),
    }
}

pub open spec fn opt_view<T: View>(o: Option<T>) -> Option<T::V> {
    match o {
        Some(t) => Some(t@),
        None => None,
    }
}

/// Push `s` to an optional list of strings, which starts empty when missing.
pub fn push_to(list: &mut Option<Vec<String>>, s: String)
    ensures
        opt_strings_view(*final(list)) == push_opt(opt_strings_view(*old(list)), s@),
{
    let mut v = match list.take() {
        Some(v) => v,
        None => Vec::new(),
    };
    v.push(s);
    proof {
        match *old(list) {
            Some(w) => assert(strings_view(v@) =~= strings_view(w@).push(s@)),
            None => assert(strings_view(v@) =~= seq![s@]),
        }
    }
    *list = Some(v);
}

/// An index point: its id and where it begins.
#[derive(Debug, Clone, Copy, PartialEq, Eq, Hash)]
pub struct Index {
    pub(crate) id: u8,
    pub begin_time: TimeStamp,
}

/// The line `INDEX nn MM:SS:FF`: the id and time stamp it gives.
pub open spec fn index_line_spec(s: Seq<char>) -> Option<(u8, (u32, u32, u32))> {
    match keyword_spec("INDEX"@, s) {
        Some(r1) => match number_spec(r1, 2) {
            Some((r2, id)) => if r2.len() > 0 && r2[0] == ' ' {
                match timestamp_spec(r2.subrange(1, r2.len() as int)) {
                    Some(t) => Some((id as u8, t)),
                    None => None,
                }
            } else {
                None
            },
            None => None,
        },
        None => None,
    }
}

/// The line `TRACK nn format`: the id and format it gives.
pub open spec fn track_line_spec(s: Seq<char>) -> Option<(u8, Seq<char>)> {
    match keyword_spec("TRACK"@, s) {
        Some(r1) => match number_spec(r1, 2) {
            Some((r2, id)) => if r2.len() > 0 && r2[0] == ' ' {
                Some((id as u8, r2.subrange(1, r2.len() as int)))
            } else {
                None
            },
            None => None,
        },
        None => None,
    }
}

impl View for Index {
    type V = (u8, (u32, u32, u32));

    closed spec fn view(&self) -> (u8, (u32, u32, u32)) {
        (self.id, self.begin_time@)
    }
}

impl Index {
    /// For ids that the grammar has already read as two digits.
    pub(crate) fn new_unchecked(id: u8, begin_time: TimeStamp) -> (r: Self)
        ensures
            r@ == (id, begin_time@),
    {
        Index { id, begin_time }
    }

    pub fn new(id: u8, begin_time: TimeStamp) -> (r: Self)
        requires
            1 <= id <= 99,
        ensures
            r@ == (id, begin_time@),
    {
        Self::new_unchecked(id, begin_time)
    }

    pub fn new_opt(id: u8, begin_time: TimeStamp) -> (r: Option<Self>)
        ensures
            r.is_some() == (1 <= id <= 99),
            r.is_some() ==> r.unwrap()@ == (id, begin_time@),
    {
        if 1 <= id && id <= 99 {
            Some(Self::new_unchecked(id, begin_time))
        } else {
            None
        }
    }

    pub fn id(&self) -> (r: u8)
        ensures
            r == self@.0,
    {
        self.id
    }

    pub fn begin_time(&self) -> (r: &TimeStamp)
        ensures
            r@ == self@.1,
    {
        &self.begin_time
    }

    /// Reads a line `INDEX nn MM:SS:FF`.
    pub fn from_text(s: &str) -> (r: Result<Self, ParseError>)
        ensures
            r.is_ok() == index_line_spec(s@).is_some(),
            r.is_ok() ==> r.unwrap()@ == index_line_spec(s@).unwrap(),
            r.is_err() ==> r.unwrap_err()@ == ParseErrorView::SyntaxError(
                syntax_message(s@, "invalid `INDEX` command"@),
            ),
    {
        let fail = ParseError::syntax_error(s, "invalid `INDEX` command");
        let r1 = match keyword("INDEX", s) {
            Some(r1) => r1,
            None => return Err(fail),
        };
        let (r2, id) = match number(2, r1) {
            Some(p) => p,
            None => return Err(fail),
        };
        let n = r2.unicode_len();
        if n == 0 || r2.get_char(0) != ' ' {
            return Err(fail);
        }
        match TimeStamp::from_text(r2.substring_char(1, n)) {
            Ok(t) => {
                proof {
                    lemma_two_digits_below(r1@);
                }
                Ok(Self::new_unchecked(id as u8, t))
            },
            Err(_) => Err(fail),
        }
    }
}

impl std::str::FromStr for Index {
    type Err = ParseError;

    fn from_str(s: &str) -> Result<Self, ParseError> {
        Index::from_text(s)
    }
}

/// A track: its id, format, index points and the data that belongs to it.
#[derive(Debug, Clone, PartialEq, Eq, Hash)]
pub struct Track {
    pub(crate) id: u8,
    pub format: String,
    pub index: Vec<Index>,
    pub pregap: Option<TimeStamp>,
    pub postgap: Option<TimeStamp>,
    pub title: Option<Vec<String>>,
    pub performer: Option<Vec<String>>,
    pub songwriter: Option<Vec<String>>,
    pub isrc: Option<String>,
    pub flags: Option<Vec<String>>,
}

/// The mathematical value of a `Track`.
pub struct TrackView {
    pub id: u8,
    pub format: Seq<char>,
    pub index: Seq<(u8, (u32, u32, u32))>,
    pub pregap: Option<(u32, u32, u32)>,
    pub postgap: Option<(u32, u32, u32)>,
    pub title: Option<Seq<Seq<char>>>,
    pub performer: Option<Seq<Seq<char>>>,
    pub songwriter: Option<Seq<Seq<char>>>,
    pub isrc: Option<Seq<char>>,
    pub flags: Option<Seq<Seq<char>>>,
}

/// A fresh track with nothing but an id and a format.
pub open spec fn empty_track(id: u8, format: Seq<char>) -> TrackView {
    TrackView {
        id,
        format,
        index: Seq::empty(),
        pregap: None,
        postgap: None,
        title: None,
        performer: None,
        songwriter: None,
        isrc: None,
        flags: None,
    }
}

impl View for Track {
    type V = TrackView;

    closed spec fn view(&self) -> TrackView {
        TrackView {
            id: self.id,
            format: self.format@,
            index: self.index@.map_values(|i: Index| i@),
            pregap: opt_view(self.pregap),
            postgap: opt_view(self.postgap),
            title: opt_strings_view(self.title),
            performer: opt_strings_view(self.performer),
            songwriter: opt_strings_view(self.songwriter),
            isrc: opt_view(self.isrc),
            flags: opt_strings_view(self.flags),
        }
    }
}

impl Track {
    /// For ids that the grammar has already read as two digits.
    pub(crate) fn new_unchecked(id: u8, format: String) -> (r: Self)
        ensures
            r@ == empty_track(id, format@),
    {
        let r = Track {
            id,
            format,
            index: Vec::new(),
            pregap: None,
            postgap: None,
            title: None,
            performer: None,
            songwriter: None,
            isrc: None,
            flags: None,
        };
        assert(r@.index =~= Seq::<(u8, (u32, u32, u32))>::empty());
        r
    }

    /// Constructs a new Track; the id must be between 1 and 99.
    pub fn new(id: u8, format: String) -> (r: Self)
        requires
            1 <= id <= 99,
        ensures
            r@ == empty_track(id, format@),
    {
        Self::new_unchecked(id, format)
    }

    pub fn new_opt(id: u8, format: String) -> (r: Option<Self>)
        ensures
            r.is_some() == (1 <= id <= 99),
            r.is_some() ==> r.unwrap()@ == empty_track(id, format@),
    {
        if 1 <= id && id <= 99 {
            Some(Self::new_unchecked(id, format))
        } else {
            None
        }
    }

    pub fn id(&self) -> (r: u8)
        ensures
            r == self@.id,
    {
        self.id
    }

    pub fn format(&self) -> (r: &str)
        ensures
            r@ == self@.format,
    {
        self.format.as_str()
    }

    pub fn pregap(&self) -> (r: Option<&TimeStamp>)
        ensures
            r.is_some() == self@.pregap.is_some(),
            r.is_some() ==> r.unwrap()@ == self@.pregap.unwrap(),
    {
        self.pregap.as_ref()
    }

    pub fn postgap(&self) -> (r: Option<&TimeStamp>)
        ensures
            r.is_some() == self@.postgap.is_some(),
            r.is_some() ==> r.unwrap()@ == self@.postgap.unwrap(),
    {
        self.postgap.as_ref()
    }

    pub fn title(&self) -> (r: Option<&Vec<String>>)
        ensures
            r.is_some() == self@.title.is_some(),
            r.is_some() ==> Some(strings_view(r.unwrap()@)) == self@.title,
    {
        self.title.as_ref()
    }

    pub fn push_title(&mut self, title: String)
        ensures
            final(self)@ == (TrackView { title: push_opt(old(self)@.title, title@), ..old(self)@ }),
    {
        push_to(&mut self.title, title);
    }

    pub fn performer(&self) -> (r: Option<&Vec<String>>)
        ensures
            r.is_some() == self@.performer.is_some(),
            r.is_some() ==> Some(strings_view(r.unwrap()@)) == self@.performer,
    {
        self.performer.as_ref()
    }

    pub fn push_performer(&mut self, performer: String)
        ensures
            final(self)@ == (TrackView { performer: push_opt(old(self)@.performer, performer@), ..old(self)@ }),
    {
        push_to(&mut self.performer, performer);
    }

    pub fn songwriter(&self) -> (r: Option<&Vec<String>>)
        ensures
            r.is_some() == self@.songwriter.is_some(),
            r.is_some() ==> Some(strings_view(r.unwrap()@)) == self@.songwriter,
    {
        self.songwriter.as_ref()
    }

    pub fn push_songwriter(&mut self, songwriter: String)
        ensures
            final(self)@ == (TrackView { songwriter: push_opt(old(self)@.songwriter, songwriter@), ..old(self)@ }),
    {
        push_to(&mut self.songwriter, songwriter);
    }

    /// The number of index points.
    pub fn index_len(&self) -> (r: usize)
        ensures
            r == self@.index.len(),
    {
        self.index.len()
    }

    pub fn push_index(&mut self, index: Index)
        ensures
            final(self)@ == (TrackView { index: old(self)@.index.push(index@), ..old(self)@ }),
    {
        self.index.push(index);
        assert(self@.index =~= old(self)@.index.push(index@));
    }

    /// Sets the pregap and gives back the one set before.
    pub fn set_pregep(&mut self, pregap: TimeStamp) -> (r: Option<TimeStamp>)
        ensures
            opt_view(r) == old(self)@.pregap,
            final(self)@ == (TrackView { pregap: Some(pregap@), ..old(self)@ }),
    {
        let r = self.pregap.take();
        self.pregap = Some(pregap);
        r
    }

    /// Sets the postgap and gives back the one set before.
    pub fn set_postgep(&mut self, postgap: TimeStamp) -> (r: Option<TimeStamp>)
        ensures
            opt_view(r) == old(self)@.postgap,
            final(self)@ == (TrackView { postgap: Some(postgap@), ..old(self)@ }),
    {
        let r = self.postgap.take();
        self.postgap = Some(postgap);
        r
    }

    pub fn isrc(&self) -> (r: Option<&str>)
        ensures
            r.is_some() == self@.isrc.is_some(),
            r.is_some() ==> r.unwrap()@ == self@.isrc.unwrap(),
    {
        match &self.isrc {
            Some(s) => Some(s.as_str()),
            None => None,
        }
    }

    /// Sets the ISRC and gives back the one set before.
    pub fn set_isrc(&mut self, isrc: String) -> (r: Option<String>)
        ensures
            opt_view(r) == old(self)@.isrc,
            final(self)@ == (TrackView { isrc: Some(isrc@), ..old(self)@ }),
    {
        let r = self.isrc.take();
        self.isrc = Some(isrc);
        r
    }

    pub fn flags(&self) -> (r: Option<&Vec<String>>)
        ensures
            r.is_some() == self@.flags.is_some(),
            r.is_some() ==> Some(strings_view(r.unwrap()@)) == self@.flags,
    {
        self.flags.as_ref()
    }

    pub fn push_flag(&mut self, flag: String)
        ensures
            final(self)@ == (TrackView { flags: push_opt(old(self)@.flags, flag@), ..old(self)@ }),
    {
        push_to(&mut self.flags, flag);
    }

    /// Appends the flags, in their order, to the track's flag list.
    pub fn push_flags(&mut self, flags: Vec<String>)
        ensures
            final(self)@ == (TrackView { flags: extend_opt(old(self)@.flags, strings_view(flags@)), ..old(self)@ }),
    {
        let mut v = match self.flags.take() {
            Some(v) => v,
            None => Vec::new(),
        };
        let ghost start = strings_view(v@);
        let mut i: usize = 0;
        while i < flags.len()
            invariant
                i <= flags@.len(),
                strings_view(v@) == start + strings_view(flags@.subrange(0, i as int)),
            decreases flags@.len() - i,
        {
            let ghost before = v@;
            v.push(flags[i].clone());
            assert(flags@.subrange(0, i + 1) =~= flags@.subrange(0, i as int).push(flags@[i as int]));
            assert(strings_view(v@) =~= strings_view(before).push(flags@[i as int]@));
            assert(strings_view(flags@.subrange(0, i + 1)) =~= strings_view(flags@.subrange(0, i as int)).push(flags@[i as int]@));
            i += 1;
        }
        assert(flags@.subrange(0, flags@.len() as int) =~= flags@);
        self.flags = Some(v);
        proof {
            match old(self).flags {
                Some(w) => assert(start == strings_view(w@)),
                None => assert(start =~= Seq::<Seq<char>>::empty()),
            }
        }
    }

    /// Reads a line `TRACK nn format`.
    pub fn from_text(s: &str) -> (r: Result<Self, ParseError>)
        ensures
            r.is_ok() == track_line_spec(s@).is_some(),
            r.is_ok() ==> r.unwrap()@ == empty_track(
                track_line_spec(s@).unwrap().0,
                track_line_spec(s@).unwrap().1,
            ),
            r.is_err() ==> r.unwrap_err()@ == ParseErrorView::SyntaxError(
                syntax_message(s@, "invalid `TRACK` command"@),
            ),
    {
        let fail = ParseError::syntax_error(s, "invalid `TRACK` command");
        let r1 = match keyword("TRACK", s) {
            Some(r1) => r1,
            None => return Err(fail),
        };
        let (r2, id) = match number(2, r1) {
            Some(p) => p,
            None => return Err(fail),
        };
        let n = r2.unicode_len();
        if n == 0 || r2.get_char(0) != ' ' {
            return Err(fail);
        }
        proof {
            lemma_two_digits_below(r1@);
        }
        Ok(Self::new_unchecked(id as u8, String::from_str(r2.substring_char(1, n))))
    }
}

/// A file of the sheet, with the tracks it holds.
#[derive(Debug, Clone, PartialEq, Eq, Hash)]
pub struct TrackInfo {
    pub name: String,
    pub format: String,
    pub tracks: Vec<Track>,
}

/// The mathematical value of a `TrackInfo`.
pub struct TrackInfoView {
    pub name: Seq<char>,
    pub format: Seq<char>,
    pub tracks: Seq<TrackView>,
}

pub open spec fn tracks_view(v: Seq<Track>) -> Seq<TrackView> {
    v.map_values(|t: Track| t@)
}

impl View for TrackInfo {
    type V = TrackInfoView;

    open spec fn view(&self) -> TrackInfoView {
        TrackInfoView { name: self.name@, format: self.format@, tracks: tracks_view(self.tracks@) }
    }
}

impl TrackInfo {
    /// Constructs a new TrackInfo
    pub fn new(name: String, format: String) -> (r: Self)
        ensures
            r@ == (TrackInfoView { name: name@, format: format@, tracks: Seq::empty() }),
    {
        let r = Self::with_tracks(name, format, Vec::new());
        assert(r@.tracks =~= Seq::<TrackView>::empty());
        r
    }

    pub fn with_tracks(name: String, format: String, tracks: Vec<Track>) -> (r: Self)
        ensures
            r@ == (TrackInfoView { name: name@, format: format@, tracks: tracks_view(tracks@) }),
    {
        TrackInfo { name, format, tracks }
    }

    /// Returns the last Track or None if self.tracks is empty
    pub fn last_track(&self) -> (r: Option<&Track>)
        ensures
            r.is_some() == (self@.tracks.len() > 0),
            r.is_some() ==> r.unwrap()@ == self@.tracks.last(),
    {
        self.tracks.as_slice().last()
    }

    /// The mutable version of last_track()
    pub fn last_track_mut(&mut self) -> (r: Option<&mut Track>)
        ensures
            r.is_some() == (old(self).tracks@.len() > 0),
            r.is_none() ==> final(self).tracks@ == old(self).tracks@,
            r.is_some() ==> *r.unwrap() == old(self).tracks@.last(),
            r.is_some() ==> final(self).tracks@ == old(self).tracks@.update(
                old(self).tracks@.len() - 1,
                *final(r.unwrap()),
            ),
            final(self).name == old(self).name,
            final(self).format == old(self).format,
    {
        self.tracks.as_mut_slice().last_mut()
    }

    /// Appends an element to the back of self.tracks
    pub fn push_track(&mut self, track: Track)
        ensures
            final(self)@ == (TrackInfoView { tracks: old(self)@.tracks.push(track@), ..old(self)@ }),
    {
        self.tracks.push(track);
        assert(self@.tracks =~= old(self)@.tracks.push(track@));
    }
}

impl std::str::FromStr for Track {
    type Err = ParseError;

    fn from_str(s: &str) -> Result<Self, ParseError> {
        Track::from_text(s)
    }
}

} // verus!
