use vstd::prelude::*;

pub mod error;
pub mod utils;
pub mod time;
pub mod track;
pub mod lines;
pub mod comment;
pub mod parser;
pub mod canonical;

use crate::comment::Comment;
use crate::track::TrackInfo;
use crate::track::TrackInfoView;
use crate::track::TrackView;
use crate::track::opt_strings_view;
use crate::track::push_opt;
use crate::track::push_to;
use crate::track::Track;

verus! {

/// The sheet-wide data: titles, performers, songwriters, catalog and CD-text file.
#[derive(Debug, Clone, PartialEq, Eq, Hash)]
pub struct Header {
    pub title: Option<Vec<String>>,
    pub performer: Option<Vec<String>>,
    pub songwriter: Option<Vec<String>>,
    pub catalog: Option<u64>,
    pub cdtextfile: Option<String>,
}

/// The mathematical value of a `Header`.
pub struct HeaderView {
    pub title: Option<Seq<Seq<char>>>,
    pub performer: Option<Seq<Seq<char>>>,
    pub songwriter: Option<Seq<Seq<char>>>,
    pub catalog: Option<u64>,
    pub cdtextfile: Option<Seq<char>>,
}

impl View for Header {
    type V = HeaderView;

    open spec fn view(&self) -> HeaderView {
        HeaderView {
            title: opt_strings_view(self.title),
            performer: opt_strings_view(self.performer),
            songwriter: opt_strings_view(self.songwriter),
            catalog: self.catalog,
            cdtextfile: match self.cdtextfile {
                Some(s) => Some(s@),
                None => None,
            },
        }
    }
}

pub open spec fn empty_header() -> HeaderView {
    HeaderView { title: None, performer: None, songwriter: None, catalog: None, cdtextfile: None }
}

impl Header {
    pub fn new() -> (r: Self)
        ensures
            r@ == empty_header(),
    {
        Header { title: None, performer: None, songwriter: None, catalog: None, cdtextfile: None }
    }

    pub fn push_title(&mut self, title: String)
        ensures
            final(self)@ == (HeaderView { title: push_opt(old(self)@.title, title@), ..old(self)@ }),
    {
        push_to(&mut self.title, title);
    }

    pub fn push_performer(&mut self, performer: String)
        ensures
            final(self)@ == (HeaderView { performer: push_opt(old(self)@.performer, performer@), ..old(self)@ }),
    {
        push_to(&mut self.performer, performer);
    }

    pub fn push_songwriter(&mut self, songwriter: String)
        ensures
            final(self)@ == (HeaderView { songwriter: push_opt(old(self)@.songwriter, songwriter@), ..old(self)@ }),
    {
        push_to(&mut self.songwriter, songwriter);
    }

    /// Sets the catalog number and gives back the one set before.
    pub fn set_catalog(&mut self, catalog: u64) -> (r: Option<u64>)
        ensures
            r == old(self)@.catalog,
            final(self)@ == (HeaderView { catalog: Some(catalog), ..old(self)@ }),
    {
        let r = self.catalog.take();
        self.catalog = Some(catalog);
        r
    }

    /// Sets the CD-text file and gives back the one set before.
    pub fn set_cdtextfile(&mut self, cdtextfile: String) -> (r: Option<String>)
        ensures
            r.is_some() == old(self)@.cdtextfile.is_some(),
            r.is_some() ==> r.unwrap()@ == old(self)@.cdtextfile.unwrap(),
            final(self)@ == (HeaderView { cdtextfile: Some(cdtextfile@), ..old(self)@ }),
    {
        let r = self.cdtextfile.take();
        self.cdtextfile = Some(cdtextfile);
        r
    }
}

/// A cue sheet: its comments, its header and its files.
#[derive(Debug, Clone)]
pub struct Cuna {
    pub header: Header,
    pub files: Vec<TrackInfo>,
    pub comments: Comment,
}

pub type CueSheet = Cuna;

/// The mathematical value of a `Cuna`.
pub struct CunaView {
    pub comments: Seq<Seq<char>>,
    pub header: HeaderView,
    pub files: Seq<TrackInfoView>,
}

pub open spec fn files_view(v: Seq<TrackInfo>) -> Seq<TrackInfoView> {
    v.map_values(|f: TrackInfo| f@)
}

impl View for Cuna {
    type V = CunaView;

    open spec fn view(&self) -> CunaView {
        CunaView { comments: self.comments@, header: self.header@, files: files_view(self.files@) }
    }
}

/// A sheet with nothing in it.
pub open spec fn empty_sheet() -> CunaView {
    CunaView { comments: Seq::empty(), header: empty_header(), files: Seq::empty() }
}

/// The current track: the last track of the last file, if that file has one.
pub open spec fn last_track_of(s: CunaView) -> Option<TrackView> {
    if s.files.len() > 0 && s.files.last().tracks.len() > 0 {
        Some(s.files.last().tracks.last())
    } else {
        None
    }
}

/// `s` with its last file replaced by `f`.
pub open spec fn with_last_file(s: CunaView, f: TrackInfoView) -> CunaView {
    CunaView { files: s.files.update(s.files.len() - 1, f), ..s }
}

/// `s` with `t` appended to the tracks of its last file.
pub open spec fn push_last_track(s: CunaView, t: TrackView) -> CunaView {
    let f = s.files.last();
    with_last_file(s, TrackInfoView { tracks: f.tracks.push(t), ..f })
}

/// `s` without the last track of its last file.
pub open spec fn drop_last_track(s: CunaView) -> CunaView {
    let f = s.files.last();
    with_last_file(s, TrackInfoView { tracks: f.tracks.drop_last(), ..f })
}

/// `s` with its current track replaced by `t`.
pub open spec fn set_last_track(s: CunaView, t: TrackView) -> CunaView {
    push_last_track(drop_last_track(s), t)
}

impl Default for Cuna {
    fn default() -> (r: Self)
        ensures
            r@ == empty_sheet(),
    {
        Cuna::empty()
    }
}

impl Cuna {
    /// A sheet with nothing in it.
    pub fn empty() -> (r: Self)
        ensures
            r@ == empty_sheet(),
    {
        let r = Cuna { header: Header::new(), files: Vec::new(), comments: Comment(Vec::new()) };
        assert(r@.files =~= Seq::<TrackInfoView>::empty());
        assert(r@.comments =~= Seq::<Seq<char>>::empty());
        r
    }

    pub fn last_file(&self) -> (r: Option<&TrackInfo>)
        ensures
            r.is_some() == (self@.files.len() > 0),
            r.is_some() ==> r.unwrap()@ == self@.files.last(),
    {
        self.files.as_slice().last()
    }

    /// The current track, if any.
    pub fn last_track(&self) -> (r: Option<&Track>)
        ensures
            r.is_some() == last_track_of(self@).is_some(),
            r.is_some() ==> r.unwrap()@ == last_track_of(self@).unwrap(),
    {
        match self.last_file() {
            Some(f) => f.last_track(),
            None => None,
        }
    }

    /// Appends a file, which becomes the current one.
    pub fn push_file(&mut self, file: TrackInfo)
        ensures
            final(self)@ == (CunaView { files: old(self)@.files.push(file@), ..old(self)@ }),
    {
        self.files.push(file);
        assert(self@.files =~= old(self)@.files.push(file@));
    }

    /// Appends a track to the current file.
    pub fn push_track(&mut self, track: Track)
        requires
            old(self)@.files.len() > 0,
        ensures
            final(self)@ == push_last_track(old(self)@, track@),
    {
        let mut f = self.files.pop().unwrap();
        f.push_track(track);
        self.files.push(f);
        assert(self@.files =~= push_last_track(old(self)@, track@).files);
    }

    /// Takes the current track out of the sheet.
    pub(crate) fn take_last_track(&mut self) -> (r: Track)
        requires
            last_track_of(old(self)@).is_some(),
        ensures
            r@ == last_track_of(old(self)@).unwrap(),
            final(self)@ == drop_last_track(old(self)@),
            final(self)@.files.len() > 0,
    {
        let mut f = self.files.pop().unwrap();
        let t = f.tracks.pop().unwrap();
        assert(f@.tracks =~= old(self)@.files.last().tracks.drop_last());
        self.files.push(f);
        assert(self@.files =~= drop_last_track(old(self)@).files);
        t
    }
}

} // verus!
