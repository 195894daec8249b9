use vstd::prelude::*;

use crate::track::strings_view;
use crate::utils::keyword;
use crate::utils::keyword_spec;
use crate::utils::trim;
use crate::utils::trim_spec;

verus! {

/// The comments of a sheet, in order.
#[derive(Debug, Clone)]
pub struct Comment(pub Vec<String>);

/// The comments that `REM` lines among `lines` carry, trimmed.
pub open spec fn rem_comments(lines: Seq<Seq<char>>) -> Seq<Seq<char>>
    decreases lines.len(),
{
    if lines.len() == 0 {
        Seq::empty()
    } else {
        let rest = rem_comments(lines.drop_last());
        match keyword_spec("REM"@, lines.last()) {
            Some(c) => rest.push(trim_spec(c)),
            None => rest,
        }
    }
}

impl View for Comment {
    type V = Seq<Seq<char>>;

    open spec fn view(&self) -> Seq<Seq<char>> {
        strings_view(self.0@)
    }
}

impl Comment {
    /// The comments of the `REM` lines of `s`.
    pub fn new(s: &str) -> (r: Self)
        ensures
            r@ == rem_comments(crate::lines::lines_of(s@)),
    {
        let lines = crate::lines::text_lines(s);
        Self::from_lines(&lines)
    }

    /// The comments of the `REM` lines among `lines`.
    pub fn from_lines(lines: &Vec<String>) -> (r: Self)
        ensures
            r@ == rem_comments(strings_view(lines@)),
    {
        let mut out: Vec<String> = Vec::new();
        let mut i: usize = 0;
        while i < lines.len()
            invariant
                i <= lines@.len(),
                strings_view(out@) == rem_comments(strings_view(lines@.subrange(0, i as int))),
            decreases lines@.len() - i,
        {
            let ghost before = out@;
            let ghost prefix = strings_view(lines@.subrange(0, i + 1));
            assert(prefix.drop_last() =~= strings_view(lines@.subrange(0, i as int)));
            assert(prefix.last() == lines@[i as int]@);
            match keyword("REM", lines[i].as_str()) {
                Some(c) => {
                    out.push(String::from_str(trim(c)));
                    assert(strings_view(out@) =~= strings_view(before).push(trim_spec(keyword_spec("REM"@, lines@[i as int]@).unwrap())));
                },
                None => {},
            }
            i += 1;
        }
        assert(lines@.subrange(0, lines@.len() as int) =~= lines@);
        Comment(out)
    }

    pub fn push(&mut self, comment: String)
        ensures
            final(self)@ == old(self)@.push(comment@),
    {
        self.0.push(comment);
        assert(final(self)@ =~= old(self)@.push(comment@));
    }
}

} // verus!
