use vstd::prelude::*;

use crate::utils::split_from;
use crate::utils::split_on;

verus! {

/// A line without the `\r` of a `\r\n` ending.
pub open spec fn strip_cr(l: Seq<char>) -> Seq<char> {
    if l.len() > 0 && l.last() == '\r' {
        l.drop_last()
    } else {
        l
    }
}

/// The lines of a text: cut at each `\n`, a `\r` before it dropped, and no empty line after
/// a final `\n`.
pub open spec fn lines_of(s: Seq<char>) -> Seq<Seq<char>> {
    let p = split_from(s, '\n', 0);
    if p.len() == 0 {
        Seq::empty()
    } else {
        let ended = p.drop_last().map_values(|l: Seq<char>| strip_cr(l));
        if p.last().len() == 0 {
            ended
        } else {
            ended.push(p.last())
        }
    }
}

fn without_cr(l: &String) -> (r: String)
    ensures
        r@ == strip_cr(l@),
{
    let t = l.as_str();
    let k = t.unicode_len();
    if k > 0 && t.get_char(k - 1) == '\r' {
        let r = String::from_str(t.substring_char(0, k - 1));
        assert(r@ =~= strip_cr(l@));
        r
    } else {
        String::from_str(t)
    }
}

/// The lines of `s`, as `str::lines` gives them.
pub fn text_lines(s: &str) -> (r: Vec<String>)
    ensures
        r@.map_values(|l: String| l@) == lines_of(s@),
{
    let pieces = split_on(s, '\n');
    let ghost p = pieces@.map_values(|x: String| x@);
    let n = pieces.len();
    let mut out: Vec<String> = Vec::new();
    if n == 0 {
        assert(out@.map_values(|l: String| l@) =~= lines_of(s@));
        return out;
    }
    let mut i: usize = 0;
    while i < n - 1
        invariant
            n == pieces@.len(),
            n > 0,
            i <= n - 1,
            p == pieces@.map_values(|x: String| x@),
            out@.map_values(|l: String| l@) == p.subrange(0, i as int).map_values(
                |l: Seq<char>| strip_cr(l),
            ),
        decreases n - 1 - i,
    {
        let l = without_cr(&pieces[i]);
        out.push(l);
        assert(p.subrange(0, i + 1).map_values(|l: Seq<char>| strip_cr(l)) =~= p.subrange(
            0,
            i as int,
        ).map_values(|l: Seq<char>| strip_cr(l)).push(strip_cr(p[i as int])));
        assert(out@.map_values(|l: String| l@) =~= p.subrange(0, i + 1).map_values(
            |l: Seq<char>| strip_cr(l),
        ));
        i += 1;
    }
    assert(p.subrange(0, n - 1) =~= p.drop_last());
    let ghost ended = out@.map_values(|l: String| l@);
    if pieces[n - 1].as_str().unicode_len() > 0 {
        out.push(pieces[n - 1].clone());
        assert(out@.map_values(|l: String| l@) =~= ended.push(p.last()));
    }
    out
}

} // verus!
