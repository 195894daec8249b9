use vstd::prelude::*;

use crate::error::ParseErrorView;
use crate::parser::CommandView;
use crate::parser::parse_spec;
use crate::parser::quoted;
use crate::parser::render_spec;
use crate::time::timestamp_spec;
use crate::time::timestamp_text;
use crate::time::valid_msf;
use crate::utils::all_digits;
use crate::utils::field_value;
use crate::utils::number_spec;
use crate::utils::decimal_text;
use crate::utils::decimal_value;
use crate::utils::digit_char;
use crate::utils::digits_of;
use crate::utils::digit_value;
use crate::utils::find_from;
use crate::utils::fold_case;
use crate::utils::is_digit;
use crate::utils::lemma_digits_len_pow;
use crate::utils::pow10;
use crate::utils::skip_leading;
use crate::utils::skip_trailing;
use crate::utils::token_spec;
use crate::utils::trim_spec;
use crate::utils::unquote_spec;
use crate::utils::white_space;
use crate::utils::zeros;

verus! {

/// A text that reads back unchanged from between quotes.
pub open spec fn quotable(x: Seq<char>) -> bool {
    x.len() == 0 || (x[0] != '"' && x.last() != '"')
}

/// A text that reads back unchanged as the bare argument of a command.
pub open spec fn bare_argument(x: Seq<char>) -> bool {
    x.len() > 0 && x[0] != '"' && x.last() != '"' && !white_space(x.last())
}

/// A command whose fields a line can carry unchanged: no white space or quotes where the
/// grammar strips them, ids of two digits, a catalog number of thirteen.
pub open spec fn canonical(c: CommandView) -> bool {
    match c {
        CommandView::Rem(x) => x.len() > 0 && !white_space(x.last()),
        CommandView::Title(x) => quotable(x),
        CommandView::Performer(x) => quotable(x),
        CommandView::Songwriter(x) => quotable(x),
        CommandView::Catalog(n) => n < 10_000_000_000_000,
        CommandView::Cdtextfile(x) => quotable(x),
        CommandView::File(name, format) => (forall|j: int| 0 <= j < name.len() ==> name[j] != '"')
            && format.len() > 0 && !white_space(format[0]) && !white_space(format.last()),
        CommandView::Track(id, format) => id <= 99 && format.len() > 0 && !white_space(
            format.last(),
        ),
        CommandView::Index(id, t) => id <= 99 && valid_msf(t),
        CommandView::Pregap(x) => bare_argument(x),
        CommandView::Postgap(x) => bare_argument(x),
        CommandView::Isrc(x) => bare_argument(x),
        CommandView::Flags(x) => bare_argument(x),
    }
}

proof fn lemma_find_first(s: Seq<char>, c: char, i: int, k: int)
    requires
        0 <= i <= k < s.len(),
        s[k] == c,
        forall|j: int| i <= j < k ==> s[j] != c,
    ensures
        find_from(s, c, i) == k,
    decreases k - i,
{
    if i < k {
        lemma_find_first(s, c, i + 1, k);
    }
}

proof fn lemma_find_none(s: Seq<char>, c: char, i: int)
    requires
        0 <= i <= s.len(),
        forall|j: int| i <= j < s.len() ==> s[j] != c,
    ensures
        find_from(s, c, i) == s.len(),
    decreases s.len() - i,
{
    if i < s.len() {
        lemma_find_none(s, c, i + 1);
    }
}

/// A text with no white space at either end is its own trim.
pub proof fn lemma_trim_keeps(s: Seq<char>)
    requires
        s.len() > 0,
        !white_space(s[0]),
        !white_space(s.last()),
    ensures
        trim_spec(s) == s,
{
    assert(s.subrange(0, s.len() as int) =~= s);
}

/// A text with no `"` at either end is its own unquoting.
pub proof fn lemma_unquote_keeps(s: Seq<char>)
    requires
        s.len() == 0 || (s[0] != '"' && s.last() != '"'),
    ensures
        unquote_spec(s) == s,
{
    assert(s.subrange(0, s.len() as int) =~= s);
}

/// Unquoting `"x"` gives `x` back.
pub proof fn lemma_unquote_quoted(x: Seq<char>)
    requires
        x.len() == 0 || (x[0] != '"' && x.last() != '"'),
    ensures
        unquote_spec(seq!['"'] + x + seq!['"']) == x,
{
    let q = seq!['"'] + x + seq!['"'];
    assert(q[0] == '"');
    assert(q[q.len() - 1] == '"');
    if x.len() == 0 {
        assert(q[1] == '"');
        assert(skip_leading(q, 2, true) == 2);
        assert(skip_leading(q, 1, true) == 2);
        assert(skip_leading(q, 0, true) == 2);
        assert(skip_trailing(q, 2, 2, true) == 2);
        assert(q.subrange(2, 2) =~= x);
    } else {
        assert(q[1] == x[0]);
        assert(q[q.len() - 2] == x.last());
        let n = q.len() as int;
        assert(skip_leading(q, 1, true) == 1);
        assert(skip_leading(q, 0, true) == 1);
        assert(skip_trailing(q, 1, n - 1, true) == n - 1);
        assert(skip_trailing(q, 1, n, true) == n - 1);
        assert(q.subrange(1, q.len() - 1) =~= x);
    }
}

proof fn lemma_digit_char(d: nat)
    requires
        d < 10,
    ensures
        is_digit(digit_char(d)),
        digit_value(digit_char(d)) == d,
{
}

proof fn lemma_digits(v: nat)
    ensures
        all_digits(digits_of(v)),
        decimal_value(digits_of(v)) == v,
        digits_of(v).len() > 0,
    decreases v,
{
    if v < 10 {
        lemma_digit_char(v);
        assert(seq![digit_char(v)].drop_last() =~= Seq::<char>::empty());
        assert(decimal_value(Seq::<char>::empty()) == 0);
    } else {
        lemma_digits(v / 10);
        lemma_digit_char(v % 10);
        let d = digits_of(v / 10);
        assert(d.push(digit_char(v % 10)).drop_last() =~= d);
        assert forall|j: int| 0 <= j < d.len() + 1 implies is_digit(#[trigger] d.push(digit_char(v % 10))[j]) by {
            if j < d.len() {
                assert(d.push(digit_char(v % 10))[j] == d[j]);
            }
        }
    }
}

proof fn lemma_zeros_value(k: nat)
    ensures
        decimal_value(zeros(k)) == 0,
        all_digits(zeros(k)),
    decreases k,
{
    if k > 0 {
        assert(zeros(k).drop_last() =~= zeros((k - 1) as nat));
        lemma_zeros_value((k - 1) as nat);
    }
}

proof fn lemma_zeros_prefix(k: nat, d: Seq<char>)
    requires
        all_digits(d),
    ensures
        decimal_value(zeros(k) + d) == decimal_value(d),
        all_digits(zeros(k) + d),
    decreases d.len(),
{
    lemma_zeros_value(k);
    if d.len() == 0 {
        assert(zeros(k) + d =~= zeros(k));
    } else {
        assert((zeros(k) + d).drop_last() =~= zeros(k) + d.drop_last());
        assert forall|j: int| 0 <= j < d.len() - 1 implies is_digit(#[trigger] d.drop_last()[j]) by {
            assert(d.drop_last()[j] == d[j]);
        }
        lemma_zeros_prefix(k, d.drop_last());
        assert forall|j: int| 0 <= j < k + d.len() implies is_digit(#[trigger] (zeros(k) + d)[j]) by {
            if j >= k {
                assert((zeros(k) + d)[j] == d[j - k]);
            }
        }
    }
}

/// A padded numeral is all digits, at least one, and its value is the number.
pub proof fn lemma_decimal_text(v: nat, w: nat)
    ensures
        all_digits(decimal_text(v, w)),
        decimal_value(decimal_text(v, w)) == v,
        decimal_text(v, w).len() > 0,
        digits_of(v).len() <= w ==> decimal_text(v, w).len() == w,
{
    lemma_digits(v);
    let d = digits_of(v);
    if d.len() < w {
        lemma_zeros_prefix((w - d.len()) as nat, d);
    }
}

/// A number below `10^w` has a numeral of at most `w` digits.
pub proof fn lemma_fits(v: nat, w: nat)
    requires
        v < pow10(w),
        w >= 1,
    ensures
        digits_of(v).len() <= w,
{
    lemma_digits_len_pow(v, w);
}

/// `kw content` with no space in `kw` splits as (content, kw), and trims to itself when
/// neither end is white space.
pub proof fn lemma_line(kw: Seq<char>, content: Seq<char>)
    requires
        kw.len() > 0,
        forall|j: int| 0 <= j < kw.len() ==> kw[j] != ' ',
        !white_space(kw[0]),
        content.len() > 0,
        !white_space(content.last()),
    ensures
        trim_spec(kw + seq![' '] + content) == kw + seq![' '] + content,
        token_spec(kw + seq![' '] + content) == Some((content, kw)),
{
    let s = kw + seq![' '] + content;
    assert(s[0] == kw[0]);
    assert(s.last() == content.last());
    lemma_trim_keeps(s);
    assert forall|j: int| 0 <= j < kw.len() implies s[j] != ' ' by {
        assert(s[j] == kw[j]);
    }
    lemma_find_first(s, ' ', 0, kw.len() as int);
    assert(s.subrange(kw.len() as int + 1, s.len() as int) =~= content);
    assert(s.subrange(0, kw.len() as int) =~= kw);
}

/// Digits followed by `c` (no digit) and more: the first `c` stands right after the digits.
pub proof fn lemma_find_after_digits(d: Seq<char>, c: char, rest: Seq<char>)
    requires
        all_digits(d),
        !is_digit(c),
    ensures
        find_from(d + seq![c] + rest, c, 0) == d.len(),
{
    let s = d + seq![c] + rest;
    assert forall|j: int| 0 <= j < d.len() implies s[j] != c by {
        assert(s[j] == d[j]);
    }
    lemma_find_first(s, c, 0, d.len() as int);
}

proof fn lemma_field(v: u32)
    ensures
        field_value(decimal_text(v as nat, 2)) == Some(v),
{
    lemma_decimal_text(v as nat, 2);
}

/// The text of a valid time stamp reads back as that time stamp.
pub proof fn lemma_timestamp_text(t: (u32, u32, u32))
    requires
        valid_msf(t),
    ensures
        timestamp_spec(timestamp_text(t)) == Some(t),
        timestamp_text(t).len() > 0,
        is_digit(timestamp_text(t).last()),
{
    reveal_strlit(":");
    let dm = decimal_text(t.0 as nat, 2);
    let ds = decimal_text(t.1 as nat, 2);
    let df = decimal_text(t.2 as nat, 2);
    lemma_decimal_text(t.0 as nat, 2);
    lemma_decimal_text(t.1 as nat, 2);
    lemma_decimal_text(t.2 as nat, 2);
    lemma_field(t.0);
    lemma_field(t.1);
    lemma_field(t.2);
    let s = timestamp_text(t);
    assert(s =~= dm + seq![':'] + (ds + seq![':'] + df));
    lemma_find_after_digits(dm, ':', ds + seq![':'] + df);
    let a = dm.len() as int;
    let b = a + 1 + ds.len();
    assert(s[b] == ':');
    assert forall|j: int| a + 1 <= j < b implies s[j] != ':' by {
        assert(s[j] == ds[j - a - 1]);
    }
    lemma_find_first(s, ':', a + 1, b);
    assert(s.subrange(0, a) =~= dm);
    assert(s.subrange(a + 1, b) =~= ds);
    assert(s.subrange(b + 1, s.len() as int) =~= df);
    assert(s.last() == df.last());
}

proof fn lemma_two_digit_id(id: u8)
    requires
        id <= 99,
    ensures
        decimal_text(id as nat, 2).len() == 2,
        all_digits(decimal_text(id as nat, 2)),
        number_spec(decimal_text(id as nat, 2), 2) == Some((Seq::<char>::empty(), id as nat)),
{
    reveal_with_fuel(pow10, 3);
    lemma_fits(id as nat, 2);
    lemma_decimal_text(id as nat, 2);
    let d = decimal_text(id as nat, 2);
    assert(d.subrange(0, 2) =~= d);
    assert(d.subrange(2, 2) =~= Seq::<char>::empty());
}

proof fn lemma_parse_render_rem(x: Seq<char>)
    requires
        canonical(CommandView::Rem(x)),
    ensures
        parse_spec(render_spec(CommandView::Rem(x))) == Ok::<CommandView, ParseErrorView>(CommandView::Rem(x)),
{
    let c = CommandView::Rem(x);
    reveal_strlit("REM");
    reveal_strlit("REM ");
    assert(render_spec(c) =~= "REM"@ + seq![' '] + x);
    lemma_line("REM"@, x);
}

proof fn lemma_parse_render_title(x: Seq<char>)
    requires
        canonical(CommandView::Title(x)),
    ensures
        parse_spec(render_spec(CommandView::Title(x))) == Ok::<CommandView, ParseErrorView>(CommandView::Title(x)),
{
    let c = CommandView::Title(x);
    reveal_strlit("REM");
    reveal_strlit("TITLE");
    reveal_strlit("TITLE ");
    reveal_strlit("\"");
    assert(render_spec(c) =~= "TITLE"@ + seq![' '] + quoted(x));
    assert(quoted(x) =~= seq!['"'] + x + seq!['"']);
    lemma_line("TITLE"@, quoted(x));
    lemma_unquote_quoted(x);
}

proof fn lemma_parse_render_performer(x: Seq<char>)
    requires
        canonical(CommandView::Performer(x)),
    ensures
        parse_spec(render_spec(CommandView::Performer(x))) == Ok::<CommandView, ParseErrorView>(CommandView::Performer(x)),
{
    let c = CommandView::Performer(x);
    reveal_strlit("REM");
    reveal_strlit("TITLE");
    reveal_strlit("PERFORMER");
    reveal_strlit("PERFORMER ");
    reveal_strlit("\"");
    assert(render_spec(c) =~= "PERFORMER"@ + seq![' '] + quoted(x));
    assert(quoted(x) =~= seq!['"'] + x + seq!['"']);
    lemma_line("PERFORMER"@, quoted(x));
    lemma_unquote_quoted(x);
}

proof fn lemma_parse_render_songwriter(x: Seq<char>)
    requires
        canonical(CommandView::Songwriter(x)),
    ensures
        parse_spec(render_spec(CommandView::Songwriter(x))) == Ok::<CommandView, ParseErrorView>(CommandView::Songwriter(x)),
{
    let c = CommandView::Songwriter(x);
    reveal_strlit("REM");
    reveal_strlit("TITLE");
    reveal_strlit("PERFORMER");
    reveal_strlit("SONGWRITER");
    reveal_strlit("SONGWRITER ");
    reveal_strlit("\"");
    assert(render_spec(c) =~= "SONGWRITER"@ + seq![' '] + quoted(x));
    assert(quoted(x) =~= seq!['"'] + x + seq!['"']);
    lemma_line("SONGWRITER"@, quoted(x));
    lemma_unquote_quoted(x);
}

proof fn lemma_parse_render_cdtextfile(x: Seq<char>)
    requires
        canonical(CommandView::Cdtextfile(x)),
    ensures
        parse_spec(render_spec(CommandView::Cdtextfile(x))) == Ok::<CommandView, ParseErrorView>(CommandView::Cdtextfile(x)),
{
    let c = CommandView::Cdtextfile(x);
    reveal_strlit("REM");
    reveal_strlit("TITLE");
    reveal_strlit("PERFORMER");
    reveal_strlit("SONGWRITER");
    reveal_strlit("CATALOG");
    reveal_strlit("CDTEXTFILE");
    reveal_strlit("CDTEXTFILE ");
    reveal_strlit("\"");
    assert(fold_case("CDTEXTFILE"@[0]) != fold_case("SONGWRITER"@[0]));
    assert(render_spec(c) =~= "CDTEXTFILE"@ + seq![' '] + quoted(x));
    assert(quoted(x) =~= seq!['"'] + x + seq!['"']);
    lemma_line("CDTEXTFILE"@, quoted(x));
    lemma_unquote_quoted(x);
}

proof fn lemma_parse_render_catalog(n: u64)
    requires
        canonical(CommandView::Catalog(n)),
    ensures
        parse_spec(render_spec(CommandView::Catalog(n))) == Ok::<CommandView, ParseErrorView>(CommandView::Catalog(n)),
{
    let c = CommandView::Catalog(n);
    reveal_strlit("REM");
    reveal_strlit("TITLE");
    reveal_strlit("PERFORMER");
    reveal_strlit("SONGWRITER");
    reveal_strlit("CATALOG");
    reveal_strlit("CATALOG ");
    let d = decimal_text(n as nat, 13);
    assert(render_spec(c) =~= "CATALOG"@ + seq![' '] + d);
    reveal_with_fuel(pow10, 14);
    lemma_fits(n as nat, 13);
    lemma_decimal_text(n as nat, 13);
    lemma_line("CATALOG"@, d);
    assert(d.subrange(0, 13) =~= d);
}

proof fn lemma_parse_render_file(name: Seq<char>, format: Seq<char>)
    requires
        canonical(CommandView::File(name, format)),
    ensures
        parse_spec(render_spec(CommandView::File(name, format))) == Ok::<CommandView, ParseErrorView>(CommandView::File(name, format)),
{
    let c = CommandView::File(name, format);
    reveal_strlit("REM");
    reveal_strlit("TITLE");
    reveal_strlit("PERFORMER");
    reveal_strlit("SONGWRITER");
    reveal_strlit("CATALOG");
    reveal_strlit("CDTEXTFILE");
    reveal_strlit("FILE");
    reveal_strlit("FILE ");
    reveal_strlit("\"");
    reveal_strlit(" ");
    let content = quoted(name) + seq![' '] + format;
    assert(render_spec(c) =~= "FILE"@ + seq![' '] + content);
    assert(content.last() == format.last());
    lemma_line("FILE"@, content);
    let k = name.len() as int + 1;
    assert(content[k] == '"');
    assert forall|j: int| 1 <= j < k implies content[j] != '"' by {
        assert(content[j] == name[j - 1]);
    }
    lemma_find_first(content, '"', 1, k);
    assert(content.subrange(1, k) =~= name);
    let rest = content.subrange(k + 1, content.len() as int);
    assert(rest =~= seq![' '] + format);
    lemma_unquote_keeps(name);
    assert(rest.last() == format.last());
    assert(rest.subrange(1, rest.len() as int) =~= format);
    assert(skip_leading(rest, 1, false) == 1);
    assert(skip_leading(rest, 0, false) == 1);
}

proof fn lemma_parse_render_track(id: u8, format: Seq<char>)
    requires
        canonical(CommandView::Track(id, format)),
    ensures
        parse_spec(render_spec(CommandView::Track(id, format))) == Ok::<CommandView, ParseErrorView>(CommandView::Track(id, format)),
{
    let c = CommandView::Track(id, format);
    reveal_strlit("REM");
    reveal_strlit("TITLE");
    reveal_strlit("PERFORMER");
    reveal_strlit("SONGWRITER");
    reveal_strlit("CATALOG");
    reveal_strlit("CDTEXTFILE");
    reveal_strlit("FILE");
    reveal_strlit("TRACK");
    reveal_strlit("TRACK ");
    reveal_strlit(" ");
    assert(fold_case("TRACK"@[1]) != fold_case("TITLE"@[1]));
    let d = decimal_text(id as nat, 2);
    let content = d + seq![' '] + format;
    assert(render_spec(c) =~= "TRACK"@ + seq![' '] + content);
    lemma_two_digit_id(id);
    assert(content.last() == format.last());
    lemma_line("TRACK"@, content);
    lemma_find_after_digits(d, ' ', format);
    assert(content.subrange(0, 2) =~= d);
    assert(content.subrange(3, content.len() as int) =~= format);
}

proof fn lemma_parse_render_index(id: u8, t: (u32, u32, u32))
    requires
        canonical(CommandView::Index(id, t)),
    ensures
        parse_spec(render_spec(CommandView::Index(id, t))) == Ok::<CommandView, ParseErrorView>(CommandView::Index(id, t)),
{
    let c = CommandView::Index(id, t);
    reveal_strlit("REM");
    reveal_strlit("TITLE");
    reveal_strlit("PERFORMER");
    reveal_strlit("SONGWRITER");
    reveal_strlit("CATALOG");
    reveal_strlit("CDTEXTFILE");
    reveal_strlit("FILE");
    reveal_strlit("TRACK");
    reveal_strlit("INDEX");
    reveal_strlit("INDEX ");
    reveal_strlit(" ");
    assert(fold_case("INDEX"@[0]) != fold_case("TITLE"@[0]));
    assert(fold_case("INDEX"@[0]) != fold_case("TRACK"@[0]));
    let d = decimal_text(id as nat, 2);
    let ts = timestamp_text(t);
    let content = d + seq![' '] + ts;
    assert(render_spec(c) =~= "INDEX"@ + seq![' '] + content);
    lemma_two_digit_id(id);
    lemma_timestamp_text(t);
    assert(content.last() == ts.last());
    lemma_line("INDEX"@, content);
    lemma_find_after_digits(d, ' ', ts);
    assert(content.subrange(0, 2) =~= d);
    assert(content.subrange(3, content.len() as int) =~= ts);
}

proof fn lemma_parse_render_pregap(x: Seq<char>)
    requires
        canonical(CommandView::Pregap(x)),
    ensures
        parse_spec(render_spec(CommandView::Pregap(x))) == Ok::<CommandView, ParseErrorView>(CommandView::Pregap(x)),
{
    let c = CommandView::Pregap(x);
    reveal_strlit("REM");
    reveal_strlit("TITLE");
    reveal_strlit("PERFORMER");
    reveal_strlit("SONGWRITER");
    reveal_strlit("CATALOG");
    reveal_strlit("CDTEXTFILE");
    reveal_strlit("FILE");
    reveal_strlit("TRACK");
    reveal_strlit("INDEX");
    reveal_strlit("PREGAP");
    reveal_strlit("PREGAP ");
    assert(render_spec(c) =~= "PREGAP"@ + seq![' '] + x);
    lemma_line("PREGAP"@, x);
    lemma_unquote_keeps(x);
}

proof fn lemma_parse_render_postgap(x: Seq<char>)
    requires
        canonical(CommandView::Postgap(x)),
    ensures
        parse_spec(render_spec(CommandView::Postgap(x))) == Ok::<CommandView, ParseErrorView>(CommandView::Postgap(x)),
{
    let c = CommandView::Postgap(x);
    reveal_strlit("REM");
    reveal_strlit("TITLE");
    reveal_strlit("PERFORMER");
    reveal_strlit("SONGWRITER");
    reveal_strlit("CATALOG");
    reveal_strlit("CDTEXTFILE");
    reveal_strlit("FILE");
    reveal_strlit("TRACK");
    reveal_strlit("INDEX");
    reveal_strlit("PREGAP");
    reveal_strlit("POSTGAP");
    reveal_strlit("POSTGAP ");
    assert(fold_case("POSTGAP"@[0]) != fold_case("CATALOG"@[0]));
    assert(render_spec(c) =~= "POSTGAP"@ + seq![' '] + x);
    lemma_line("POSTGAP"@, x);
    lemma_unquote_keeps(x);
}

proof fn lemma_parse_render_isrc(x: Seq<char>)
    requires
        canonical(CommandView::Isrc(x)),
    ensures
        parse_spec(render_spec(CommandView::Isrc(x))) == Ok::<CommandView, ParseErrorView>(CommandView::Isrc(x)),
{
    let c = CommandView::Isrc(x);
    reveal_strlit("REM");
    reveal_strlit("TITLE");
    reveal_strlit("PERFORMER");
    reveal_strlit("SONGWRITER");
    reveal_strlit("CATALOG");
    reveal_strlit("CDTEXTFILE");
    reveal_strlit("FILE");
    reveal_strlit("TRACK");
    reveal_strlit("INDEX");
    reveal_strlit("PREGAP");
    reveal_strlit("POSTGAP");
    reveal_strlit("ISRC");
    reveal_strlit("ISRC ");
    assert(fold_case("ISRC"@[0]) != fold_case("FILE"@[0]));
    assert(render_spec(c) =~= "ISRC"@ + seq![' '] + x);
    lemma_line("ISRC"@, x);
    lemma_unquote_keeps(x);
}

proof fn lemma_parse_render_flags(x: Seq<char>)
    requires
        canonical(CommandView::Flags(x)),
    ensures
        parse_spec(render_spec(CommandView::Flags(x))) == Ok::<CommandView, ParseErrorView>(CommandView::Flags(x)),
{
    let c = CommandView::Flags(x);
    reveal_strlit("REM");
    reveal_strlit("TITLE");
    reveal_strlit("PERFORMER");
    reveal_strlit("SONGWRITER");
    reveal_strlit("CATALOG");
    reveal_strlit("CDTEXTFILE");
    reveal_strlit("FILE");
    reveal_strlit("TRACK");
    reveal_strlit("INDEX");
    reveal_strlit("PREGAP");
    reveal_strlit("POSTGAP");
    reveal_strlit("ISRC");
    reveal_strlit("FLAG");
    reveal_strlit("FLAG ");
    assert(fold_case("FLAG"@[1]) != fold_case("FILE"@[1]));
    assert(fold_case("FLAG"@[0]) != fold_case("ISRC"@[0]));
    assert(render_spec(c) =~= "FLAG"@ + seq![' '] + x);
    lemma_line("FLAG"@, x);
    lemma_unquote_keeps(x);
}

/// A command in canonical form reads back as itself: parsing its text gives it again, so
/// rendering what a canonical line parses to gives that very line.
pub proof fn lemma_parse_render(c: CommandView)
    requires
        canonical(c),
    ensures
        parse_spec(render_spec(c)) == Ok::<CommandView, ParseErrorView>(c),
{
    match c {
        CommandView::Rem(x) => lemma_parse_render_rem(x),
        CommandView::Title(x) => lemma_parse_render_title(x),
        CommandView::Performer(x) => lemma_parse_render_performer(x),
        CommandView::Songwriter(x) => lemma_parse_render_songwriter(x),
        CommandView::Cdtextfile(x) => lemma_parse_render_cdtextfile(x),
        CommandView::Catalog(n) => lemma_parse_render_catalog(n),
        CommandView::File(name, format) => lemma_parse_render_file(name, format),
        CommandView::Track(id, format) => lemma_parse_render_track(id, format),
        CommandView::Index(id, t) => lemma_parse_render_index(id, t),
        CommandView::Pregap(x) => lemma_parse_render_pregap(x),
        CommandView::Postgap(x) => lemma_parse_render_postgap(x),
        CommandView::Isrc(x) => lemma_parse_render_isrc(x),
        CommandView::Flags(x) => lemma_parse_render_flags(x),
    }
}

/// A line that is the text of a canonical command parses, and rendering what it parses to
/// gives the line back.
pub proof fn lemma_canonical_line(line: Seq<char>, c: CommandView)
    requires
        canonical(c),
        line == render_spec(c),
    ensures
        parse_spec(line) is Ok,
        render_spec(parse_spec(line)->Ok_0) == line,
{
    lemma_parse_render(c);
}

} // verus!
