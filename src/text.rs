//! Character-level model of a line: splitting on commas, trimming, joining.
use vstd::prelude::*;
use vstd::string::StrSliceExecFns;
use vstd::string::StringExecFns;

verus! {

/// The characters that Unicode's `White_Space` property covers.
pub open spec fn is_white(c: char) -> bool {
    ('\u{9}' <= c && c <= '\u{d}') || c == ' ' || c == '\u{85}' || c == '\u{a0}'
        || c == '\u{1680}' || ('\u{2000}' <= c && c <= '\u{200a}') || c == '\u{2028}'
        || c == '\u{2029}' || c == '\u{202f}' || c == '\u{205f}' || c == '\u{3000}'
}

/// `s` without its leading white space.
pub open spec fn trim_start(s: Seq<char>) -> Seq<char>
    decreases s.len(),
{
    if s.len() > 0 && is_white(s[0]) {
        trim_start(s.drop_first())
    } else {
        s
    }
}

/// `s` without its trailing white space.
pub open spec fn trim_end(s: Seq<char>) -> Seq<char>
    decreases s.len(),
{
    if s.len() > 0 && is_white(s.last()) {
        trim_end(s.drop_last())
    } else {
        s
    }
}

/// `s` without white space at either end.
pub open spec fn trim(s: Seq<char>) -> Seq<char> {
    trim_end(trim_start(s))
}

/// The pieces of `s` between commas, in order; there is always at least one.
pub open spec fn split_commas(s: Seq<char>) -> Seq<Seq<char>>
    decreases s.len(),
{
    if s.len() == 0 {
        seq![Seq::empty()]
    } else if s.last() == ',' {
        split_commas(s.drop_last()).push(Seq::empty())
    } else {
        let p = split_commas(s.drop_last());
        p.update(p.len() - 1, p.last().push(s.last()))
    }
}

/// The pieces `ps` with `sep` between each two neighbours.
pub open spec fn join_with(ps: Seq<Seq<char>>, sep: Seq<char>) -> Seq<char>
    decreases ps.len(),
{
    if ps.len() == 0 {
        Seq::empty()
    } else if ps.len() == 1 {
        ps[0]
    } else {
        join_with(ps.drop_last(), sep) + sep + ps.last()
    }
}

/// The cells that a line holds: its comma-separated pieces, each trimmed.
pub open spec fn line_cells(line: Seq<char>) -> Seq<Seq<char>> {
    split_commas(line).map_values(|p: Seq<char>| trim(p))
}

/// `s` inside one pair of double quotes.
pub open spec fn quote(s: Seq<char>) -> Seq<char> {
    seq!['"'] + s + seq!['"']
}

/// `cell` followed by spaces up to `width` characters in all.
pub open spec fn pad(cell: Seq<char>, width: int) -> Seq<char> {
    cell + Seq::new((width - cell.len()) as nat, |_i: int| ' ')
}

/// A literal comma.
pub open spec fn comma() -> Seq<char> {
    seq![',']
}

/// A line always has at least one comma-separated piece.
pub proof fn lemma_split_nonempty(s: Seq<char>)
    ensures
        split_commas(s).len() >= 1,
    decreases s.len(),
{
    if s.len() > 0 {
        lemma_split_nonempty(s.drop_last());
    }
}

/// Joining the comma-separated pieces of a line with commas gives the line back.
pub proof fn lemma_join_split(s: Seq<char>)
    ensures
        join_with(split_commas(s), comma()) == s,
    decreases s.len(),
{
    if s.len() > 0 {
        let d = s.drop_last();
        lemma_join_split(d);
        lemma_split_nonempty(d);
        let p = split_commas(d);
        assert(s =~= d.push(s.last()));
        if s.last() == ',' {
            assert(split_commas(s).drop_last() == p);
            assert(s == d + comma() + Seq::<char>::empty());
        } else {
            let q = split_commas(s);
            if p.len() == 1 {
                assert(s == p[0].push(s.last()));
            } else {
                assert(q.drop_last() == p.drop_last());
                assert(d == join_with(p.drop_last(), comma()) + comma() + p.last());
                assert(s =~= join_with(p.drop_last(), comma()) + comma() + p.last().push(s.last()));
            }
        }
    }
}

/// Relies on `str::trim`: leading and trailing characters with Unicode's
/// `White_Space` property are removed.
#[verifier::external_body]
fn trim_str(s: &str) -> (r: &str)
    ensures
        r@ == trim(s@),
{
    s.trim()
}

/// Splits `line` on every comma and trims each piece.
pub fn split_line(line: &str) -> (cells: Vec<String>)
    ensures
        cells.deep_view() == line_cells(line@),
{
    let n = line.unicode_len();
    let mut cells: Vec<String> = Vec::new();
    let mut start: usize = 0;
    let mut i: usize = 0;
    while i < n
        invariant
            n == line@.len(),
            start <= i <= n,
            split_commas(line@.take(i as int)).len() == cells@.len() + 1,
            split_commas(line@.take(i as int)).last() == line@.subrange(start as int, i as int),
            forall|k: int|
                0 <= k < cells@.len() ==> cells@[k]@ == trim(
                    #[trigger] split_commas(line@.take(i as int))[k],
                ),
        decreases n - i,
    {
        let c = line.get_char(i);
        assert(line@.take(i + 1).drop_last() == line@.take(i as int));
        if c == ',' {
            let piece = line.substring_char(start, i);
            let t = trim_str(piece).to_owned();
            cells.push(t);
            start = i + 1;
        } else {
            assert(line@.subrange(start as int, i + 1) == line@.subrange(start as int, i as int).push(c));
        }
        i = i + 1;
    }
    let piece = line.substring_char(start, n);
    let t = trim_str(piece).to_owned();
    cells.push(t);
    assert(line@.take(n as int) == line@);
    assert(cells.deep_view() =~= line_cells(line@));
    cells
}

/// Joins `parts` with `sep` between each two neighbours.
pub fn join_strings(parts: &[String], sep: &str) -> (r: String)
    ensures
        r@ == join_with(parts@.map_values(|c: String| c@), sep@),
{
    let ghost ps = parts@.map_values(|c: String| c@);
    if parts.len() == 0 {
        return String::new();
    }
    let mut acc = parts[0].clone();
    assert(ps.take(1) =~= seq![ps[0]]);
    let mut k: usize = 1;
    while k < parts.len()
        invariant
            1 <= k <= parts@.len(),
            ps == parts@.map_values(|c: String| c@),
            acc@ == join_with(ps.take(k as int), sep@),
        decreases parts@.len() - k,
    {
        acc.append(sep);
        acc.append(parts[k].as_str());
        assert(ps.take(k + 1).drop_last() =~= ps.take(k as int));
        k = k + 1;
    }
    assert(ps.take(k as int) =~= ps);
    acc
}

/// `s` inside one pair of double quotes.
pub fn quoted(s: &str) -> (r: String)
    ensures
        r@ == quote(s@),
{
    proof {
        reveal_strlit("\"");
    }
    let mut r = String::from_str("\"");
    r.append(s);
    r.append("\"");
    assert(r@ =~= quote(s@));
    r
}

/// `cell` followed by spaces up to `width` characters in all.
pub fn padded(cell: &str, width: usize) -> (r: String)
    requires
        cell@.len() <= width,
    ensures
        r@ == pad(cell@, width as int),
{
    let n = cell.unicode_len();
    let mut r = String::from_str(cell);
    let mut k: usize = n;
    while k < width
        invariant
            n == cell@.len(),
            n <= k <= width,
            r@ == pad(cell@, k as int),
        decreases width - k,
    {
        r.append(" ");
        proof {
            reveal_strlit(" ");
        }
        assert(pad(cell@, k + 1) =~= pad(cell@, k as int) + seq![' ']);
        k = k + 1;
    }
    r
}

} // verus!
