//! The navigation-aid file: one record per line, fields separated by
//! whitespace. Column 1 is the latitude, column 2 the longitude, column 7 the
//! identifier, and the columns from 8 on, joined by single spaces, the name.
//! Empty lines, lines that start with `#` and lines of fewer than eight
//! columns hold no record.
use vstd::prelude::*;
use vstd::string::StringExecFns;
use vstd::string::StrSliceExecFns;

verus! {

/// A navigation aid. The coordinates stay as the decimal text of the file;
/// they are turned into numbers where the points are handed out.
pub struct NavPoint {
    pub id: String,
    pub lat: String,
    pub lon: String,
    pub name: String,
}

/// A navigation aid's fields as character sequences.
pub struct NavPointView {
    pub id: Seq<char>,
    pub lat: Seq<char>,
    pub lon: Seq<char>,
    pub name: Seq<char>,
}

impl View for NavPoint {
    type V = NavPointView;

    open spec fn view(&self) -> NavPointView {
        NavPointView { id: self.id@, lat: self.lat@, lon: self.lon@, name: self.name@ }
    }
}

/// Unicode's White_Space property, which `char::is_whitespace` tests.
pub open spec fn is_space_spec(c: char) -> bool {
    ('\u{9}' <= c && c <= '\u{d}') || c == ' ' || c == '\u{85}' || c == '\u{a0}' || c
        == '\u{1680}' || ('\u{2000}' <= c && c <= '\u{200a}') || c == '\u{2028}' || c
        == '\u{2029}' || c == '\u{202f}' || c == '\u{205f}' || c == '\u{3000}'
}

/// The words of `s` after the words `acc` and the unfinished word `cur`.
pub open spec fn words_from(s: Seq<char>, acc: Seq<Seq<char>>, cur: Seq<char>) -> Seq<Seq<char>>
    decreases s.len(),
{
    if s.len() == 0 {
        if cur.len() > 0 {
            acc.push(cur)
        } else {
            acc
        }
    } else if is_space_spec(s[0]) {
        words_from(s.drop_first(), if cur.len() > 0 { acc.push(cur) } else { acc }, seq![])
    } else {
        words_from(s.drop_first(), acc, cur.push(s[0]))
    }
}

/// The maximal runs of non-whitespace characters of `s`, in order.
pub open spec fn words(s: Seq<char>) -> Seq<Seq<char>> {
    words_from(s, seq![], seq![])
}

/// Words joined by single spaces.
pub open spec fn join_spaced(ws: Seq<Seq<char>>) -> Seq<char>
    decreases ws.len(),
{
    if ws.len() == 0 {
        seq![]
    } else if ws.len() == 1 {
        ws[0]
    } else {
        join_spaced(ws.drop_last()) + seq![' '] + ws.last()
    }
}

/// The record that one line of the file holds, if any.
pub open spec fn line_record(line: Seq<char>) -> Option<NavPointView> {
    let w = words(line);
    if w.len() == 0 || w[0][0] == '#' || w.len() < 8 {
        None
    } else {
        Some(NavPointView { id: w[7], lat: w[1], lon: w[2], name: join_spaced(w.skip(8)) })
    }
}

/// The records of a file's lines, in the order of the lines.
pub open spec fn file_records(lines: Seq<Seq<char>>) -> Seq<NavPointView>
    decreases lines.len(),
{
    if lines.len() == 0 {
        seq![]
    } else {
        let prev = file_records(lines.drop_last());
        match line_record(lines.last()) {
            Some(p) => prev.push(p),
            None => prev,
        }
    }
}

pub open spec fn views_of_strings(v: Seq<String>) -> Seq<Seq<char>> {
    v.map_values(|s: String| s@)
}

pub open spec fn views_of_points(v: Seq<NavPoint>) -> Seq<NavPointView> {
    v.map_values(|p: NavPoint| p@)
}

pub fn is_space(c: char) -> (r: bool)
    ensures
        r == is_space_spec(c),
{
    ('\u{9}' <= c && c <= '\u{d}') || c == ' ' || c == '\u{85}' || c == '\u{a0}' || c
        == '\u{1680}' || ('\u{2000}' <= c && c <= '\u{200a}') || c == '\u{2028}' || c
        == '\u{2029}' || c == '\u{202f}' || c == '\u{205f}' || c == '\u{3000}'
}

/// Splits a line into its whitespace-separated words.
pub fn split_words(s: &str) -> (r: Vec<String>)
    ensures
        views_of_strings(r@) == words(s@),
{
    let n = s.unicode_len();
    let mut out: Vec<String> = Vec::new();
    let mut start: usize = 0;
    let mut i: usize = 0;
    assert(s@.skip(0) =~= s@);
    assert(views_of_strings(out@) =~= seq![]);
    assert(s@.subrange(0, 0) =~= seq![]);
    while i < n
        invariant
            n == s@.len(),
            start <= i <= n,
            words(s@) == words_from(s@.skip(i as int), views_of_strings(out@), s@.subrange(
                start as int,
                i as int,
            )),
        decreases n - i,
    {
        let c = s.get_char(i);
        let ghost rest = s@.skip(i as int);
        assert(rest[0] == c);
        assert(rest.drop_first() =~= s@.skip(i + 1));
        if is_space(c) {
            if start < i {
                let w = String::from_str(s.substring_char(start, i));
                let ghost before = views_of_strings(out@);
                out.push(w);
                assert(views_of_strings(out@) =~= before.push(s@.subrange(start as int, i as int)));
            }
            start = i + 1;
            assert(s@.subrange(start as int, i + 1) =~= seq![]);
        } else {
            assert(s@.subrange(start as int, i + 1) =~= s@.subrange(start as int, i as int).push(c));
        }
        i = i + 1;
    }
    assert(s@.skip(n as int) =~= seq![]);
    if start < n {
        let w = String::from_str(s.substring_char(start, n));
        let ghost before = views_of_strings(out@);
        out.push(w);
        assert(views_of_strings(out@) =~= before.push(s@.subrange(start as int, n as int)));
    }
    out
}

/// Joins `ws[from..]` with single spaces.
pub fn join_from(ws: &Vec<String>, from: usize) -> (r: String)
    requires
        from <= ws@.len(),
    ensures
        r@ == join_spaced(views_of_strings(ws@).skip(from as int)),
{
    let ghost v = views_of_strings(ws@);
    let mut out = String::new();
    let mut k: usize = from;
    proof {
        reveal_strlit(" ");
        assert(v.subrange(from as int, from as int) =~= seq![]);
    }
    while k < ws.len()
        invariant
            from <= k <= ws@.len(),
            v == views_of_strings(ws@),
            out@ == join_spaced(v.subrange(from as int, k as int)),
        decreases ws@.len() - k,
    {
        let ghost sub = v.subrange(from as int, k + 1);
        assert(sub.drop_last() =~= v.subrange(from as int, k as int));
        assert(sub.last() == ws@[k as int]@);
        if k > from {
            proof {
                reveal_strlit(" ");
            }
            assert(sub.len() >= 2);
            out.append(" ");
        } else {
            assert(sub =~= seq![ws@[k as int]@]);
            assert(out@ =~= seq![]);
        }
        out.append(ws[k].as_str());
        k = k + 1;
    }
    assert(v.subrange(from as int, ws@.len() as int) =~= v.skip(from as int));
    out
}

/// The record that one line holds: `None` for an empty line, a comment, or a
/// line of fewer than eight columns.
pub fn parse_nav_line(line: &str) -> (r: Option<NavPoint>)
    ensures
        r matches Some(p) ==> line_record(line@) == Some(p@),
        r is None ==> line_record(line@) is None,
{
    let w = split_words(line);
    let ghost wv = words(line@);
    assert(w@.len() == wv.len());
    if w.len() == 0 {
        return None;
    }
    assert(w@[0]@ == wv[0]);
    if w[0].as_str().unicode_len() > 0 && w[0].as_str().get_char(0) == '#' {
        return None;
    }
    if w.len() < 8 {
        return None;
    }
    proof {
        lemma_words_nonempty(line@);
    }
    let name = join_from(&w, 8);
    let p = NavPoint {
        id: w[7].clone(),
        lat: w[1].clone(),
        lon: w[2].clone(),
        name,
    };
    assert(views_of_strings(w@).skip(8) == wv.skip(8));
    Some(p)
}

proof fn lemma_words_from_nonempty(s: Seq<char>, acc: Seq<Seq<char>>, cur: Seq<char>)
    requires
        forall|i: int| 0 <= i < acc.len() ==> (#[trigger] acc[i]).len() > 0,
    ensures
        forall|i: int|
            0 <= i < words_from(s, acc, cur).len() ==> (#[trigger] words_from(s, acc, cur)[i]).len()
                > 0,
    decreases s.len(),
{
    if s.len() > 0 {
        if is_space_spec(s[0]) {
            let acc2 = if cur.len() > 0 {
                acc.push(cur)
            } else {
                acc
            };
            assert forall|i: int| 0 <= i < acc2.len() implies (#[trigger] acc2[i]).len() > 0 by {
                if i < acc.len() {
                    assert(acc2[i] == acc[i]);
                }
            }
            lemma_words_from_nonempty(s.drop_first(), acc2, seq![]);
            assert(words_from(s, acc, cur) == words_from(s.drop_first(), acc2, seq![]));
        } else {
            lemma_words_from_nonempty(s.drop_first(), acc, cur.push(s[0]));
            assert(words_from(s, acc, cur) == words_from(s.drop_first(), acc, cur.push(s[0])));
        }
    } else {
        let r = words_from(s, acc, cur);
        assert forall|i: int| 0 <= i < r.len() implies (#[trigger] r[i]).len() > 0 by {
            if i < acc.len() {
                assert(r[i] == acc[i]);
            }
        }
    }
}

/// Every word has at least one character.
pub proof fn lemma_words_nonempty(s: Seq<char>)
    ensures
        forall|i: int| 0 <= i < words(s).len() ==> (#[trigger] words(s)[i]).len() > 0,
{
    lemma_words_from_nonempty(s, seq![], seq![]);
}

/// The records of a file's lines, in order. Lines that hold no record are
/// skipped without error.
pub fn parse_nav_lines(lines: &Vec<String>) -> (r: Vec<NavPoint>)
    ensures
        views_of_points(r@) == file_records(views_of_strings(lines@)),
{
    let ghost lv = views_of_strings(lines@);
    let mut out: Vec<NavPoint> = Vec::new();
    let mut k: usize = 0;
    proof {
        assert(lv.subrange(0, 0) =~= seq![]);
        assert(views_of_points(out@) =~= seq![]);
    }
    while k < lines.len()
        invariant
            k <= lines@.len(),
            lv == views_of_strings(lines@),
            views_of_points(out@) == file_records(lv.subrange(0, k as int)),
        decreases lines@.len() - k,
    {
        let ghost sub = lv.subrange(0, k + 1);
        assert(sub.drop_last() =~= lv.subrange(0, k as int));
        assert(sub.last() == lines@[k as int]@);
        match parse_nav_line(lines[k].as_str()) {
            Some(p) => {
                let ghost before = views_of_points(out@);
                out.push(p);
                assert(views_of_points(out@) =~= before.push(p@));
            },
            None => {},
        }
        k = k + 1;
    }
    assert(lv.subrange(0, lines@.len() as int) =~= lv);
    out
}


/// Why a load of the file was refused: a coordinate that does not read as a
/// number, with its text.
pub enum NavError {
    InvalidLatitude { value: String },
    InvalidLongitude { value: String },
}

/// Point `i` is the first whose latitude or longitude does not read as a
/// number.
pub open spec fn first_unreadable(readable: Seq<(bool, bool)>, i: int) -> bool {
    &&& 0 <= i < readable.len()
    &&& !(readable[i].0 && readable[i].1)
    &&& forall|j: int| 0 <= j < i ==> (#[trigger] readable[j]).0 && readable[j].1
}

/// Decides a load from whether each point's latitude and longitude read as
/// numbers (`readable[i]`, in that order): the load fails on the first point
/// that has an unreadable coordinate, naming the latitude before the
/// longitude.
pub fn check_coordinates(points: &Vec<NavPoint>, readable: &Vec<(bool, bool)>) -> (r: Result<
    (),
    NavError,
>)
    requires
        points@.len() == readable@.len(),
    ensures
        r is Ok <==> (forall|i: int|
            0 <= i < readable@.len() ==> (#[trigger] readable@[i]).0 && readable@[i].1),
        r matches Err(NavError::InvalidLatitude { value }) ==> exists|i: int|
            first_unreadable(readable@, i) && !readable@[i].0 && value@ == points@[i].lat@,
        r matches Err(NavError::InvalidLongitude { value }) ==> exists|i: int|
            first_unreadable(readable@, i) && readable@[i].0 && value@ == points@[i].lon@,
{
    let mut k: usize = 0;
    while k < readable.len()
        invariant
            k <= readable@.len(),
            points@.len() == readable@.len(),
            forall|j: int| 0 <= j < k ==> (#[trigger] readable@[j]).0 && readable@[j].1,
        decreases readable@.len() - k,
    {
        let (lat_ok, lon_ok) = readable[k];
        if !lat_ok {
            assert(first_unreadable(readable@, k as int));
            return Err(NavError::InvalidLatitude { value: points[k].lat.clone() });
        }
        if !lon_ok {
            assert(first_unreadable(readable@, k as int));
            return Err(NavError::InvalidLongitude { value: points[k].lon.clone() });
        }
        k = k + 1;
    }
    Ok(())
}

} // verus!
