//! Gecko-family profile location and bookmark-store row extraction.
//!
//! The profile registry is a line-oriented `Key=Value` file; only `Path=`
//! lines matter, and the last one wins. The bookmark store itself is a
//! relational database that the embedding binary copies and queries; the
//! rows come back here as plain optional strings and are filtered and
//! normalized into `Bookmark` records.

use vstd::prelude::*;
use vstd::string::StrSliceExecFns;
use vstd::string::StringExecFns;
use crate::Bookmark;
use crate::BookmarkModel;

verus! {

/// The index of the first newline at or after `i`, or the length of `s`.
pub open spec fn find_newline(s: Seq<char>, i: int) -> int
    decreases s.len() - i,
{
    if i < 0 || i >= s.len() {
        s.len() as int
    } else if s[i] == '\n' {
        i
    } else {
        find_newline(s, i + 1)
    }
}

pub proof fn lemma_find_newline_bounds(s: Seq<char>, i: int)
    requires
        0 <= i <= s.len(),
    ensures
        i <= find_newline(s, i) <= s.len(),
    decreases s.len() - i,
{
    if i < s.len() && s[i] != '\n' {
        lemma_find_newline_bounds(s, i + 1);
    }
}

pub proof fn lemma_find_newline_at(s: Seq<char>, i: int, j: int)
    requires
        0 <= i <= j <= s.len(),
        forall|k: int| i <= k < j ==> s[k] != '\n',
        j == s.len() || s[j] == '\n',
    ensures
        find_newline(s, i) == j,
    decreases j - i,
{
    if i < j {
        lemma_find_newline_at(s, i + 1, j);
    }
}

/// A line terminated by a newline loses one trailing carriage return.
pub open spec fn strip_cr(line: Seq<char>) -> Seq<char> {
    if line.len() > 0 && line.last() == '\r' {
        line.drop_last()
    } else {
        line
    }
}

pub open spec fn path_prefix() -> Seq<char> {
    "Path="@
}

/// Whether a line begins with the literal prefix `Path=`.
pub open spec fn is_path_line(l: Seq<char>) -> bool {
    l.len() >= 5 && l.subrange(0, 5) == path_prefix()
}

/// The remainder of a `Path=` line.
pub open spec fn path_rest(l: Seq<char>) -> Seq<char> {
    l.subrange(5, l.len() as int)
}

/// Scans the registry text line by line from position `i`: every `Path=`
/// line overwrites the candidate, so the last such line wins.
pub open spec fn last_path_from(s: Seq<char>, i: int, cur: Option<Seq<char>>) -> Option<Seq<char>>
    decreases s.len() - i + 1,
{
    if i < 0 || i >= s.len() {
        cur
    } else {
        let j = find_newline(s, i);
        let raw = s.subrange(i, j);
        let line = if j < s.len() {
            strip_cr(raw)
        } else {
            raw
        };
        let cur2 = if is_path_line(line) {
            Some(path_rest(line))
        } else {
            cur
        };
        proof {
            lemma_find_newline_bounds(s, i);
        }
        last_path_from(s, j + 1, cur2)
    }
}

/// The value of the last `Path=` line of the registry text, if any.
pub open spec fn last_path(s: Seq<char>) -> Option<Seq<char>> {
    last_path_from(s, 0, None)
}

/// The resolved profile directory: the registry directory joined with the
/// last `Path=` value, or absence when no such line exists. As with a path
/// join, an absolute value (leading `/`) replaces the registry directory.
pub open spec fn profile_path_spec(ini: Seq<char>, registry: Seq<char>) -> Option<Seq<char>> {
    match last_path(ini) {
        None => None,
        Some(p) => if p.len() > 0 && p[0] == '/' {
            Some(p)
        } else {
            Some(registry + "/"@ + p)
        },
    }
}

proof fn lemma_find_newline_props(s: Seq<char>, i: int)
    requires
        0 <= i <= s.len(),
    ensures
        i <= find_newline(s, i) <= s.len(),
        find_newline(s, i) < s.len() ==> s[find_newline(s, i)] == '\n',
        forall|k: int| i <= k < find_newline(s, i) ==> s[k] != '\n',
    decreases s.len() - i,
{
    if i < s.len() && s[i] != '\n' {
        lemma_find_newline_props(s, i + 1);
    }
}

proof fn lemma_scan_shift(s: Seq<char>, t: Seq<char>, k: int, cur: Option<Seq<char>>)
    requires
        0 <= k <= t.len(),
    ensures
        last_path_from(s + t, s.len() + k, cur) == last_path_from(t, k, cur),
    decreases t.len() - k,
{
    let st = s + t;
    if k < t.len() {
        let j = find_newline(t, k);
        lemma_find_newline_props(t, k);
        assert forall|x: int| s.len() + k <= x < s.len() + j implies st[x] != '\n' by {
            assert(st[x] == t[x - s.len()]);
        }
        lemma_find_newline_at(st, s.len() + k, s.len() + j);
        assert(st.subrange(s.len() + k, s.len() + j) =~= t.subrange(k, j));
        let raw = t.subrange(k, j);
        let line = if j < t.len() {
            strip_cr(raw)
        } else {
            raw
        };
        let cur2 = if is_path_line(line) {
            Some(path_rest(line))
        } else {
            cur
        };
        assert(last_path_from(st, s.len() + k, cur) == last_path_from(st, s.len() + j + 1, cur2));
        assert(last_path_from(t, k, cur) == last_path_from(t, j + 1, cur2));
        if j < t.len() {
            lemma_scan_shift(s, t, j + 1, cur2);
        } else {
            assert(last_path_from(st, s.len() + j + 1, cur2) == cur2);
            assert(last_path_from(t, j + 1, cur2) == cur2);
        }
    }
}

proof fn lemma_last_path_append(s: Seq<char>, t: Seq<char>, i: int, cur: Option<Seq<char>>)
    requires
        0 <= i <= s.len(),
        s.len() == 0 || s.last() == '\n',
    ensures
        last_path_from(s + t, i, cur) == last_path_from(t, 0, last_path_from(s, i, cur)),
    decreases s.len() - i + 1,
{
    let st = s + t;
    if i == s.len() {
        lemma_scan_shift(s, t, 0, cur);
    } else {
        let j = find_newline(s, i);
        lemma_find_newline_props(s, i);
        if j == s.len() {
            assert(s[s.len() - 1] != '\n');
            assert(false);
        }
        assert forall|x: int| i <= x < j implies st[x] != '\n' by {
            assert(st[x] == s[x]);
        }
        assert(st[j] == s[j]);
        lemma_find_newline_at(st, i, j);
        assert(st.subrange(i, j) =~= s.subrange(i, j));
        let raw = s.subrange(i, j);
        let line = strip_cr(raw);
        let cur2 = if is_path_line(line) {
            Some(path_rest(line))
        } else {
            cur
        };
        assert(last_path_from(st, i, cur) == last_path_from(st, j + 1, cur2));
        assert(last_path_from(s, i, cur) == last_path_from(s, j + 1, cur2));
        lemma_last_path_append(s, t, j + 1, cur2);
    }
}

/// The last `Path=` line wins in general: appended after any
/// newline-terminated registry text, a newline-terminated `Path=` line —
/// its value free of newlines and carriage returns — becomes the resolved
/// candidate, whatever `Path=` or other lines came before.
pub proof fn lemma_last_path_wins(s: Seq<char>, p: Seq<char>)
    requires
        s.len() == 0 || s.last() == '\n',
        forall|k: int| 0 <= k < p.len() ==> p[k] != '\n' && p[k] != '\r',
    ensures
        last_path(s + (path_prefix() + p + seq!['\n'])) == Some(p),
{
    reveal_strlit("Path=");
    let t = path_prefix() + p + seq!['\n'];
    lemma_last_path_append(s, t, 0, None);
    let j = (5 + p.len()) as int;
    assert forall|x: int| 0 <= x < j implies t[x] != '\n' by {
        if x < 5 {
            assert(t[x] == path_prefix()[x]);
        } else {
            assert(t[x] == p[x - 5]);
        }
    }
    assert(t[j] == '\n');
    lemma_find_newline_at(t, 0, j);
    let raw = t.subrange(0, j);
    assert(raw =~= path_prefix() + p);
    if p.len() > 0 {
        assert(raw.last() == p.last());
    } else {
        assert(raw.last() == path_prefix()[4]);
    }
    let line = strip_cr(raw);
    assert(line == raw);
    assert(line.subrange(0, 5) =~= path_prefix());
    assert(is_path_line(line));
    assert(path_rest(line) =~= p);
    assert(last_path_from(t, 0, last_path(s)) == last_path_from(t, j + 1, Some(p)));
    assert(last_path_from(t, j + 1, Some(p)) == Some(p));
}

fn has_path_prefix(ini: &str, i: usize, end: usize) -> (r: bool)
    requires
        i <= end <= ini@.len(),
    ensures
        r == is_path_line(ini@.subrange(i as int, end as int)),
{
    proof {
        reveal_strlit("Path=");
    }
    let ghost l = ini@.subrange(i as int, end as int);
    if end - i < 5 {
        return false;
    }
    if ini.get_char(i) != 'P' {
        proof {
            assert(l.subrange(0, 5)[0] != path_prefix()[0]);
        }
        return false;
    }
    if ini.get_char(i + 1) != 'a' {
        proof {
            assert(l.subrange(0, 5)[1] != path_prefix()[1]);
        }
        return false;
    }
    if ini.get_char(i + 2) != 't' {
        proof {
            assert(l.subrange(0, 5)[2] != path_prefix()[2]);
        }
        return false;
    }
    if ini.get_char(i + 3) != 'h' {
        proof {
            assert(l.subrange(0, 5)[3] != path_prefix()[3]);
        }
        return false;
    }
    if ini.get_char(i + 4) != '=' {
        proof {
            assert(l.subrange(0, 5)[4] != path_prefix()[4]);
        }
        return false;
    }
    proof {
        assert(l.subrange(0, 5) =~= path_prefix());
    }
    true
}

/// Finds the active profile: scans `ini` for `Path=` lines (the last wins)
/// and joins the value onto the registry directory.
pub fn find_profile_path(ini: &str, registry: &str) -> (r: Option<String>)
    ensures
        r is Some <==> profile_path_spec(ini@, registry@) is Some,
        r matches Some(p) ==> profile_path_spec(ini@, registry@) == Some::<Seq<char>>(p@),
{
    let n = ini.unicode_len();
    let mut i: usize = 0;
    let mut have: bool = false;
    let mut cand_start: usize = 0;
    let mut cand_end: usize = 0;
    while i < n
        invariant
            n == ini@.len(),
            i <= n,
            have ==> cand_start <= cand_end <= n,
            last_path(ini@) == last_path_from(
                ini@,
                i as int,
                if have {
                    Some(ini@.subrange(cand_start as int, cand_end as int))
                } else {
                    None::<Seq<char>>
                },
            ),
        decreases n - i,
    {
        let ghost i0 = i;
        let ghost cur0: Option<Seq<char>> = if have {
            Some(ini@.subrange(cand_start as int, cand_end as int))
        } else {
            None
        };
        let mut j: usize = i;
        while j < n && ini.get_char(j) != '\n'
            invariant
                n == ini@.len(),
                i <= j <= n,
                forall|k: int| i <= k < j ==> ini@[k] != '\n',
            decreases n - j,
        {
            j += 1;
        }
        proof {
            lemma_find_newline_at(ini@, i as int, j as int);
        }
        let mut end: usize = j;
        if j < n && end > i && ini.get_char(end - 1) == '\r' {
            end -= 1;
        }
        let ghost line: Seq<char> = if (j as int) < ini@.len() {
            strip_cr(ini@.subrange(i as int, j as int))
        } else {
            ini@.subrange(i as int, j as int)
        };
        proof {
            assert(line =~= ini@.subrange(i as int, end as int));
        }
        if has_path_prefix(ini, i, end) {
            proof {
                assert(path_rest(line) =~= ini@.subrange(i as int + 5, end as int));
            }
            have = true;
            cand_start = i + 5;
            cand_end = end;
        }
        if j < n {
            i = j + 1;
        } else {
            i = n;
        }
        proof {
            let s = ini@;
            let cur2: Option<Seq<char>> = if have {
                Some(s.subrange(cand_start as int, cand_end as int))
            } else {
                None
            };
            assert(cur2 == if is_path_line(line) {
                Some(path_rest(line))
            } else {
                cur0
            });
            assert(last_path_from(s, i0 as int, cur0) == last_path_from(s, j as int + 1, cur2));
            if j == n {
                assert(last_path_from(s, n as int, cur2) == cur2);
                assert(last_path_from(s, n as int + 1, cur2) == cur2);
            }
        }
    }
    if have {
        let sub = ini.substring_char(cand_start, cand_end);
        if cand_start < cand_end && ini.get_char(cand_start) == '/' {
            Some(String::from_str(sub))
        } else {
            let mut out = String::from_str(registry);
            out.append("/");
            out.append(sub);
            Some(out)
        }
    } else {
        None
    }
}

/// One row of the bookmark-store query: the title and the resolved URL,
/// either of which the store may leave null.
pub struct GeckoRow {
    pub title: Option<String>,
    pub url: Option<String>,
}

/// The model of one row.
pub struct GeckoRowModel {
    pub title: Option<Seq<char>>,
    pub url: Option<Seq<char>>,
}

impl View for GeckoRow {
    type V = GeckoRowModel;

    open spec fn view(&self) -> GeckoRowModel {
        GeckoRowModel { title: self.title.deep_view(), url: self.url.deep_view() }
    }
}

impl DeepView for GeckoRow {
    type V = GeckoRowModel;

    open spec fn deep_view(&self) -> GeckoRowModel {
        self.view()
    }
}

/// The placeholder name for a row whose title is null.
pub open spec fn untitled_name() -> Seq<char> {
    "Untitled"@
}

/// The record a row yields: none when the URL is null or empty — every
/// emitted record carries a non-empty URL; a null title is replaced by the
/// placeholder.
pub open spec fn row_record(r: GeckoRowModel) -> Option<BookmarkModel> {
    match r.url {
        None => None,
        Some(u) => if u.len() == 0 {
            None
        } else {
            Some(
                BookmarkModel {
                    name: match r.title {
                        None => untitled_name(),
                        Some(t) => t,
                    },
                    url: u,
                },
            )
        },
    }
}

/// The records of a row sequence, in row order.
pub open spec fn rows_spec(rows: Seq<GeckoRowModel>) -> Seq<BookmarkModel>
    decreases rows.len(),
{
    if rows.len() == 0 {
        Seq::empty()
    } else {
        rows_spec(rows.drop_last()) + match row_record(rows.last()) {
            Some(b) => seq![b],
            None => Seq::<BookmarkModel>::empty(),
        }
    }
}

/// Filters and normalizes the queried rows: a row with a null URL is
/// skipped; a row with a null title is kept under the placeholder name.
pub fn rows_to_bookmarks(rows: &Vec<GeckoRow>) -> (r: Vec<Bookmark>)
    ensures
        r.deep_view() == rows_spec(rows.deep_view()),
{
    let mut out: Vec<Bookmark> = Vec::new();
    let mut i: usize = 0;
    while i < rows.len()
        invariant
            i <= rows.len(),
            rows.deep_view().len() == rows@.len(),
            out.deep_view() == rows_spec(rows.deep_view().subrange(0, i as int)),
        decreases rows.len() - i,
    {
        match &rows[i].url {
            Some(u) => {
                if !u.as_str().is_empty() {
                    let name = match &rows[i].title {
                        Some(t) => t.clone(),
                        None => String::from_str("Untitled"),
                    };
                    out.push(Bookmark { name, url: u.clone() });
                }
            },
            None => {},
        }
        proof {
            let rv = rows.deep_view();
            assert(rv.subrange(0, i + 1).drop_last() =~= rv.subrange(0, i as int));
            assert(rv.subrange(0, i + 1).last() == rv[i as int]);
            assert(out.deep_view() =~= rows_spec(rv.subrange(0, i + 1)));
        }
        i += 1;
    }
    proof {
        assert(rows.deep_view().subrange(0, rows@.len() as int) =~= rows.deep_view());
    }
    out
}

/// The number of rows whose URL is present and non-empty: exactly those
/// yield a record.
pub open spec fn qualifying_count(rows: Seq<GeckoRowModel>) -> nat
    decreases rows.len(),
{
    if rows.len() == 0 {
        0
    } else {
        qualifying_count(rows.drop_last()) + (if row_record(rows.last()) is Some {
            1nat
        } else {
            0nat
        })
    }
}

/// The extracted list has exactly one record per row with a non-empty URL:
/// null-URL and empty-URL rows are dropped, null-title rows are kept.
pub proof fn lemma_rows_len(rows: Seq<GeckoRowModel>)
    ensures
        rows_spec(rows).len() == qualifying_count(rows),
    decreases rows.len(),
{
    if rows.len() > 0 {
        lemma_rows_len(rows.drop_last());
    }
}

/// Every extracted record has a non-empty URL, whatever the rows hold:
/// rows without one yield no record.
pub proof fn lemma_rows_urls_nonempty(rows: Seq<GeckoRowModel>)
    ensures
        forall|i: int|
            0 <= i < rows_spec(rows).len() ==> (#[trigger] rows_spec(rows)[i]).url.len() > 0,
    decreases rows.len(),
{
    if rows.len() > 0 {
        let dl = rows.drop_last();
        lemma_rows_urls_nonempty(dl);
        let tail = match row_record(rows.last()) {
            Some(b) => seq![b],
            None => Seq::<BookmarkModel>::empty(),
        };
        assert(rows_spec(rows) == rows_spec(dl) + tail);
        assert forall|i: int| 0 <= i < rows_spec(rows).len() implies (#[trigger] rows_spec(
            rows,
        )[i]).url.len() > 0 by {
            if i < rows_spec(dl).len() {
                assert(rows_spec(rows)[i] == rows_spec(dl)[i]);
            } else {
                assert(rows_spec(rows)[i] == tail[0]);
            }
        }
    }
}

/// The expected file name of the bookmark store inside a profile directory.
pub open spec fn places_suffix() -> Seq<char> {
    "/places.sqlite"@
}

/// The full path of the bookmark store inside a profile directory.
pub fn places_db_path(profile: &str) -> (r: String)
    ensures
        r@ == profile@ + places_suffix(),
{
    let mut p = String::from_str(profile);
    p.append("/places.sqlite");
    p
}

/// The text of the bookmark-store query: URL bookmarks only (structural
/// type 1), joined to their place rows, null URLs excluded.
pub open spec fn places_query_text() -> Seq<char> {
    "SELECT mb.title, mp.url FROM moz_bookmarks mb JOIN moz_places mp ON mb.fk = mp.id WHERE mb.type = 1 AND mp.url IS NOT NULL"@
}

/// The query the embedding binary runs against the copied store.
pub fn places_query() -> (q: String)
    ensures
        q@ == places_query_text(),
{
    String::from_str(
        "SELECT mb.title, mp.url FROM moz_bookmarks mb JOIN moz_places mp ON mb.fk = mp.id WHERE mb.type = 1 AND mp.url IS NOT NULL",
    )
}

} // verus!
