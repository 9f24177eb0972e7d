//! Sorting the extracted timings by their time strings and rendering the
//! report text, plus the one uniform failure message.

use vstd::prelude::*;
use vstd::string::StringExecFns;

use crate::date::Date;
use crate::date::date_text;
use crate::date::format_date;
use crate::json::extract_text_pairs;
use crate::json::get_prayer_timings;
use crate::json::json_of_text;
use crate::json::pair_views;
use crate::json::parse_text;
use crate::text::lemma_lex_le_total;
use crate::text::lemma_lex_le_trans;
use crate::text::lex_le;
use crate::text::pad_left;
use crate::text::pad_left_str;
use crate::text::str_lex_le;

verus! {

/// Strict lexicographic order: `a` comes before `b` and is not equal to it
/// under `lex_le`.
pub open spec fn lex_lt(a: Seq<char>, b: Seq<char>) -> bool {
    !lex_le(b, a)
}

/// Inserts a pair into a sequence sorted by time text, after every pair
/// whose time is strictly smaller; among equal times the inserted pair
/// comes last, which keeps the sort stable.
pub open spec fn insert_by_time(
    x: (Seq<char>, Seq<char>),
    s: Seq<(Seq<char>, Seq<char>)>,
) -> Seq<(Seq<char>, Seq<char>)>
    decreases s.len(),
{
    if s.len() == 0 {
        seq![x]
    } else if lex_lt(s[0].1, x.1) {
        seq![s[0]] + insert_by_time(x, s.skip(1))
    } else {
        seq![x] + s
    }
}

/// Insertion sort of (name, time) pairs by ascending time text. Stable:
/// pairs with equal times keep their input order.
pub open spec fn sort_by_time(s: Seq<(Seq<char>, Seq<char>)>) -> Seq<(Seq<char>, Seq<char>)>
    decreases s.len(),
{
    if s.len() == 0 {
        s
    } else {
        insert_by_time(s[0], sort_by_time(s.skip(1)))
    }
}

/// Finds the position before which `insert_by_time` places a pair with
/// time `time`: the first index whose time is not strictly smaller.
fn find_insert_pos(r: &Vec<(String, String)>, time: &str) -> (j: usize)
    ensures
        j <= r@.len(),
        forall|k: int| 0 <= k < j ==> lex_lt((#[trigger] r@[k]).1@, time@),
        j < r@.len() ==> !lex_lt(r@[j as int].1@, time@),
{
    let mut j: usize = 0;
    loop
        invariant
            j <= r@.len(),
            forall|k: int| 0 <= k < j ==> lex_lt((#[trigger] r@[k]).1@, time@),
        decreases r@.len() - j,
    {
        if j == r.len() {
            return j;
        }
        if str_lex_le(time, r[j].1.as_str()) {
            return j;
        }
        j += 1;
    }
}

/// `insert_by_time` places the new pair exactly at the first position
/// whose time is not strictly smaller.
proof fn lemma_insert_at(x: (Seq<char>, Seq<char>), s: Seq<(Seq<char>, Seq<char>)>, j: int)
    requires
        0 <= j <= s.len(),
        forall|k: int| 0 <= k < j ==> lex_lt((#[trigger] s[k]).1, x.1),
        j < s.len() ==> !lex_lt(s[j].1, x.1),
    ensures
        insert_by_time(x, s) == s.insert(j, x),
    decreases j,
{
    if j == 0 {
        assert(insert_by_time(x, s) =~= s.insert(0, x));
    } else {
        lemma_insert_at(x, s.skip(1), j - 1);
        assert(insert_by_time(x, s) == seq![s[0]] + insert_by_time(x, s.skip(1)));
        assert(insert_by_time(x, s) =~= s.insert(j, x));
    }
}

/// Inserts one pair into a vector already sorted by time, where
/// `insert_by_time` says.
fn insert_timing(r: &mut Vec<(String, String)>, x: (String, String))
    ensures
        pair_views(final(r)@) == insert_by_time((x.0@, x.1@), pair_views(old(r)@)),
{
    let j = find_insert_pos(r, x.1.as_str());
    proof {
        lemma_insert_at((x.0@, x.1@), pair_views(r@), j as int);
    }
    r.insert(j, x);
    proof {
        assert(pair_views(r@) =~= pair_views(old(r)@).insert(j as int, (x.0@, x.1@)));
    }
}

/// Sorts the pairs by ascending lexical order of the time strings, stably.
pub fn sort_timings(v: Vec<(String, String)>) -> (r: Vec<(String, String)>)
    ensures
        pair_views(r@) == sort_by_time(pair_views(v@)),
{
    let mut r: Vec<(String, String)> = Vec::new();
    let mut i: usize = v.len();
    while i > 0
        invariant
            i <= v@.len(),
            pair_views(r@) == sort_by_time(pair_views(v@).skip(i as int)),
        decreases i,
    {
        i -= 1;
        let x = (v[i].0.clone(), v[i].1.clone());
        proof {
            assert(pair_views(v@).skip(i as int).skip(1) =~= pair_views(v@).skip(i as int + 1));
            assert(pair_views(v@).skip(i as int)[0] == pair_views(v@)[i as int]);
        }
        insert_timing(&mut r, x);
    }
    proof {
        assert(pair_views(v@).skip(0) =~= pair_views(v@));
    }
    r
}

/// The pairs stand in ascending lexical order of their time texts.
pub open spec fn sorted_by_time(s: Seq<(Seq<char>, Seq<char>)>) -> bool {
    forall|i: int, j: int|
        0 <= i < j < s.len() ==> lex_le((#[trigger] s[i]).1, (#[trigger] s[j]).1)
}

/// Inserting into a sorted sequence keeps it sorted, adds exactly the new
/// pair, and invents no pair.
proof fn lemma_insert_by_time_props(x: (Seq<char>, Seq<char>), s: Seq<(Seq<char>, Seq<char>)>)
    requires
        sorted_by_time(s),
    ensures
        sorted_by_time(insert_by_time(x, s)),
        insert_by_time(x, s).to_multiset() == s.to_multiset().insert(x),
        insert_by_time(x, s).len() == s.len() + 1,
        forall|k: int|
            0 <= k < insert_by_time(x, s).len() ==> (#[trigger] insert_by_time(x, s)[k]) == x
                || s.contains(insert_by_time(x, s)[k]),
    decreases s.len(),
{
    broadcast use vstd::seq_lib::group_to_multiset_ensures;
    broadcast use vstd::seq_lib::lemma_multiset_commutative;

    let t = insert_by_time(x, s);
    if s.len() == 0 {
        assert(t =~= Seq::<(Seq<char>, Seq<char>)>::empty().push(x));
        assert(t.to_multiset() =~= s.to_multiset().insert(x));
    } else if lex_lt(s[0].1, x.1) {
        assert(sorted_by_time(s.skip(1))) by {
            assert(forall|i: int, j: int|
                0 <= i < j < s.skip(1).len() ==> s.skip(1)[i] == s[i + 1] && s.skip(1)[j] == s[j
                    + 1]);
        }
        lemma_insert_by_time_props(x, s.skip(1));
        let u = insert_by_time(x, s.skip(1));
        assert(t == seq![s[0]] + u);
        assert forall|k: int| 0 <= k < t.len() implies (#[trigger] t[k]) == x || s.contains(
            t[k],
        ) by {
            if k == 0 {
                assert(s.contains(s[0]));
            } else {
                assert(t[k] == u[k - 1]);
                if u[k - 1] == x {
                } else {
                    let m = choose|m: int| 0 <= m < s.skip(1).len() && s.skip(1)[m] == u[k - 1];
                    assert(s[m + 1] == u[k - 1]);
                    assert(s.contains(u[k - 1]));
                }
            }
        }
        assert forall|i: int, j: int| 0 <= i < j < t.len() implies lex_le(
            (#[trigger] t[i]).1,
            (#[trigger] t[j]).1,
        ) by {
            if i == 0 {
                assert(t[j] == u[j - 1]);
                if u[j - 1] == x {
                    lemma_lex_le_total(x.1, s[0].1);
                } else {
                    let m = choose|m: int| 0 <= m < s.skip(1).len() && s.skip(1)[m] == u[j - 1];
                    assert(s[m + 1] == u[j - 1]);
                    assert(lex_le(s[0].1, s[m + 1].1));
                }
            } else {
                assert(t[i] == u[i - 1] && t[j] == u[j - 1]);
            }
        }
        assert(t.to_multiset() == seq![s[0]].to_multiset().add(u.to_multiset()));
        assert(s =~= seq![s[0]] + s.skip(1));
        assert(s.to_multiset() == seq![s[0]].to_multiset().add(s.skip(1).to_multiset()));
        assert(t.to_multiset() =~= s.to_multiset().insert(x));
    } else {
        assert(t == seq![x] + s);
        assert(lex_le(x.1, s[0].1));
        assert forall|i: int, j: int| 0 <= i < j < t.len() implies lex_le(
            (#[trigger] t[i]).1,
            (#[trigger] t[j]).1,
        ) by {
            if i == 0 {
                assert(t[j] == s[j - 1]);
                if j == 1 {
                } else {
                    assert(lex_le(s[0].1, s[j - 1].1));
                    lemma_lex_le_trans(x.1, s[0].1, s[j - 1].1);
                }
            } else {
                assert(t[i] == s[i - 1] && t[j] == s[j - 1]);
            }
        }
        assert forall|k: int| 0 <= k < t.len() implies (#[trigger] t[k]) == x || s.contains(
            t[k],
        ) by {
            if k > 0 {
                assert(t[k] == s[k - 1]);
                assert(s.contains(s[k - 1]));
            }
        }
        assert(t.to_multiset() == seq![x].to_multiset().add(s.to_multiset()));
        assert(seq![x] =~= Seq::<(Seq<char>, Seq<char>)>::empty().push(x));
        assert(t.to_multiset() =~= s.to_multiset().insert(x));
    }
}

/// Law: sorting yields the pairs in ascending lexical order of their time
/// texts, and neither adds, drops nor changes a pair.
pub proof fn lemma_sort_by_time_sorts_and_permutes(s: Seq<(Seq<char>, Seq<char>)>)
    ensures
        sorted_by_time(sort_by_time(s)),
        sort_by_time(s).to_multiset() == s.to_multiset(),
        sort_by_time(s).len() == s.len(),
    decreases s.len(),
{
    broadcast use vstd::seq_lib::group_to_multiset_ensures;

    if s.len() == 0 {
    } else {
        lemma_sort_by_time_sorts_and_permutes(s.skip(1));
        lemma_insert_by_time_props(s[0], sort_by_time(s.skip(1)));
        assert(s.remove(0) =~= s.skip(1));
        assert(s.remove(0).to_multiset() == s.to_multiset().remove(s[0]));
        assert(s.contains(s[0]));
        assert(s.to_multiset().count(s[0]) > 0);
        assert(s.to_multiset().remove(s[0]).insert(s[0]) =~= s.to_multiset());
        assert(sort_by_time(s).to_multiset() == s.to_multiset());
    }
}

/// One report line: four leading spaces, the name right-aligned to ten
/// characters, a separator, the time text, and a line break.
pub open spec fn line_text(name: Seq<char>, time: Seq<char>) -> Seq<char> {
    "    "@ + pad_left(name, 10, ' ') + " : "@ + time + "\n"@
}

/// The report lines for a sequence of pairs, in order.
pub open spec fn lines_text(ps: Seq<(Seq<char>, Seq<char>)>) -> Seq<char>
    decreases ps.len(),
{
    if ps.len() == 0 {
        Seq::empty()
    } else {
        line_text(ps[0].0, ps[0].1) + lines_text(ps.skip(1))
    }
}

/// The whole report for a set of extracted pairs: a header naming the
/// date, a blank line, one line per pair sorted by time, and a trailing
/// blank line.
pub open spec fn report_text(pairs: Seq<(Seq<char>, Seq<char>)>, d: Date) -> Seq<char> {
    "\nPrayer times for "@ + date_text(d) + ":\n\n"@ + lines_text(sort_by_time(pairs)) + "\n"@
}

/// Renders one line of the report.
fn render_line(name: &str, time: &str) -> (r: String)
    ensures
        r@ == line_text(name@, time@),
{
    proof {
        reveal_strlit(" ");
    }
    let mut s = String::from_str("    ");
    let padded = pad_left_str(name, 10, " ");
    s.append(padded.as_str());
    s.append(" : ");
    s.append(time);
    s.append("\n");
    proof {
        assert(s@ =~= line_text(name@, time@));
    }
    s
}

/// Appending the line of the next pair extends the rendered lines by one.
proof fn lemma_lines_snoc(ps: Seq<(Seq<char>, Seq<char>)>, i: int)
    requires
        0 <= i < ps.len(),
    ensures
        lines_text(ps.take(i + 1)) == lines_text(ps.take(i)) + line_text(ps[i].0, ps[i].1),
    decreases i,
{
    if i == 0 {
        assert(ps.take(1).skip(1) =~= Seq::<(Seq<char>, Seq<char>)>::empty());
        assert(ps.take(0) =~= Seq::<(Seq<char>, Seq<char>)>::empty());
        assert(lines_text(ps.take(1)) =~= lines_text(ps.take(0)) + line_text(ps[0].0, ps[0].1));
    } else {
        lemma_lines_snoc(ps.skip(1), i - 1);
        assert(ps.take(i + 1).skip(1) =~= ps.skip(1).take(i));
        assert(ps.take(i).skip(1) =~= ps.skip(1).take(i - 1));
        assert(ps.take(i + 1)[0] == ps[0]);
        assert(ps.take(i)[0] == ps[0]);
        assert(lines_text(ps.take(i + 1)) == line_text(ps[0].0, ps[0].1) + lines_text(
            ps.skip(1).take(i),
        ));
        assert(lines_text(ps.take(i + 1)) =~= lines_text(ps.take(i)) + line_text(
            ps[i].0,
            ps[i].1,
        ));
    }
}

/// Sorts the extracted pairs and renders the whole report for one date.
pub fn render_report(pairs: Vec<(String, String)>, date: &Date) -> (r: String)
    ensures
        r@ == report_text(pair_views(pairs@), *date),
{
    let ghost orig = pair_views(pairs@);
    let sorted = sort_timings(pairs);
    let mut s = String::from_str("\nPrayer times for ");
    let d = format_date(date);
    s.append(d.as_str());
    s.append(":\n\n");
    let ghost header = s@;
    let mut i: usize = 0;
    proof {
        assert(pair_views(sorted@).take(0) =~= Seq::<(Seq<char>, Seq<char>)>::empty());
    }
    while i < sorted.len()
        invariant
            i <= sorted@.len(),
            pair_views(sorted@) == sort_by_time(orig),
            s@ == header + lines_text(pair_views(sorted@).take(i as int)),
        decreases sorted@.len() - i,
    {
        let line = render_line(sorted[i].0.as_str(), sorted[i].1.as_str());
        s.append(line.as_str());
        proof {
            lemma_lines_snoc(pair_views(sorted@), i as int);
            assert(pair_views(sorted@)[i as int] == (sorted@[i as int].0@, sorted@[i as int].1@));
            assert(s@ =~= header + lines_text(pair_views(sorted@).take(i as int + 1)));
        }
        i += 1;
    }
    s.append("\n");
    proof {
        assert(pair_views(sorted@).take(sorted@.len() as int) =~= pair_views(sorted@));
        assert(s@ =~= report_text(orig, *date));
    }
    s
}

/// Why a run could not show prayer times: the request never yielded a
/// body, or the body was not valid JSON. A shape mismatch is no error; it
/// renders as a report with no lines.
#[derive(Debug)]
pub enum FetchError {
    Transport,
    Parse,
}

impl FetchError {
    /// The one uniform message a failed run prints; no distinction between
    /// the kinds is surfaced to the user.
    pub fn message(&self) -> (r: String)
        ensures
            r@ == "Could not fetch prayer times!"@,
    {
        String::from_str("Could not fetch prayer times!")
    }
}

/// The compute side of one run, after the response body arrived: parses
/// the body, extracts the `data.timings` pairs, and renders the report for
/// the given date. Fails exactly where the body is not valid JSON.
pub fn show_prayer_times(body: &str, date: &Date) -> (r: Result<String, FetchError>)
    ensures
        json_of_text(body@) matches Some(v) ==> r matches Ok(out) && out@ == report_text(
            extract_text_pairs(v),
            *date,
        ),
        json_of_text(body@) is None ==> r == Result::<String, FetchError>::Err(FetchError::Parse),
{
    match parse_text(body) {
        Some(j) => {
            let pairs = get_prayer_timings(&j);
            Ok(render_report(pairs, date))
        },
        None => Err(FetchError::Parse),
    }
}

} // verus!
