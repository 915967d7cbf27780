use vstd::prelude::*;

use crate::text::{lines_of, occurs, occurs_at, occurs_in, split_lines, text_chars, views};

verus! {

broadcast use vstd::seq_lib::group_filter_ensures;

/// Full lowercase mapping of a string, as `str::to_lowercase` computes it.
pub uninterp spec fn lower_of(s: Seq<char>) -> Seq<char>;

/// Relies on `str::to_lowercase`: its result depends on the characters of `s`
/// alone.
#[verifier::external_body]
fn lowercase(s: &str) -> (r: String)
    ensures
        r@ == lower_of(s@),
{
    s.to_lowercase()
}

/// A line matches a query when the query occurs in it verbatim.
pub open spec fn line_has(query: Seq<char>, line: Seq<char>) -> bool {
    occurs(line, query)
}

/// A line matches a query regardless of case when the lowercased query occurs
/// in the lowercased line.
pub open spec fn line_has_folded(query: Seq<char>, line: Seq<char>) -> bool {
    occurs(lower_of(line), lower_of(query))
}

/// The lines of `contents` that contain `query`, in order.
pub open spec fn matching_lines(query: Seq<char>, contents: Seq<char>) -> Seq<Seq<char>> {
    lines_of(contents).filter(|l: Seq<char>| line_has(query, l))
}

/// The lines of `contents` that contain `query` when both are lowercased, in order.
pub open spec fn matching_lines_folded(query: Seq<char>, contents: Seq<char>) -> Seq<Seq<char>> {
    lines_of(contents).filter(|l: Seq<char>| line_has_folded(query, l))
}

/// Whether `query` occurs in `line`, character for character.
pub fn line_matches(line: &str, query: &str) -> (r: bool)
    ensures
        r == occurs(line@, query@),
{
    let l = text_chars(line);
    let q = text_chars(query);
    occurs_in(&l, &q)
}

/// The lines of `contents` that contain `query`, in their original order; each
/// is a slice of `contents`.
pub fn search<'a>(query: &str, contents: &'a str) -> (r: Vec<&'a str>)
    ensures
        views(r@) == matching_lines(query@, contents@),
{
    let lines = split_lines(contents);
    let ghost p = |l: Seq<char>| line_has(query@, l);
    let mut results: Vec<&'a str> = Vec::new();
    let mut i: usize = 0;
    while i < lines.len()
        invariant
            i <= lines@.len(),
            views(lines@) == lines_of(contents@),
            p == (|l: Seq<char>| line_has(query@, l)),
            views(results@) == views(lines@.take(i as int)).filter(p),
        decreases lines.len() - i,
    {
        let line = lines[i];
        let hit = line_matches(line, query);
        proof {
            assert(views(lines@.take(i + 1)) =~= views(lines@.take(i as int)).push(line@));
            views(lines@.take(i as int)).lemma_filter_push(line@, p);
            assert(views(results@.push(line)) =~= views(results@).push(line@));
        }
        if hit {
            results.push(line);
        }
        i = i + 1;
    }
    assert(lines@.take(i as int) =~= lines@);
    results
}

/// The lines of `contents` that contain `query` once both are lowercased, in
/// their original order; each is a slice of `contents`, with its own case.
pub fn search_case_insensitive<'a>(query: &str, contents: &'a str) -> (r: Vec<&'a str>)
    ensures
        views(r@) == matching_lines_folded(query@, contents@),
{
    let folded_query = lowercase(query);
    let lines = split_lines(contents);
    let ghost p = |l: Seq<char>| line_has_folded(query@, l);
    let mut results: Vec<&'a str> = Vec::new();
    let mut i: usize = 0;
    while i < lines.len()
        invariant
            i <= lines@.len(),
            folded_query@ == lower_of(query@),
            views(lines@) == lines_of(contents@),
            p == (|l: Seq<char>| line_has_folded(query@, l)),
            views(results@) == views(lines@.take(i as int)).filter(p),
        decreases lines.len() - i,
    {
        let line = lines[i];
        let folded_line = lowercase(line);
        let hit = line_matches(folded_line.as_str(), folded_query.as_str());
        proof {
            assert(views(lines@.take(i + 1)) =~= views(lines@.take(i as int)).push(line@));
            views(lines@.take(i as int)).lemma_filter_push(line@, p);
            assert(views(results@.push(line)) =~= views(results@).push(line@));
        }
        if hit {
            results.push(line);
        }
        i = i + 1;
    }
    assert(lines@.take(i as int) =~= lines@);
    results
}

/// `a` and `b` differ in letter case only: as many characters, not equal, and
/// equal once lowercased.
pub open spec fn differ_only_by_case(a: Seq<char>, b: Seq<char>) -> bool {
    a.len() == b.len() && a != b && lower_of(a) == lower_of(b)
}

proof fn lemma_filter_none(s: Seq<Seq<char>>, p: spec_fn(Seq<char>) -> bool)
    requires
        forall|j: int| 0 <= j < s.len() ==> !p(s[j]),
    ensures
        s.filter(p) == Seq::<Seq<char>>::empty(),
    decreases s.len(),
{
    reveal(Seq::filter);
    if s.len() > 0 {
        lemma_filter_none(s.drop_last(), p);
    }
}

proof fn lemma_filter_one(s: Seq<Seq<char>>, p: spec_fn(Seq<char>) -> bool, i: int)
    requires
        0 <= i < s.len(),
        p(s[i]),
        forall|j: int| 0 <= j < s.len() && j != i ==> !p(s[j]),
    ensures
        s.filter(p) == seq![s[i]],
{
    let front = s.take(i);
    let back = s.skip(i + 1);
    assert(s =~= front + seq![s[i]] + back);
    lemma_filter_none(front, p);
    lemma_filter_none(back, p);
    Seq::filter_distributes_over_add(front + seq![s[i]], back, p);
    Seq::filter_distributes_over_add(front, seq![s[i]], p);
    Seq::<Seq<char>>::empty().lemma_filter_push(s[i], p);
    assert(Seq::<Seq<char>>::empty().push(s[i]) =~= seq![s[i]]);
    assert(Seq::<Seq<char>>::empty().filter(p) =~= Seq::<Seq<char>>::empty()) by {
        reveal(Seq::filter);
    }
    assert(Seq::<Seq<char>>::empty() + seq![s[i]] + Seq::<Seq<char>>::empty() =~= seq![s[i]]);
}

/// When the query occurs verbatim in exactly one line of the text, the
/// case-sensitive search finds exactly that line.
pub proof fn lemma_search_single_line(query: Seq<char>, contents: Seq<char>, i: int)
    requires
        0 <= i < lines_of(contents).len(),
        occurs(lines_of(contents)[i], query),
        forall|j: int|
            0 <= j < lines_of(contents).len() && j != i ==> !occurs(lines_of(contents)[j], query),
    ensures
        matching_lines(query, contents) == seq![lines_of(contents)[i]],
{
    lemma_filter_one(lines_of(contents), |l: Seq<char>| line_has(query, l), i);
}

/// A line that differs from the query in letter case only is found by the
/// case-insensitive search and not by the case-sensitive one.
pub proof fn lemma_search_case_folding(query: Seq<char>, contents: Seq<char>, i: int)
    requires
        0 <= i < lines_of(contents).len(),
        differ_only_by_case(lines_of(contents)[i], query),
    ensures
        matching_lines_folded(query, contents).contains(lines_of(contents)[i]),
        !matching_lines(query, contents).contains(lines_of(contents)[i]),
{
    let lines = lines_of(contents);
    let line = lines[i];
    let folded = lower_of(line);
    assert(occurs_at(folded, folded, 0)) by {
        assert(folded.subrange(0, folded.len() as int) =~= folded);
    }
    assert(line_has_folded(query, line));
    lines.lemma_filter_contains(|l: Seq<char>| line_has_folded(query, l), i);
    assert(!line_has(query, line)) by {
        if exists|k: int| occurs_at(line, query, k) {
            let k = choose|k: int| occurs_at(line, query, k);
            assert(k == 0);
            assert(line.subrange(0, line.len() as int) =~= line);
        }
    }
    let found = matching_lines(query, contents);
    if found.contains(line) {
        let k = choose|k: int| 0 <= k < found.len() && found[k] == line;
        lines.lemma_filter_pred(|l: Seq<char>| line_has(query, l), k);
    }
}

/// When no line of the text contains the query, the search finds nothing;
/// likewise for the case-insensitive search when no lowercased line contains the
/// lowercased query.
pub proof fn lemma_search_no_match(query: Seq<char>, contents: Seq<char>)
    ensures
        (forall|j: int| 0 <= j < lines_of(contents).len() ==> !line_has(query, #[trigger] lines_of(contents)[j]))
            ==> matching_lines(query, contents) == Seq::<Seq<char>>::empty(),
        (forall|j: int| 0 <= j < lines_of(contents).len() ==> !line_has_folded(query, #[trigger] lines_of(contents)[j]))
            ==> matching_lines_folded(query, contents) == Seq::<Seq<char>>::empty(),
{
    if forall|j: int| 0 <= j < lines_of(contents).len() ==> !line_has(query, #[trigger] lines_of(contents)[j]) {
        lemma_filter_none(lines_of(contents), |l: Seq<char>| line_has(query, l));
    }
    if forall|j: int| 0 <= j < lines_of(contents).len() ==> !line_has_folded(query, #[trigger] lines_of(contents)[j]) {
        lemma_filter_none(lines_of(contents), |l: Seq<char>| line_has_folded(query, l));
    }
}

} // verus!
