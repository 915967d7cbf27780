use vstd::prelude::*;

verus! {

broadcast use vstd::string::group_string_axioms;

/// `needle` occurs in `hay` as a contiguous run of characters starting at `i`.
pub open spec fn occurs_at(hay: Seq<char>, needle: Seq<char>, i: int) -> bool {
    0 <= i && i + needle.len() <= hay.len() && hay.subrange(i, i + needle.len()) == needle
}

/// `needle` occurs somewhere in `hay` (the empty needle occurs everywhere).
pub open spec fn occurs(hay: Seq<char>, needle: Seq<char>) -> bool {
    exists|i: int| occurs_at(hay, needle, i)
}

/// Position of the first line feed in `s`, or `s.len()` when there is none.
pub open spec fn line_end(s: Seq<char>) -> nat
    decreases s.len(),
{
    if s.len() == 0 {
        0
    } else if s[0] == '\n' {
        0
    } else {
        1 + line_end(s.drop_first())
    }
}

/// A line taken before a line feed, without a carriage return that ends it.
pub open spec fn trim_cr(l: Seq<char>) -> Seq<char> {
    if l.len() > 0 && l.last() == '\r' {
        l.drop_last()
    } else {
        l
    }
}

/// The lines of `s`: split at each line feed, a carriage return just before a
/// line feed dropped with it, and no empty last line after a final line feed.
pub open spec fn lines_of(s: Seq<char>) -> Seq<Seq<char>>
    decreases s.len(),
{
    if s.len() == 0 {
        seq![]
    } else {
        let e = line_end(s) as int;
        if e >= s.len() {
            seq![s]
        } else {
            seq![trim_cr(s.subrange(0, e))] + lines_of(s.subrange(e + 1, s.len() as int))
        }
    }
}

/// The views of a sequence of string slices.
pub open spec fn views(v: Seq<&str>) -> Seq<Seq<char>> {
    v.map_values(|l: &str| l@)
}

proof fn lemma_line_end(s: Seq<char>, m: int)
    requires
        0 <= m <= s.len(),
        forall|j: int| 0 <= j < m ==> s[j] != '\n',
        m == s.len() || s[m] == '\n',
    ensures
        line_end(s) == m,
    decreases m,
{
    if m > 0 {
        lemma_line_end(s.drop_first(), m - 1);
    }
}

/// The characters of `s`, in order.
pub fn text_chars(s: &str) -> (r: Vec<char>)
    ensures
        r@ == s@,
{
    let mut r: Vec<char> = Vec::new();
    for c in it: s.chars()
        invariant
            r@ == it.seq().take(it.index() as int),
    {
        r.push(c);
    }
    r
}

/// Whether `needle` occurs in `hay`, by trying each start position in turn.
pub fn occurs_in(hay: &Vec<char>, needle: &Vec<char>) -> (r: bool)
    ensures
        r == occurs(hay@, needle@),
{
    let n = hay.len();
    let m = needle.len();
    if m > n {
        return false;
    }
    let mut i: usize = 0;
    while i <= n - m
        invariant
            m <= n,
            n == hay@.len(),
            m == needle@.len(),
            i <= n - m + 1,
            forall|k: int| 0 <= k < i ==> !occurs_at(hay@, needle@, k),
        decreases n - m + 1 - i,
    {
        let mut j: usize = 0;
        while j < m
            invariant
                m <= n,
                i + m <= n,
                n == hay@.len(),
                m == needle@.len(),
                j <= m,
                forall|t: int| 0 <= t < j ==> hay@[i + t] == needle@[t],
            ensures
                j <= m,
                forall|t: int| 0 <= t < j ==> hay@[i + t] == needle@[t],
                j < m ==> hay@[i + j] != needle@[j as int],
            decreases m - j,
        {
            if hay[i + j] != needle[j] {
                break;
            }
            j = j + 1;
        }
        if j == m {
            assert(hay@.subrange(i as int, i + m) =~= needle@);
            assert(occurs_at(hay@, needle@, i as int));
            return true;
        }
        assert(!occurs_at(hay@, needle@, i as int)) by {
            assert(hay@.subrange(i as int, i + m)[j as int] != needle@[j as int]);
        }
        i = i + 1;
    }
    assert forall|k: int| !occurs_at(hay@, needle@, k) by {
        if 0 <= k && k + m <= n {
            assert(k < i);
        }
    }
    false
}

/// The lines of `contents` as slices of it, in order.
pub fn split_lines<'a>(contents: &'a str) -> (r: Vec<&'a str>)
    ensures
        views(r@) == lines_of(contents@),
{
    let chars = text_chars(contents);
    let n = chars.len();
    let ghost s = contents@;
    let mut r: Vec<&'a str> = Vec::new();
    let mut start: usize = 0;
    let mut k: usize = 0;
    assert(s.subrange(0, n as int) =~= s);
    assert(views(r@) =~= seq![]);
    assert(views(r@) + lines_of(s) =~= lines_of(s));
    while k < n
        invariant
            chars@ == s,
            s == contents@,
            n == s.len(),
            start <= k <= n,
            forall|j: int| start <= j < k ==> s[j] != '\n',
            views(r@) + lines_of(s.subrange(start as int, n as int)) == lines_of(s),
        decreases n - k,
    {
        if chars[k] == '\n' {
            let end = if k > start && chars[k - 1] == '\r' { k - 1 } else { k };
            let line = contents.substring_char(start, end);
            proof {
                let t = s.subrange(start as int, n as int);
                lemma_line_end(t, k - start);
                assert(t.subrange(0, k - start) =~= s.subrange(start as int, k as int));
                assert(t.subrange(k - start + 1, t.len() as int) =~= s.subrange(k + 1, n as int));
                assert(line@ == trim_cr(s.subrange(start as int, k as int)));
                assert(views(r@.push(line)) =~= views(r@).push(line@));
                assert(lines_of(t) == seq![line@] + lines_of(s.subrange(k + 1, n as int)));
                assert(views(r@.push(line)) + lines_of(s.subrange(k + 1, n as int)) =~= views(r@)
                    + lines_of(t));
            }
            r.push(line);
            start = k + 1;
        }
        k = k + 1;
    }
    if start < n {
        let line = contents.substring_char(start, n);
        proof {
            let t = s.subrange(start as int, n as int);
            lemma_line_end(t, t.len() as int);
            assert(views(r@.push(line)) =~= views(r@).push(line@));
            assert(views(r@) + lines_of(t) =~= views(r@).push(line@));
        }
        r.push(line);
    } else {
        assert(views(r@) + lines_of(s.subrange(start as int, n as int)) =~= views(r@));
    }
    r
}

} // verus!
