//! The ignore-list loader: turns the raw bytes of a `.gitignore` file into an
//! ordered list of literal entry names.
//!
//! The file is split into lines the way a buffered line reader does it (each
//! line ends before a line feed, and a carriage return that preceded that
//! line feed is dropped). Every line is then cleaned: all `/` bytes are
//! removed and the remainder is trimmed of leading and trailing ASCII
//! whitespace. Empty lines and comment lines get no special treatment; they
//! become ordinary (possibly empty) entries.

use vstd::prelude::*;

verus! {

/// The ASCII whitespace bytes that trimming removes: tab, line feed,
/// vertical tab, form feed, carriage return and space.
pub open spec fn is_space(b: u8) -> bool {
    b == 9 || b == 10 || b == 11 || b == 12 || b == 13 || b == 32
}

/// `s` with every `/` byte removed, order otherwise kept.
pub open spec fn slashes_removed(s: Seq<u8>) -> Seq<u8>
    decreases s.len(),
{
    if s.len() == 0 {
        Seq::empty()
    } else if s.last() == 47 {
        slashes_removed(s.drop_last())
    } else {
        slashes_removed(s.drop_last()).push(s.last())
    }
}

/// `s` without its leading whitespace bytes.
pub open spec fn trimmed_front(s: Seq<u8>) -> Seq<u8>
    decreases s.len(),
{
    if s.len() > 0 && is_space(s.first()) {
        trimmed_front(s.drop_first())
    } else {
        s
    }
}

/// `s` without its trailing whitespace bytes.
pub open spec fn trimmed_back(s: Seq<u8>) -> Seq<u8>
    decreases s.len(),
{
    if s.len() > 0 && is_space(s.last()) {
        trimmed_back(s.drop_last())
    } else {
        s
    }
}

/// What one `.gitignore` line becomes in the ignore list: every `/` removed,
/// then the result trimmed of surrounding whitespace.
pub open spec fn cleaned_line(s: Seq<u8>) -> Seq<u8> {
    trimmed_back(trimmed_front(slashes_removed(s)))
}

/// A byte vector's deep view is its view.
pub proof fn lemma_bytes_deep_view(v: Vec<u8>)
    ensures
        v.deep_view() == v@,
{
    assert(v.deep_view() =~= v@);
}

fn is_space_byte(b: u8) -> (r: bool)
    ensures
        r == is_space(b),
{
    b == 9 || b == 10 || b == 11 || b == 12 || b == 13 || b == 32
}

/// Cleans one `.gitignore` line: removes every `/` byte, then trims
/// leading and trailing ASCII whitespace.
pub fn clean_line(line: &Vec<u8>) -> (r: Vec<u8>)
    ensures
        r@ == cleaned_line(line@),
{
    let mut stripped: Vec<u8> = Vec::new();
    let mut i: usize = 0;
    while i < line.len()
        invariant
            i <= line.len(),
            stripped@ == slashes_removed(line@.subrange(0, i as int)),
        decreases line.len() - i,
    {
        proof {
            assert(line@.subrange(0, i + 1).drop_last() =~= line@.subrange(0, i as int));
        }
        let b = line[i];
        if b != 47 {
            stripped.push(b);
        }
        i += 1;
    }
    proof {
        assert(line@.subrange(0, line.len() as int) =~= line@);
        assert(stripped@.subrange(0, stripped.len() as int) =~= stripped@);
    }
    let mut lo: usize = 0;
    while lo < stripped.len() && is_space_byte(stripped[lo])
        invariant
            lo <= stripped.len(),
            trimmed_front(stripped@) == trimmed_front(
                stripped@.subrange(lo as int, stripped.len() as int),
            ),
        decreases stripped.len() - lo,
    {
        proof {
            let t = stripped@.subrange(lo as int, stripped.len() as int);
            assert(t.drop_first() =~= stripped@.subrange(lo + 1, stripped.len() as int));
        }
        lo += 1;
    }
    proof {
        assert(trimmed_front(stripped@) =~= stripped@.subrange(lo as int, stripped.len() as int));
    }
    let mut hi: usize = stripped.len();
    while hi > lo && is_space_byte(stripped[hi - 1])
        invariant
            lo <= hi <= stripped.len(),
            trimmed_back(stripped@.subrange(lo as int, stripped.len() as int)) == trimmed_back(
                stripped@.subrange(lo as int, hi as int),
            ),
        decreases hi,
    {
        proof {
            let t = stripped@.subrange(lo as int, hi as int);
            assert(t.drop_last() =~= stripped@.subrange(lo as int, hi - 1));
        }
        hi -= 1;
    }
    proof {
        assert(trimmed_back(stripped@.subrange(lo as int, hi as int)) =~= stripped@.subrange(
            lo as int,
            hi as int,
        ));
    }
    let mut r: Vec<u8> = Vec::new();
    let mut j: usize = lo;
    while j < hi
        invariant
            lo <= j <= hi <= stripped.len(),
            r@ == stripped@.subrange(lo as int, j as int),
        decreases hi - j,
    {
        r.push(stripped[j]);
        proof {
            assert(r@ =~= stripped@.subrange(lo as int, j + 1));
        }
        j += 1;
    }
    r
}

/// How far the first line of `s` reaches: the index of the first line feed,
/// or the length of `s` when it holds none.
pub open spec fn line_break(s: Seq<u8>) -> nat
    decreases s.len(),
{
    if s.len() == 0 {
        0
    } else if s.first() == 10 {
        0
    } else {
        1 + line_break(s.drop_first())
    }
}

proof fn lemma_line_break(s: Seq<u8>)
    ensures
        line_break(s) <= s.len(),
        forall|k: int| 0 <= k < line_break(s) ==> s[k] != 10,
        line_break(s) < s.len() ==> s[line_break(s) as int] == 10,
    decreases s.len(),
{
    if s.len() > 0 && s.first() != 10 {
        lemma_line_break(s.drop_first());
        assert forall|k: int| 0 <= k < line_break(s) implies s[k] != 10 by {
            if k > 0 {
                assert(s.drop_first()[k - 1] != 10);
            }
        }
    }
}

proof fn lemma_line_break_is(s: Seq<u8>, i: int)
    requires
        0 <= i <= s.len(),
        forall|k: int| 0 <= k < i ==> s[k] != 10,
        i < s.len() ==> s[i] == 10,
    ensures
        line_break(s) == i,
    decreases s.len(),
{
    if s.len() > 0 && i > 0 {
        assert(s[0] != 10);
        lemma_line_break_is(s.drop_first(), i - 1);
    }
}

/// A line as a buffered line reader yields it: a carriage return that stood
/// right before the line feed is dropped.
pub open spec fn chomped(line: Seq<u8>) -> Seq<u8> {
    if line.len() > 0 && line.last() == 13 {
        line.drop_last()
    } else {
        line
    }
}

/// The lines of `s`, split at each line feed. A line feed ends a line and a
/// carriage return before it is dropped; a final fragment without a line
/// feed is a line of its own, kept whole. Empty input has no lines.
pub open spec fn lines_of(s: Seq<u8>) -> Seq<Seq<u8>>
    decreases s.len(),
{
    if s.len() == 0 {
        Seq::empty()
    } else {
        let e = line_break(s);
        if e >= s.len() {
            seq![s]
        } else {
            seq![chomped(s.subrange(0, e as int))] + lines_of(
                s.subrange(e as int + 1, s.len() as int),
            )
        }
    }
}

/// Splits raw file bytes into lines, the way the loader reads them.
pub fn split_lines(content: &Vec<u8>) -> (r: Vec<Vec<u8>>)
    ensures
        r.deep_view() == lines_of(content@),
{
    let n: usize = content.len();
    let mut r: Vec<Vec<u8>> = Vec::new();
    let mut pos: usize = 0;
    proof {
        assert(content@.subrange(0, n as int) =~= content@);
        assert(r.deep_view() =~= Seq::<Seq<u8>>::empty());
        assert(r.deep_view() + lines_of(content@) =~= lines_of(content@));
    }
    while pos < n
        invariant
            pos <= n,
            n == content.len(),
            lines_of(content@) == r.deep_view() + lines_of(
                content@.subrange(pos as int, n as int),
            ),
        decreases n - pos,
    {
        let ghost rest = content@.subrange(pos as int, n as int);
        let mut j: usize = pos;
        while j < n && content[j] != 10
            invariant
                pos <= j <= n,
                n == content.len(),
                forall|k: int| pos <= k < j ==> content@[k] != 10,
            decreases n - j,
        {
            j += 1;
        }
        proof {
            assert(forall|k: int| 0 <= k < j - pos ==> rest[k] != 10);
            lemma_line_break_is(rest, j - pos);
        }
        let mut line: Vec<u8> = Vec::new();
        let mut m: usize = pos;
        while m < j
            invariant
                pos <= m <= j <= n,
                n == content.len(),
                line@ == content@.subrange(pos as int, m as int),
            decreases j - m,
        {
            line.push(content[m]);
            proof {
                assert(line@ =~= content@.subrange(pos as int, m + 1));
            }
            m += 1;
        }
        let ghost old_r = r.deep_view();
        if j < n {
            // A line feed ends this line; drop a carriage return before it.
            if line.len() > 0 && line[line.len() - 1] == 13 {
                line.pop();
            }
            proof {
                assert(rest.subrange(0, (j - pos) as int) =~= content@.subrange(
                    pos as int,
                    j as int,
                ));
                assert(line@ == chomped(rest.subrange(0, (j - pos) as int)));
                assert(rest.subrange(j - pos + 1, rest.len() as int) =~= content@.subrange(
                    j + 1,
                    n as int,
                ));
            }
            let ghost lv = line@;
            r.push(line);
            pos = j + 1;
            proof {
                lemma_bytes_deep_view(r@[old_r.len() as int]);
                assert(r.deep_view() =~= old_r.push(lv));
                assert(lines_of(rest) == seq![lv] + lines_of(
                    content@.subrange(pos as int, n as int),
                ));
                assert(r.deep_view() + lines_of(content@.subrange(pos as int, n as int)) =~= old_r
                    + lines_of(rest));
            }
        } else {
            proof {
                assert(line@ =~= rest);
            }
            let ghost lv = line@;
            r.push(line);
            pos = n;
            proof {
                lemma_bytes_deep_view(r@[old_r.len() as int]);
                assert(lines_of(rest) == seq![lv]);
                assert(content@.subrange(n as int, n as int) =~= Seq::<u8>::empty());
                assert(r.deep_view() =~= old_r.push(lv));
                assert(r.deep_view() + lines_of(content@.subrange(pos as int, n as int)) =~= old_r
                    + lines_of(rest));
            }
        }
    }
    proof {
        assert(content@.subrange(pos as int, n as int) =~= Seq::<u8>::empty());
        assert(lines_of(content@) =~= r.deep_view());
    }
    r
}

/// The ignore list that a `.gitignore` file with these raw bytes yields:
/// its lines, each cleaned.
pub open spec fn gitignore_entries(content: Seq<u8>) -> Seq<Seq<u8>> {
    lines_of(content).map_values(|l: Seq<u8>| cleaned_line(l))
}

/// Reads an ignore list out of the raw bytes of a `.gitignore` file: one
/// entry per line, each with every `/` removed and surrounding whitespace
/// trimmed.
pub fn read_gitignore(content: &Vec<u8>) -> (r: Vec<Vec<u8>>)
    ensures
        r.deep_view() == gitignore_entries(content@),
{
    let lines = split_lines(content);
    let mut r: Vec<Vec<u8>> = Vec::new();
    let mut i: usize = 0;
    while i < lines.len()
        invariant
            i <= lines.len(),
            lines.deep_view() == lines_of(content@),
            r.deep_view().len() == i,
            forall|k: int| 0 <= k < i ==> r.deep_view()[k] == cleaned_line(lines.deep_view()[k]),
        decreases lines.len() - i,
    {
        let ghost old_r = r.deep_view();
        let cleaned = clean_line(&lines[i]);
        let ghost cv = cleaned@;
        r.push(cleaned);
        proof {
            lemma_bytes_deep_view(r@[old_r.len() as int]);
            assert(r.deep_view() =~= old_r.push(cv));
            lemma_bytes_deep_view(lines@[i as int]);
        }
        i += 1;
    }
    proof {
        assert(r.deep_view() =~= gitignore_entries(content@));
    }
    r
}

/// Whether `name` is excluded by an ignore list that may be absent: an
/// absent list excludes nothing.
pub open spec fn excluded(gitignore: Option<Seq<Seq<u8>>>, name: Seq<u8>) -> bool {
    match gitignore {
        Some(list) => list.contains(name),
        None => false,
    }
}

/// Byte-for-byte comparison of two names or contents.
pub fn bytes_eq(a: &Vec<u8>, b: &Vec<u8>) -> (r: bool)
    ensures
        r == (a@ == b@),
{
    if a.len() != b.len() {
        return false;
    }
    let mut i: usize = 0;
    while i < a.len()
        invariant
            i <= a.len(),
            a.len() == b.len(),
            forall|k: int| 0 <= k < i ==> a@[k] == b@[k],
        decreases a.len() - i,
    {
        if a[i] != b[i] {
            return false;
        }
        i += 1;
    }
    proof {
        assert(a@ =~= b@);
    }
    true
}

/// Membership of `name` in an ignore list, by linear scan.
pub fn in_ignore_list(list: &Vec<Vec<u8>>, name: &Vec<u8>) -> (r: bool)
    ensures
        r == list.deep_view().contains(name@),
{
    let mut i: usize = 0;
    while i < list.len()
        invariant
            i <= list.len(),
            forall|k: int| 0 <= k < i ==> list.deep_view()[k] != name@,
        decreases list.len() - i,
    {
        let hit = bytes_eq(&list[i], name);
        proof {
            lemma_bytes_deep_view(list@[i as int]);
        }
        if hit {
            proof {
                assert(list.deep_view()[i as int] == name@);
            }
            return true;
        }
        i += 1;
    }
    false
}

/// Membership test against an ignore list that may be absent.
pub fn is_excluded(gitignore: &Option<Vec<Vec<u8>>>, name: &Vec<u8>) -> (r: bool)
    ensures
        r == excluded(gitignore.deep_view(), name@),
{
    match gitignore {
        Some(list) => in_ignore_list(list, name),
        None => false,
    }
}

} // verus!
