//! Documentation comments: from the text as it stands between the comment
//! marks to the text that a page shows.

use vstd::prelude::*;
use crate::text::{chars, white_space, is_whitespace, string_of};

verus! {

/// `s` without the white space it begins with.
pub open spec fn trim_start(s: Seq<char>) -> Seq<char>
    decreases s.len(),
{
    if s.len() > 0 && white_space(s[0]) {
        trim_start(s.drop_first())
    } else {
        s
    }
}

/// `s` without the white space it ends with.
pub open spec fn trim_end(s: Seq<char>) -> Seq<char>
    decreases s.len(),
{
    if s.len() > 0 && white_space(s.last()) {
        trim_end(s.drop_last())
    } else {
        s
    }
}

/// `s` without the white space at either end.
pub open spec fn trim(s: Seq<char>) -> Seq<char> {
    trim_end(trim_start(s))
}

/// `s` without its first character, if that is `c`.
pub open spec fn strip_leading(s: Seq<char>, c: char) -> Seq<char> {
    if s.len() > 0 && s[0] == c {
        s.drop_first()
    } else {
        s
    }
}

/// What is shown of one line: the line without the white space at either
/// end, then without one leading `*`, then without one leading space. Only
/// one space goes, so that text indented further keeps its indentation.
pub open spec fn clean_line(line: Seq<char>) -> Seq<char> {
    strip_leading(strip_leading(trim(line), '*'), ' ')
}

/// The number of characters of `s` before its first line feed, or the
/// length of `s` where it has none.
pub open spec fn first_line_len(s: Seq<char>) -> nat
    decreases s.len(),
{
    if s.len() == 0 || s[0] == '\n' {
        0
    } else {
        1 + first_line_len(s.drop_first())
    }
}

/// The lines of `s`: the pieces between its line feeds. A line feed at the
/// very end starts no further line, and the empty text has no line.
pub open spec fn lines(s: Seq<char>) -> Seq<Seq<char>>
    decreases s.len(),
{
    if s.len() == 0 {
        Seq::empty()
    } else {
        let k = first_line_len(s);
        let rest = if k < s.len() {
            s.skip(k as int + 1)
        } else {
            Seq::empty()
        };
        seq![s.take(k as int)] + lines(rest)
    }
}

/// The lines one after the other, each followed by a line feed.
pub open spec fn join_lines(ls: Seq<Seq<char>>) -> Seq<char>
    decreases ls.len(),
{
    if ls.len() == 0 {
        Seq::empty()
    } else {
        ls[0] + seq!['\n'] + join_lines(ls.drop_first())
    }
}

/// The lines of the comment `raw` as a page shows them: the lines of the
/// trimmed comment, each cleaned.
pub open spec fn cleaned_lines(raw: Seq<char>) -> Seq<Seq<char>> {
    lines(trim(raw)).map_values(|l: Seq<char>| clean_line(l))
}

/// The text that a page shows for the comment `raw`: the comment is trimmed
/// as a whole, and each of its lines is cleaned and ends in a line feed. A
/// carriage return before a line feed is white space at the end of its line.
pub open spec fn normalize(raw: Seq<char>) -> Seq<char> {
    join_lines(cleaned_lines(raw))
}

proof fn lemma_trim_start(s: Seq<char>, a: int)
    requires
        0 <= a <= s.len(),
        forall|j: int| 0 <= j < a ==> white_space(#[trigger] s[j]),
        a == s.len() || !white_space(s[a]),
    ensures
        trim_start(s) == s.skip(a),
    decreases a,
{
    if a == 0 {
        assert(s.skip(0) =~= s);
    } else {
        let t = s.drop_first();
        assert forall|j: int| 0 <= j < a - 1 implies white_space(#[trigger] t[j]) by {
            assert(t[j] == s[j + 1]);
        }
        lemma_trim_start(t, a - 1);
        assert(t.skip(a - 1) =~= s.skip(a));
    }
}

proof fn lemma_trim_end(s: Seq<char>, b: int)
    requires
        0 <= b <= s.len(),
        forall|j: int| b <= j < s.len() ==> white_space(#[trigger] s[j]),
        b == 0 || !white_space(s[b - 1]),
    ensures
        trim_end(s) == s.take(b),
    decreases s.len() - b,
{
    if b == s.len() {
        assert(s.take(b) =~= s);
    } else {
        let t = s.drop_last();
        lemma_trim_end(t, b);
        assert(t.take(b) =~= s.take(b));
    }
}

proof fn lemma_first_line_len(s: Seq<char>, k: int)
    requires
        0 <= k <= s.len(),
        forall|j: int| 0 <= j < k ==> #[trigger] s[j] != '\n',
        k == s.len() || s[k] == '\n',
    ensures
        first_line_len(s) == k,
    decreases k,
{
    if k > 0 {
        let t = s.drop_first();
        assert forall|j: int| 0 <= j < k - 1 implies #[trigger] t[j] != '\n' by {
            assert(t[j] == s[j + 1]);
        }
        lemma_first_line_len(t, k - 1);
    }
}

/// The first index from `from` up to `to` whose character is no white
/// space, or `to`.
fn skip_space(cs: &Vec<char>, from: usize, to: usize) -> (a: usize)
    requires
        from <= to <= cs.len(),
    ensures
        from <= a <= to,
        forall|j: int| from <= j < a ==> white_space(#[trigger] cs[j]),
        a == to || !white_space(cs[a as int]),
{
    let mut a: usize = from;
    while a < to && is_whitespace(cs[a])
        invariant
            from <= a <= to <= cs.len(),
            forall|j: int| from <= j < a ==> white_space(#[trigger] cs[j]),
        decreases to - a,
    {
        a += 1;
    }
    a
}

/// The least index from `to` down to `from` after which only white space
/// stands before `to`.
fn skip_space_back(cs: &Vec<char>, from: usize, to: usize) -> (b: usize)
    requires
        from <= to <= cs.len(),
    ensures
        from <= b <= to,
        forall|j: int| b <= j < to ==> white_space(#[trigger] cs[j]),
        b == from || !white_space(cs[b - 1]),
{
    let mut b: usize = to;
    while b > from && is_whitespace(cs[b - 1])
        invariant
            from <= b <= to <= cs.len(),
            forall|j: int| b <= j < to ==> white_space(#[trigger] cs[j]),
        decreases b - from,
    {
        b -= 1;
    }
    b
}

/// The bounds of `cs[from..to]` without the white space at either end.
fn trim_bounds(cs: &Vec<char>, from: usize, to: usize) -> (r: (usize, usize))
    requires
        from <= to <= cs.len(),
    ensures
        from <= r.0 <= r.1 <= to,
        cs@.subrange(r.0 as int, r.1 as int) == trim(cs@.subrange(from as int, to as int)),
{
    let a = skip_space(cs, from, to);
    let b = skip_space_back(cs, a, to);
    proof {
        let s = cs@.subrange(from as int, to as int);
        assert forall|j: int| 0 <= j < a - from implies white_space(#[trigger] s[j]) by {
            assert(s[j] == cs[from + j]);
        }
        lemma_trim_start(s, a - from);
        let t = s.skip(a - from);
        assert(t =~= cs@.subrange(a as int, to as int));
        assert forall|j: int| b - a <= j < t.len() implies white_space(#[trigger] t[j]) by {
            assert(t[j] == cs[a + j]);
        }
        lemma_trim_end(t, b - a);
        assert(t.take(b - a) =~= cs@.subrange(a as int, b as int));
    }
    (a, b)
}

/// The index of the first line feed from `from` up to `to`, or `to`.
fn line_end(cs: &Vec<char>, from: usize, to: usize) -> (e: usize)
    requires
        from <= to <= cs.len(),
    ensures
        from <= e <= to,
        e - from == first_line_len(cs@.subrange(from as int, to as int)),
{
    let mut e: usize = from;
    while e < to && cs[e] != '\n'
        invariant
            from <= e <= to <= cs.len(),
            forall|j: int| from <= j < e ==> #[trigger] cs[j] != '\n',
        decreases to - e,
    {
        e += 1;
    }
    proof {
        let s = cs@.subrange(from as int, to as int);
        assert forall|j: int| 0 <= j < e - from implies #[trigger] s[j] != '\n' by {
            assert(s[j] == cs[from + j]);
        }
        lemma_first_line_len(s, e - from);
    }
    e
}

/// Turns the text of a documentation comment into the text that a page
/// shows. Every comment has such a text.
pub fn lower(docs: &str) -> (out: String)
    ensures
        out@ == normalize(docs@),
{
    let cs = chars(docs);
    let (start, end) = trim_bounds(&cs, 0, cs.len());
    let mut shown: Vec<char> = Vec::new();
    let mut pos: usize = start;
    proof {
        assert(cs@.subrange(0, cs.len() as int) =~= cs@);
    }
    while pos < end
        invariant
            start <= pos <= end <= cs.len(),
            shown@ + join_lines(
                lines(cs@.subrange(pos as int, end as int)).map_values(|l: Seq<char>| clean_line(l)),
            ) == normalize(docs@),
            cs@ == docs@,
        decreases end - pos,
    {
        let e = line_end(&cs, pos, end);
        let (a, b) = trim_bounds(&cs, pos, e);
        let mut a = a;
        if a < b && cs[a] == '*' {
            a += 1;
        }
        if a < b && cs[a] == ' ' {
            a += 1;
        }
        let next = if e < end {
            e + 1
        } else {
            end
        };
        let ghost before = shown@;
        let mut i: usize = a;
        while i < b
            invariant
                a <= i <= b <= cs.len(),
                shown@ == before + cs@.subrange(a as int, i as int),
            decreases b - i,
        {
            shown.push(cs[i]);
            i += 1;
        }
        shown.push('\n');
        proof {
            let s = cs@.subrange(pos as int, end as int);
            let line = cs@.subrange(pos as int, e as int);
            assert(s.take(e - pos) =~= line);
            let rest = cs@.subrange(next as int, end as int);
            if e < end {
                assert(s.skip(e - pos + 1) =~= rest);
            } else {
                assert(rest =~= Seq::<char>::empty());
            }
            let clean = |l: Seq<char>| clean_line(l);
            let ls = lines(s).map_values(clean);
            let tail = lines(rest).map_values(clean);
            assert(lines(s) =~= seq![line] + lines(rest));
            assert(ls[0] == clean_line(line));
            assert(ls.drop_first() =~= tail);
            assert(join_lines(ls) == clean_line(line) + seq!['\n'] + join_lines(tail));
            assert(clean_line(line) =~= cs@.subrange(a as int, b as int));
            assert(shown@ + join_lines(tail) =~= before + join_lines(ls));
        }
        pos = next;
    }
    proof {
        assert(cs@.subrange(pos as int, end as int) =~= Seq::<char>::empty());
        assert(lines(Seq::<char>::empty()).map_values(|l: Seq<char>| clean_line(l)) =~= Seq::empty());
        assert(shown@ + Seq::<char>::empty() =~= shown@);
    }
    string_of(&shown)
}

/// Where the white space at the start of `s` ends.
proof fn lemma_trim_start_at(s: Seq<char>) -> (a: int)
    ensures
        0 <= a <= s.len(),
        trim_start(s) == s.skip(a),
        a == s.len() || !white_space(s[a]),
    decreases s.len(),
{
    if s.len() > 0 && white_space(s[0]) {
        let a = lemma_trim_start_at(s.drop_first());
        assert(s.drop_first().skip(a) =~= s.skip(a + 1));
        a + 1
    } else {
        assert(s.skip(0) =~= s);
        0
    }
}

/// Where the white space at the end of `s` starts.
proof fn lemma_trim_end_at(s: Seq<char>) -> (b: int)
    ensures
        0 <= b <= s.len(),
        trim_end(s) == s.take(b),
        b == 0 || !white_space(s[b - 1]),
    decreases s.len(),
{
    if s.len() > 0 && white_space(s.last()) {
        let b = lemma_trim_end_at(s.drop_last());
        assert(s.drop_last().take(b) =~= s.take(b));
        b
    } else {
        assert(s.take(s.len() as int) =~= s);
        s.len() as int
    }
}

/// A trimmed text is a part of the text, and it neither begins nor ends
/// with white space.
pub proof fn lemma_trim_is_part(s: Seq<char>) -> (r: (int, int))
    ensures
        0 <= r.0 <= r.1 <= s.len(),
        trim(s) == s.subrange(r.0, r.1),
        r.0 < r.1 ==> !white_space(s[r.0]) && !white_space(s[r.1 - 1]),
{
    let a = lemma_trim_start_at(s);
    let u = s.skip(a);
    let b = lemma_trim_end_at(u);
    assert(u.take(b) =~= s.subrange(a, a + b));
    if b > 0 {
        assert(u[b - 1] == s[a + b - 1]);
    }
    (a, a + b)
}

/// The first line of `s` ends before the first line feed of `s`.
pub proof fn lemma_first_line(s: Seq<char>)
    ensures
        first_line_len(s) <= s.len(),
        forall|j: int| 0 <= j < first_line_len(s) ==> #[trigger] s[j] != '\n',
        first_line_len(s) == s.len() || s[first_line_len(s) as int] == '\n',
    decreases s.len(),
{
    if s.len() == 0 || s[0] == '\n' {
    } else {
        let t = s.drop_first();
        lemma_first_line(t);
        assert forall|j: int| 0 <= j < first_line_len(s) implies #[trigger] s[j] != '\n' by {
            if j > 0 {
                assert(t[j - 1] == s[j]);
            }
        }
    }
}

/// No line holds a line feed.
pub proof fn lemma_lines_hold_no_line_feed(s: Seq<char>)
    ensures
        forall|i: int, j: int|
            0 <= i < lines(s).len() && 0 <= j < lines(s)[i].len() ==> #[trigger] lines(s)[i][j]
                != '\n',
    decreases s.len(),
{
    if s.len() > 0 {
        lemma_first_line(s);
        let k = first_line_len(s);
        let rest = if k < s.len() {
            s.skip(k as int + 1)
        } else {
            Seq::empty()
        };
        lemma_lines_hold_no_line_feed(rest);
        assert forall|i: int, j: int|
            0 <= i < lines(s).len() && 0 <= j < lines(s)[i].len() implies #[trigger] lines(s)[i][j]
            != '\n' by {
            if i == 0 {
                assert(lines(s)[0] == s.take(k as int));
                assert(s.take(k as int)[j] == s[j]);
            } else {
                assert(lines(s)[i] == lines(rest)[i - 1]);
            }
        }
    }
}

/// A cleaned line is the end of the trimmed line: it holds what the line
/// holds, and it does not end with white space.
pub proof fn lemma_clean_line_is_part(line: Seq<char>) -> (r: (int, int))
    ensures
        0 <= r.0 <= r.1 <= line.len(),
        clean_line(line) == line.subrange(r.0, r.1),
        r.0 < r.1 ==> !white_space(line[r.1 - 1]),
{
    let (a, b) = lemma_trim_is_part(line);
    let t = line.subrange(a, b);
    let u = strip_leading(t, '*');
    let a1 = if t.len() > 0 && t[0] == '*' {
        a + 1
    } else {
        a
    };
    assert(u =~= line.subrange(a1, b));
    let a2 = if u.len() > 0 && u[0] == ' ' {
        a1 + 1
    } else {
        a1
    };
    assert(strip_leading(u, ' ') =~= line.subrange(a2, b));
    (a2, b)
}

/// A line that begins with neither white space nor `*` and does not end
/// with white space is cleaned as it stands.
pub proof fn lemma_clean_line_settled(line: Seq<char>)
    requires
        line.len() > 0 ==> !white_space(line[0]) && line[0] != '*' && !white_space(
            line.last(),
        ),
    ensures
        clean_line(line) == line,
{
    lemma_trim_start(line, 0);
    assert(line.skip(0) =~= line);
    lemma_trim_end(line, line.len() as int);
    assert(line.take(line.len() as int) =~= line);
    assert(white_space(' '));
}

/// Lines that are joined end in a line feed, after the end of the last
/// line.
proof fn lemma_join_lines_end(ls: Seq<Seq<char>>)
    requires
        ls.len() > 0,
    ensures
        join_lines(ls).len() > ls.last().len(),
        join_lines(ls).last() == '\n',
        ls.last().len() > 0 ==> join_lines(ls)[join_lines(ls).len() - 2] == ls.last().last(),
        ls[0].len() > 0 ==> join_lines(ls)[0] == ls[0][0],
    decreases ls.len(),
{
    let rest = ls.drop_first();
    if rest.len() == 0 {
        assert(join_lines(rest) =~= Seq::empty());
        assert(join_lines(ls) =~= ls[0] + seq!['\n']);
    } else {
        lemma_join_lines_end(rest);
        assert(rest.last() == ls.last());
    }
}

/// Lines without a line feed, the last of them not empty, are the lines
/// of what they join to, less its last line feed.
proof fn lemma_lines_of_joined(ls: Seq<Seq<char>>)
    requires
        ls.len() > 0,
        ls.last().len() > 0,
        forall|i: int, j: int| 0 <= i < ls.len() && 0 <= j < ls[i].len() ==> #[trigger] ls[i][j] != '\n',
    ensures
        lines(join_lines(ls).drop_last()) == ls,
    decreases ls.len(),
{
    let rest = ls.drop_first();
    let first = ls[0];
    lemma_join_lines_end(ls);
    let body = join_lines(ls).drop_last();
    if rest.len() == 0 {
        assert(join_lines(rest) =~= Seq::empty());
        assert(body =~= first);
        lemma_first_line_len(first, first.len() as int);
        assert(first.take(first.len() as int) =~= first);
        assert(lines(Seq::<char>::empty()) =~= Seq::empty());
        assert(lines(first) =~= seq![first]);
        assert(seq![first] =~= ls);
    } else {
        assert(rest.last() == ls.last());
        assert forall|i: int, j: int|
            0 <= i < rest.len() && 0 <= j < rest[i].len() implies #[trigger] rest[i][j] != '\n' by {
            assert(rest[i] == ls[i + 1]);
            assert(ls[i + 1][j] != '\n');
        }
        lemma_lines_of_joined(rest);
        lemma_join_lines_end(rest);
        let inner = join_lines(rest).drop_last();
        assert(body =~= first + seq!['\n'] + inner);
        let k = first.len() as int;
        assert forall|j: int| 0 <= j < k implies #[trigger] body[j] != '\n' by {
            assert(body[j] == first[j]);
            assert(ls[0][j] != '\n');
        }
        assert(body[k] == '\n');
        lemma_first_line_len(body, k);
        assert(body.take(k) =~= first);
        assert(body.skip(k + 1) =~= inner);
        assert(lines(body) =~= seq![first] + lines(inner));
        assert(seq![first] + rest =~= ls);
    }
}

/// Whether lines, once shown, are shown as they stand when they are the
/// comment: the first and the last are not empty, and none begins with
/// white space or with `*`.
pub open spec fn settled(ls: Seq<Seq<char>>) -> bool {
    ls.len() > 0 ==> {
        &&& ls.first().len() > 0
        &&& ls.last().len() > 0
        &&& forall|i: int|
            0 <= i < ls.len() && ls[i].len() > 0 ==> !white_space(#[trigger] ls[i][0])
                && ls[i][0] != '*'
    }
}

/// To normalise twice is to normalise once, for every comment whose shown
/// lines are [`settled`]. Such is a comment in which each line is a `*`, at
/// most one space, and text that begins with neither white space nor `*`,
/// with text on the first and on the last line. Other comments lose more
/// the second time: indentation beyond the one space, a `*` that opens the
/// text of a line, an empty first or last line.
pub proof fn lemma_normalize_idempotent(raw: Seq<char>)
    requires
        settled(cleaned_lines(raw)),
    ensures
        normalize(normalize(raw)) == normalize(raw),
{
    let source = lines(trim(raw));
    let ls = cleaned_lines(raw);
    let shown = normalize(raw);
    if ls.len() == 0 {
        assert(shown =~= Seq::empty());
        assert(trim(shown) =~= Seq::empty());
        assert(cleaned_lines(shown) =~= Seq::empty());
    } else {
        lemma_lines_hold_no_line_feed(trim(raw));
        assert forall|i: int| 0 <= i < ls.len() implies {
            &&& forall|j: int| 0 <= j < ls[i].len() ==> #[trigger] ls[i][j] != '\n'
            &&& ls[i].len() > 0 ==> !white_space(ls[i].last())
        } by {
            let (a, b) = lemma_clean_line_is_part(source[i]);
            assert(ls[i] == clean_line(source[i]));
            assert forall|j: int| 0 <= j < ls[i].len() implies #[trigger] ls[i][j] != '\n' by {
                assert(ls[i][j] == source[i][a + j]);
                assert(lines(trim(raw))[i][a + j] != '\n');
            }
        }
        assert forall|i: int, j: int|
            0 <= i < ls.len() && 0 <= j < ls[i].len() implies #[trigger] ls[i][j] != '\n' by {}
        lemma_join_lines_end(ls);
        lemma_lines_of_joined(ls);
        assert(white_space('\n'));
        lemma_trim_start(shown, 0);
        assert(shown.skip(0) =~= shown);
        lemma_trim_end(shown, shown.len() - 1);
        assert(shown.take(shown.len() - 1) =~= shown.drop_last());
        assert(lines(trim(shown)) == ls);
        assert forall|i: int| 0 <= i < ls.len() implies clean_line(#[trigger] ls[i]) == ls[i] by {
            lemma_clean_line_settled(ls[i]);
        }
        assert(cleaned_lines(shown) =~= ls);
    }
}

} // verus!
