use vstd::prelude::*;

use crate::text::{
    chars_of, contains, has_substring, is_white, is_white_char, join_lines, lines, lines_acc,
    no_crlf, push_char, strip_cr, trim, trim_end, trim_start,
};

verus! {

/// An introduction such as "Here's the code:".
pub open spec fn heres_marker() -> Seq<char> {
    seq!['H', 'e', 'r', 'e', '\'', 's']
}

/// An introduction such as "Below is the code".
pub open spec fn below_is_marker() -> Seq<char> {
    seq!['B', 'e', 'l', 'o', 'w', ' ', 'i', 's']
}

/// A markdown code fence.
pub open spec fn fence_marker() -> Seq<char> {
    seq!['`', '`', '`']
}

/// Markdown bold text.
pub open spec fn bold_marker() -> Seq<char> {
    seq!['*', '*']
}

/// A line that belongs to the chatter or markup a model puts before generated code:
/// empty, an introduction, a code fence, bold text, or a heading.
pub open spec fn skippable(line: Seq<char>) -> bool {
    line.len() == 0 || contains(line, heres_marker()) || contains(line, below_is_marker())
        || contains(line, fence_marker()) || contains(line, bold_marker()) || line[0] == '#'
}

/// The lines from the first one that is not skippable on.
pub open spec fn skip_prefix(ls: Seq<Seq<char>>) -> Seq<Seq<char>>
    decreases ls.len(),
{
    if ls.len() > 0 && skippable(ls[0]) {
        skip_prefix(ls.drop_first())
    } else {
        ls
    }
}

/// Generated code with its leading chatter and markup removed, then trimmed.
pub open spec fn sanitized(s: Seq<char>) -> Seq<char> {
    trim(join_lines(skip_prefix(lines(s))))
}

/// The characters of each line.
pub open spec fn line_views(ls: Seq<Vec<char>>) -> Seq<Seq<char>> {
    ls.map_values(|l: Vec<char>| l@)
}

/// Splits a text into its lines.
fn split_lines(v: &Vec<char>) -> (r: Vec<Vec<char>>)
    ensures
        line_views(r@) == lines(v@),
{
    let n: usize = v.len();
    let mut done: Vec<Vec<char>> = Vec::new();
    let mut cur: Vec<char> = Vec::new();
    let mut pos: usize = 0;
    assert(v@.subrange(0, n as int) =~= v@);
    assert(line_views(done@) + lines(v@) =~= lines(v@));
    while pos < n
        invariant
            n == v@.len(),
            pos <= n,
            lines(v@) == line_views(done@) + lines_acc(v@.subrange(pos as int, n as int), cur@),
        decreases n - pos,
    {
        let ghost t = v@.subrange(pos as int, n as int);
        assert(t.drop_first() =~= v@.subrange(pos + 1, n as int));
        let c = v[pos];
        if c == '\n' {
            let ghost read = cur@;
            if cur.len() > 0 && cur[cur.len() - 1] == '\r' {
                cur.pop();
            }
            assert(cur@ =~= strip_cr(read));
            let ghost line = cur@;
            let ghost before = line_views(done@);
            done.push(cur);
            assert(line_views(done@) =~= before.push(line));
            cur = Vec::new();
            assert(lines(v@) =~= line_views(done@) + lines_acc(
                v@.subrange(pos + 1, n as int),
                cur@,
            ));
        } else {
            cur.push(c);
        }
        pos = pos + 1;
    }
    proof {
        let tail = v@.subrange(n as int, n as int);
        assert(tail.len() == 0);
        if cur@.len() > 0 {
            assert(lines_acc(tail, cur@) == seq![cur@]);
        }
    }
    if cur.len() > 0 {
        let ghost before = line_views(done@);
        let ghost line = cur@;
        done.push(cur);
        assert(line_views(done@) =~= before + seq![line]);
    } else {
        assert(line_views(done@) =~= line_views(done@) + Seq::<Seq<char>>::empty());
    }
    done
}

/// Whether a line is chatter or markup that stands before generated code.
fn is_skippable(line: &Vec<char>) -> (r: bool)
    ensures
        r == skippable(line@),
{
    if line.len() == 0 {
        return true;
    }
    let heres: Vec<char> = vec!['H', 'e', 'r', 'e', '\'', 's'];
    let below_is: Vec<char> = vec!['B', 'e', 'l', 'o', 'w', ' ', 'i', 's'];
    let fence: Vec<char> = vec!['`', '`', '`'];
    let bold: Vec<char> = vec!['*', '*'];
    assert(heres@ =~= heres_marker());
    assert(below_is@ =~= below_is_marker());
    assert(fence@ =~= fence_marker());
    assert(bold@ =~= bold_marker());
    has_substring(line, &heres) || has_substring(line, &below_is) || has_substring(line, &fence)
        || has_substring(line, &bold) || line[0] == '#'
}

/// Removes the lines of chatter and markup that a model puts before generated code
/// (empty lines, introductions, code fences, bold text, headings), joins the rest
/// with line feeds and trims white space from both ends.
pub fn clean_code_response(code: String) -> (r: String)
    ensures
        r@ == sanitized(code@),
{
    let v = chars_of(code.as_str());
    let ls = split_lines(&v);
    let ghost all = lines(v@);
    let count: usize = ls.len();
    let mut k: usize = 0;
    assert(all.subrange(0, count as int) =~= all);
    while k < count && is_skippable(&ls[k])
        invariant
            k <= count,
            count == ls@.len(),
            line_views(ls@) == all,
            skip_prefix(all) == skip_prefix(all.subrange(k as int, count as int)),
        decreases count - k,
    {
        assert(all.subrange(k as int, count as int).drop_first() =~= all.subrange(
            k + 1,
            count as int,
        ));
        k = k + 1;
    }
    let ghost kept = all.subrange(k as int, count as int);
    assert(skip_prefix(all) == kept);
    let mut joined: Vec<char> = Vec::new();
    let mut i: usize = k;
    while i < count
        invariant
            k <= i <= count,
            count == ls@.len(),
            line_views(ls@) == all,
            joined@ == join_lines(all.subrange(k as int, i as int)),
        decreases count - i,
    {
        let ghost before = all.subrange(k as int, i as int);
        let ghost after = all.subrange(k as int, i + 1);
        assert(after.drop_last() =~= before);
        if i > k {
            joined.push('\n');
        }
        let line = &ls[i];
        let ghost start = joined@;
        let mut j: usize = 0;
        while j < line.len()
            invariant
                j <= line@.len(),
                joined@ == start + line@.subrange(0, j as int),
            decreases line@.len() - j,
        {
            joined.push(line[j]);
            assert(start + line@.subrange(0, j + 1) =~= (start + line@.subrange(0, j as int)).push(
                line[j as int],
            ));
            j = j + 1;
        }
        assert(line@.subrange(0, line@.len() as int) =~= line@);
        if i == k {
            assert(joined@ =~= join_lines(after));
        } else {
            assert(joined@ =~= join_lines(after));
        }
        i = i + 1;
    }
    assert(joined@ == join_lines(kept));
    let trimmed = trim_bounds(&joined);
    let (a, b) = trimmed;
    let mut r = String::new();
    let mut m: usize = a;
    while m < b
        invariant
            a <= m <= b <= joined@.len(),
            r@ == joined@.subrange(a as int, m as int),
        decreases b - m,
    {
        push_char(&mut r, joined[m]);
        assert(joined@.subrange(a as int, m + 1) =~= joined@.subrange(a as int, m as int).push(
            joined@[m as int],
        ));
        m = m + 1;
    }
    r
}

/// The bounds of what remains of a text once white space is trimmed from both ends.
fn trim_bounds(s: &Vec<char>) -> (r: (usize, usize))
    ensures
        r.0 <= r.1 <= s@.len(),
        s@.subrange(r.0 as int, r.1 as int) == trim(s@),
{
    let mut b: usize = s.len();
    assert(s@.subrange(0, b as int) =~= s@);
    while b > 0 && is_white_char(s[b - 1])
        invariant
            b <= s@.len(),
            trim_end(s@) == trim_end(s@.subrange(0, b as int)),
        decreases b,
    {
        assert(s@.subrange(0, b as int).drop_last() =~= s@.subrange(0, b - 1));
        b = b - 1;
    }
    let ghost front = s@.subrange(0, b as int);
    assert(trim_end(front) == front);
    let mut a: usize = 0;
    assert(front.subrange(0, b as int) =~= front);
    while a < b && is_white_char(s[a])
        invariant
            a <= b <= s@.len(),
            front == s@.subrange(0, b as int),
            trim_start(front) == trim_start(s@.subrange(a as int, b as int)),
        decreases b - a,
    {
        assert(s@.subrange(a as int, b as int).drop_first() =~= s@.subrange(a + 1, b as int));
        a = a + 1;
    }
    (a, b)
}

proof fn lemma_skip_leading(ls: Seq<Seq<char>>, k: int)
    requires
        0 <= k <= ls.len(),
        forall|j: int| 0 <= j < k ==> skippable(#[trigger] ls[j]),
    ensures
        skip_prefix(ls) == skip_prefix(ls.subrange(k, ls.len() as int)),
    decreases k,
{
    if k == 0 {
        assert(ls.subrange(0, ls.len() as int) =~= ls);
    } else {
        lemma_skip_leading(ls, k - 1);
        let rest = ls.subrange(k - 1, ls.len() as int);
        assert(rest[0] == ls[k - 1]);
        assert(rest.drop_first() =~= ls.subrange(k, ls.len() as int));
    }
}

/// Sanitizing keeps the lines from the first one that is not skippable on:
/// when the lines before position `k` are all skippable and the line at `k`
/// (if any) is not, the result is the trimmed join of the lines from `k` on.
pub proof fn sanitize_keeps_from_first_kept_line(text: Seq<char>, k: int)
    requires
        0 <= k <= lines(text).len(),
        forall|j: int| 0 <= j < k ==> skippable(#[trigger] lines(text)[j]),
        k < lines(text).len() ==> !skippable(lines(text)[k]),
    ensures
        sanitized(text) == trim(join_lines(lines(text).subrange(k, lines(text).len() as int))),
{
    let ls = lines(text);
    lemma_skip_leading(ls, k);
}

proof fn lemma_lines_acc_nonempty(s: Seq<char>, cur: Seq<char>)
    requires
        s.len() > 0 || cur.len() > 0,
    ensures
        lines_acc(s, cur).len() > 0,
    decreases s.len(),
{
    if s.len() > 0 && s[0] != '\n' {
        lemma_lines_acc_nonempty(s.drop_first(), cur.push(s[0]));
    }
}

proof fn lemma_join_cons(x: Seq<char>, ls: Seq<Seq<char>>)
    requires
        ls.len() > 0,
    ensures
        join_lines(seq![x] + ls) == x + seq!['\n'] + join_lines(ls),
    decreases ls.len(),
{
    let whole = seq![x] + ls;
    if ls.len() == 1 {
        assert(whole.drop_last() =~= seq![x]);
        assert(whole.last() == ls[0]);
        assert(join_lines(seq![x]) == x);
        assert(join_lines(whole) == x + seq!['\n'] + join_lines(ls));
    } else {
        lemma_join_cons(x, ls.drop_last());
        assert(whole.drop_last() =~= seq![x] + ls.drop_last());
        assert(join_lines(whole) =~= x + seq!['\n'] + join_lines(ls));
    }
}

/// The text without each carriage return that stands right before a line feed.
spec fn drop_crlf(t: Seq<char>) -> Seq<char>
    decreases t.len(),
{
    if t.len() == 0 {
        t
    } else if t.len() >= 2 && t[0] == '\r' && t[1] == '\n' {
        drop_crlf(t.drop_first())
    } else {
        seq![t[0]] + drop_crlf(t.drop_first())
    }
}

/// No line feed stands in `t`.
spec fn no_lf(t: Seq<char>) -> bool {
    forall|i: int| 0 <= i < t.len() ==> #[trigger] t[i] != '\n'
}

/// Every character of `t` is white space.
spec fn all_white(t: Seq<char>) -> bool {
    forall|i: int| 0 <= i < t.len() ==> is_white(#[trigger] t[i])
}

proof fn lemma_drop_crlf_identity(t: Seq<char>)
    requires
        no_crlf(t),
    ensures
        drop_crlf(t) == t,
    decreases t.len(),
{
    if t.len() > 0 {
        let rest = t.drop_first();
        assert forall|i: int| 0 <= i < rest.len() - 1 && #[trigger] rest[i] == '\r' implies rest[i
            + 1] != '\n' by {
            assert(t[i + 1] == rest[i]);
        }
        lemma_drop_crlf_identity(rest);
        assert(seq![t[0]] + rest =~= t);
    }
}

proof fn lemma_drop_crlf_no_lf(t: Seq<char>)
    requires
        no_lf(t),
    ensures
        drop_crlf(t) == t,
    decreases t.len(),
{
    if t.len() > 0 {
        let rest = t.drop_first();
        assert(no_lf(rest)) by {
            assert forall|i: int| 0 <= i < rest.len() implies #[trigger] rest[i] != '\n' by {
                assert(t[i + 1] == rest[i]);
            }
        }
        if t.len() >= 2 {
            assert(t[1] != '\n');
        }
        lemma_drop_crlf_no_lf(rest);
        assert(seq![t[0]] + rest =~= t);
    }
}

proof fn lemma_drop_crlf_white(t: Seq<char>)
    requires
        all_white(t),
    ensures
        all_white(drop_crlf(t)),
    decreases t.len(),
{
    if t.len() > 0 {
        let rest = t.drop_first();
        assert(all_white(rest)) by {
            assert forall|i: int| 0 <= i < rest.len() implies is_white(#[trigger] rest[i]) by {
                assert(t[i + 1] == rest[i]);
            }
        }
        lemma_drop_crlf_white(rest);
        assert(is_white(t[0]));
        let d = drop_crlf(t);
        if !(t.len() >= 2 && t[0] == '\r' && t[1] == '\n') {
            assert forall|i: int| 0 <= i < d.len() implies is_white(#[trigger] d[i]) by {
                if i > 0 {
                    assert(d[i] == drop_crlf(rest)[i - 1]);
                }
            }
        }
    }
}

proof fn lemma_drop_crlf_concat(x: Seq<char>, y: Seq<char>)
    requires
        !(x.len() > 0 && x.last() == '\r' && y.len() > 0 && y[0] == '\n'),
    ensures
        drop_crlf(x + y) == drop_crlf(x) + drop_crlf(y),
    decreases x.len(),
{
    if x.len() == 0 {
        assert(x + y =~= y);
    } else {
        let xy = x + y;
        let rest = x.drop_first();
        assert(xy.drop_first() =~= rest + y);
        if x.len() >= 2 {
            assert(rest.last() == x.last());
        }
        lemma_drop_crlf_concat(rest, y);
        if x.len() == 1 {
            assert(rest + y =~= y);
        } else {
            assert(xy[1] == x[1]);
        }
        assert(drop_crlf(xy) =~= drop_crlf(x) + drop_crlf(y));
    }
}

/// Breaking a line that holds no line feed drops a carriage return at its end.
proof fn lemma_drop_crlf_line(x: Seq<char>, r: Seq<char>)
    requires
        no_lf(x),
    ensures
        drop_crlf(x + seq!['\n'] + r) == strip_cr(x) + seq!['\n'] + drop_crlf(r),
    decreases x.len(),
{
    let whole = x + seq!['\n'] + r;
    if x.len() == 0 {
        assert(whole =~= seq!['\n'] + r);
        assert(whole.drop_first() =~= r);
        assert(strip_cr(x) =~= seq![]);
        assert(drop_crlf(whole) =~= strip_cr(x) + seq!['\n'] + drop_crlf(r));
    } else {
        let rest = x.drop_first();
        assert(no_lf(rest)) by {
            assert forall|i: int| 0 <= i < rest.len() implies #[trigger] rest[i] != '\n' by {
                assert(x[i + 1] == rest[i]);
            }
        }
        assert(whole.drop_first() =~= rest + seq!['\n'] + r);
        lemma_drop_crlf_line(rest, r);
        if x.len() == 1 {
            assert(whole[1] == '\n');
            assert(rest =~= seq![]);
            if x[0] == '\r' {
                assert(strip_cr(x) =~= seq![]);
            } else {
                assert(strip_cr(x) =~= x);
            }
            assert(drop_crlf(whole) =~= strip_cr(x) + seq!['\n'] + drop_crlf(r));
        } else {
            assert(whole[1] == x[1]);
            assert(x[1] != '\n');
            assert(rest.last() == x.last());
            assert(strip_cr(x) =~= seq![x[0]] + strip_cr(rest));
            assert(drop_crlf(whole) =~= strip_cr(x) + seq!['\n'] + drop_crlf(r));
        }
    }
}

/// Joining the lines drops each carriage return before a line feed, and a
/// final line feed.
proof fn lemma_join_lines_acc(s: Seq<char>, cur: Seq<char>)
    requires
        no_lf(cur),
    ensures
        join_lines(lines_acc(s, cur)) == drop_crlf(cur + s) || join_lines(lines_acc(s, cur))
            + seq!['\n'] == drop_crlf(cur + s),
    decreases s.len(),
{
    let t = cur + s;
    if s.len() == 0 {
        assert(t =~= cur);
        lemma_drop_crlf_no_lf(cur);
    } else if s[0] == '\n' {
        let rest = s.drop_first();
        assert(t =~= cur + seq!['\n'] + rest);
        lemma_drop_crlf_line(cur, rest);
        assert(seq![] + rest =~= rest);
        assert(no_lf(seq![]));
        lemma_join_lines_acc(rest, seq![]);
        let tail = lines_acc(rest, seq![]);
        if rest.len() == 0 {
            assert(lines_acc(s, cur) =~= seq![strip_cr(cur)]);
            assert(drop_crlf(rest) =~= seq![]);
            assert(join_lines(lines_acc(s, cur)) + seq!['\n'] =~= drop_crlf(t));
        } else {
            lemma_lines_acc_nonempty(rest, seq![]);
            lemma_join_cons(strip_cr(cur), tail);
            if join_lines(tail) == drop_crlf(rest) {
                assert(join_lines(lines_acc(s, cur)) =~= drop_crlf(t));
            } else {
                assert(join_lines(lines_acc(s, cur)) + seq!['\n'] =~= drop_crlf(t));
            }
        }
    } else {
        let next = cur.push(s[0]);
        assert(next + s.drop_first() =~= t);
        assert(no_lf(next)) by {
            assert forall|i: int| 0 <= i < next.len() implies #[trigger] next[i] != '\n' by {
                if i < cur.len() {
                    assert(next[i] == cur[i]);
                }
            }
        }
        lemma_join_lines_acc(s.drop_first(), next);
    }
}

proof fn lemma_trim_end_white_tail(w1: Seq<char>, c: Seq<char>, w2: Seq<char>)
    requires
        all_white(w2),
        c.len() > 0,
        !is_white(c.last()),
    ensures
        trim_end(w1 + c + w2) == w1 + c,
    decreases w2.len(),
{
    if w2.len() == 0 {
        assert(w1 + c + w2 =~= w1 + c);
        assert((w1 + c).last() == c.last());
    } else {
        let shorter = w2.drop_last();
        assert(all_white(shorter)) by {
            assert forall|i: int| 0 <= i < shorter.len() implies is_white(#[trigger] shorter[i]) by {
                assert(w2[i] == shorter[i]);
            }
        }
        assert((w1 + c + w2).last() == w2.last());
        assert(is_white(w2[w2.len() - 1]));
        assert((w1 + c + w2).drop_last() =~= w1 + c + shorter);
        lemma_trim_end_white_tail(w1, c, shorter);
    }
}

proof fn lemma_trim_start_white_head(w1: Seq<char>, c: Seq<char>)
    requires
        all_white(w1),
        c.len() > 0 ==> !is_white(c[0]),
    ensures
        trim_start(w1 + c) == c,
    decreases w1.len(),
{
    if w1.len() == 0 {
        assert(w1 + c =~= c);
    } else {
        let rest = w1.drop_first();
        assert(all_white(rest)) by {
            assert forall|i: int| 0 <= i < rest.len() implies is_white(#[trigger] rest[i]) by {
                assert(w1[i + 1] == rest[i]);
            }
        }
        assert(is_white(w1[0]));
        assert((w1 + c)[0] == w1[0]);
        assert((w1 + c).drop_first() =~= rest + c);
        lemma_trim_start_white_head(rest, c);
    }
}

proof fn lemma_trim_end_all_white(t: Seq<char>)
    requires
        all_white(t),
    ensures
        trim_end(t).len() == 0,
    decreases t.len(),
{
    if t.len() > 0 {
        let shorter = t.drop_last();
        assert(is_white(t[t.len() - 1]));
        assert(all_white(shorter)) by {
            assert forall|i: int| 0 <= i < shorter.len() implies is_white(#[trigger] shorter[i]) by {
                assert(t[i] == shorter[i]);
            }
        }
        lemma_trim_end_all_white(shorter);
    }
}

/// Dropping carriage returns before line feeds leaves the trimmed text alone
/// when none of them stands inside it.
proof fn lemma_trim_drop_crlf(t: Seq<char>)
    requires
        no_crlf(trim(t)),
    ensures
        trim(drop_crlf(t)) == trim(t),
{
    lemma_trim_end_shape(t);
    let e = trim_end(t);
    lemma_trim_start_shape(e);
    let b = e.len() as int;
    let a = b - trim_start(e).len();
    let head = t.subrange(0, a);
    let core = t.subrange(a, b);
    let tail = t.subrange(b, t.len() as int);
    assert(trim(t) =~= core);
    assert(head + core + tail =~= t);
    assert(all_white(head)) by {
        assert forall|i: int| 0 <= i < head.len() implies is_white(#[trigger] head[i]) by {
            assert(head[i] == e[i]);
            assert(is_white(e[i]));
        }
    }
    assert(all_white(tail)) by {
        assert forall|i: int| 0 <= i < tail.len() implies is_white(#[trigger] tail[i]) by {
            assert(tail[i] == t[b + i]);
        }
    }
    if core.len() == 0 {
        assert(head + tail =~= t);
        assert(all_white(t)) by {
            assert forall|i: int| 0 <= i < t.len() implies is_white(#[trigger] t[i]) by {
                if i < a {
                    assert(t[i] == head[i]);
                } else {
                    assert(t[i] == tail[i - a]);
                }
            }
        }
        lemma_drop_crlf_white(t);
        lemma_trim_end_all_white(drop_crlf(t));
        lemma_trim_start_white_head(seq![], seq![]);
    } else {
        assert(core[0] == trim_start(e)[0]);
        assert(core.last() == e.last());
        lemma_drop_crlf_concat(head, core + tail);
        assert((core + tail)[0] == core[0]);
        lemma_drop_crlf_concat(core, tail);
        lemma_drop_crlf_identity(core);
        let dh = drop_crlf(head);
        let dt = drop_crlf(tail);
        lemma_drop_crlf_white(head);
        lemma_drop_crlf_white(tail);
        assert(head + (core + tail) =~= t);
        assert(drop_crlf(t) == dh + (core + dt));
        assert(drop_crlf(t) =~= dh + core + dt);
        lemma_trim_end_white_tail(dh, core, dt);
        lemma_trim_start_white_head(dh, core);
    }
}

/// Sanitizing a text whose first line is not skippable gives the trimmed text,
/// provided no carriage return stands before a line feed inside the trimmed
/// text (those are dropped with the line breaks).
pub proof fn sanitize_without_skippable_prefix(text: Seq<char>)
    requires
        no_crlf(trim(text)),
        lines(text).len() > 0 ==> !skippable(lines(text)[0]),
    ensures
        sanitized(text) == trim(text),
{
    assert(seq![] + text =~= text);
    assert(no_lf(seq![]));
    lemma_join_lines_acc(text, seq![]);
    lemma_trim_drop_crlf(text);
    let joined = join_lines(lines(text));
    if joined + seq!['\n'] == drop_crlf(text) {
        assert((joined + seq!['\n']).drop_last() =~= joined);
    }
}

proof fn lemma_trim_end_shape(s: Seq<char>)
    ensures
        trim_end(s).len() <= s.len(),
        trim_end(s) == s.subrange(0, trim_end(s).len() as int),
        trim_end(s).len() > 0 ==> !is_white(trim_end(s).last()),
        forall|i: int| trim_end(s).len() <= i < s.len() ==> is_white(#[trigger] s[i]),
    decreases s.len(),
{
    if s.len() > 0 && is_white(s.last()) {
        lemma_trim_end_shape(s.drop_last());
        assert forall|i: int| trim_end(s).len() <= i < s.len() implies is_white(#[trigger] s[i]) by {
            if i < s.len() - 1 {
                assert(s.drop_last()[i] == s[i]);
            }
        }
        assert(s.drop_last().subrange(0, trim_end(s).len() as int) =~= s.subrange(
            0,
            trim_end(s).len() as int,
        ));
    } else {
        assert(s.subrange(0, s.len() as int) =~= s);
    }
}

proof fn lemma_trim_start_shape(s: Seq<char>)
    ensures
        trim_start(s).len() <= s.len(),
        trim_start(s) == s.subrange(s.len() - trim_start(s).len(), s.len() as int),
        trim_start(s).len() > 0 ==> !is_white(trim_start(s)[0]),
        forall|i: int| 0 <= i < s.len() - trim_start(s).len() ==> is_white(#[trigger] s[i]),
    decreases s.len(),
{
    if s.len() > 0 && is_white(s[0]) {
        lemma_trim_start_shape(s.drop_first());
        assert forall|i: int| 0 <= i < s.len() - trim_start(s).len() implies is_white(
            #[trigger] s[i],
        ) by {
            if i > 0 {
                assert(s.drop_first()[i - 1] == s[i]);
            }
        }
        assert(s.drop_first().subrange(
            s.drop_first().len() - trim_start(s).len(),
            s.drop_first().len() as int,
        ) =~= s.subrange(s.len() - trim_start(s).len(), s.len() as int));
    } else {
        assert(s.subrange(0, s.len() as int) =~= s);
    }
}

proof fn lemma_trim_idempotent(s: Seq<char>)
    ensures
        trim(trim(s)) == trim(s),
{
    let e = trim_end(s);
    let u = trim_start(e);
    lemma_trim_end_shape(s);
    lemma_trim_start_shape(e);
    if u.len() > 0 {
        assert(u.last() == e.last());
    }
    assert(trim_end(u) == u);
}

/// Sanitizing is idempotent on texts whose sanitized form neither starts with a
/// skippable line nor holds a carriage return before a line feed.
pub proof fn sanitize_idempotent(text: Seq<char>)
    requires
        no_crlf(sanitized(text)),
        lines(sanitized(text)).len() > 0 ==> !skippable(lines(sanitized(text))[0]),
    ensures
        sanitized(sanitized(text)) == sanitized(text),
{
    lemma_trim_idempotent(join_lines(skip_prefix(lines(text))));
    sanitize_without_skippable_prefix(sanitized(text));
}

} // verus!
