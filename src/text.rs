//! Small verified string helpers: decimal rendering, comparison, prefix tests,
//! pattern removal, line splitting and path-component extraction.
use vstd::prelude::*;

verus! {

/// The character of a decimal digit.
pub open spec fn digit_char(d: nat) -> char {
    if d == 0 { '0' }
    else if d == 1 { '1' }
    else if d == 2 { '2' }
    else if d == 3 { '3' }
    else if d == 4 { '4' }
    else if d == 5 { '5' }
    else if d == 6 { '6' }
    else if d == 7 { '7' }
    else if d == 8 { '8' }
    else { '9' }
}

/// The decimal rendering of a natural number, without leading zeros.
pub open spec fn decimal(n: nat) -> Seq<char>
    decreases n,
{
    if n < 10 {
        seq![digit_char(n)]
    } else {
        decimal(n / 10).push(digit_char(n % 10))
    }
}

fn digit_str(d: u64) -> (r: &'static str)
    requires
        d < 10,
    ensures
        r@ == seq![digit_char(d as nat)],
{
    if d == 0 {
        proof { reveal_strlit("0"); }
        "0"
    } else if d == 1 {
        proof { reveal_strlit("1"); }
        "1"
    } else if d == 2 {
        proof { reveal_strlit("2"); }
        "2"
    } else if d == 3 {
        proof { reveal_strlit("3"); }
        "3"
    } else if d == 4 {
        proof { reveal_strlit("4"); }
        "4"
    } else if d == 5 {
        proof { reveal_strlit("5"); }
        "5"
    } else if d == 6 {
        proof { reveal_strlit("6"); }
        "6"
    } else if d == 7 {
        proof { reveal_strlit("7"); }
        "7"
    } else if d == 8 {
        proof { reveal_strlit("8"); }
        "8"
    } else {
        proof { reveal_strlit("9"); }
        "9"
    }
}

/// Renders `n` in decimal.
pub fn decimal_string(n: u64) -> (r: String)
    ensures
        r@ == decimal(n as nat),
    decreases n,
{
    if n < 10 {
        String::from_str(digit_str(n))
    } else {
        let mut s = decimal_string(n / 10);
        s.append(digit_str(n % 10));
        s
    }
}

/// Exact comparison of two texts.
pub fn same_text(a: &str, b: &str) -> (r: bool)
    ensures
        r == (a@ == b@),
{
    let n = a.unicode_len();
    if n != b.unicode_len() {
        return false;
    }
    let mut i: usize = 0;
    while i < n
        invariant
            n == a@.len(),
            n == b@.len(),
            i <= n,
            a@.subrange(0, i as int) == b@.subrange(0, i as int),
        decreases n - i,
    {
        if a.get_char(i) != b.get_char(i) {
            assert(a@[i as int] != b@[i as int]);
            return false;
        }
        assert(a@.subrange(0, i + 1) == a@.subrange(0, i as int).push(a@[i as int]));
        assert(b@.subrange(0, i + 1) == b@.subrange(0, i as int).push(b@[i as int]));
        i = i + 1;
    }
    assert(a@ == a@.subrange(0, n as int));
    assert(b@ == b@.subrange(0, n as int));
    true
}

/// Whether `p` occurs in `s` at character offset `at`.
pub open spec fn occurs_at(s: Seq<char>, p: Seq<char>, at: int) -> bool {
    0 <= at && at + p.len() <= s.len() && s.subrange(at, at + p.len()) == p
}

/// Whether `p` occurs in `s` at offset `at` (`at` at most the length of `s`).
pub fn text_occurs_at(s: &str, p: &str, at: usize) -> (r: bool)
    requires
        at <= s@.len(),
    ensures
        r == occurs_at(s@, p@, at as int),
{
    let n = s.unicode_len();
    let m = p.unicode_len();
    if m > n - at {
        return false;
    }
    let mut i: usize = 0;
    while i < m
        invariant
            n == s@.len(),
            m == p@.len(),
            at + m <= n,
            i <= m,
            s@.subrange(at as int, at + i) == p@.subrange(0, i as int),
        decreases m - i,
    {
        if s.get_char(at + i) != p.get_char(i) {
            assert(s@.subrange(at as int, at + m)[i as int] != p@[i as int]);
            return false;
        }
        assert(s@.subrange(at as int, at + i + 1) == s@.subrange(at as int, at + i).push(
            s@[at + i],
        ));
        assert(p@.subrange(0, i + 1) == p@.subrange(0, i as int).push(p@[i as int]));
        i = i + 1;
    }
    assert(p@ == p@.subrange(0, m as int));
    true
}

/// Whether `s` begins with `p`.
pub fn starts_with_text(s: &str, p: &str) -> (r: bool)
    ensures
        r == occurs_at(s@, p@, 0),
{
    text_occurs_at(s, p, 0)
}


/// `s` with every occurrence of `p` replaced by `rep`, scanning left to right
/// without overlap (for an empty `p`, `s` itself).
pub open spec fn replace_all(s: Seq<char>, p: Seq<char>, rep: Seq<char>) -> Seq<char>
    decreases s.len(),
{
    if s.len() == 0 {
        s
    } else if p.len() > 0 && occurs_at(s, p, 0) {
        rep + replace_all(s.subrange(p.len() as int, s.len() as int), p, rep)
    } else {
        seq![s[0]] + replace_all(s.subrange(1, s.len() as int), p, rep)
    }
}

/// `s` with every occurrence of `p` removed.
pub open spec fn remove_all(s: Seq<char>, p: Seq<char>) -> Seq<char> {
    replace_all(s, p, seq![])
}

/// Replaces every occurrence of `p` in `s` by `rep`.
pub fn replace_all_text(s: &str, p: &str, rep: &str) -> (r: String)
    ensures
        r@ == replace_all(s@, p@, rep@),
{
    let n = s.unicode_len();
    let m = p.unicode_len();
    let mut out = String::new();
    let mut i: usize = 0;
    assert(s@.subrange(0, n as int) == s@);
    while i < n
        invariant
            n == s@.len(),
            m == p@.len(),
            i <= n,
            replace_all(s@, p@, rep@) == out@ + replace_all(
                s@.subrange(i as int, n as int),
                p@,
                rep@,
            ),
        decreases n - i,
    {
        let ghost rest = s@.subrange(i as int, n as int);
        if m > 0 && text_occurs_at(s, p, i) {
            assert(rest.subrange(0, m as int) == s@.subrange(i as int, i + m));
            assert(rest.subrange(m as int, rest.len() as int) == s@.subrange(i + m, n as int));
            let ghost before = out@;
            out.append(rep);
            assert(before + (rep@ + replace_all(s@.subrange(i + m, n as int), p@, rep@)) == out@
                + replace_all(s@.subrange(i + m, n as int), p@, rep@));
            i = i + m;
        } else {
            assert(!(p@.len() > 0 && occurs_at(rest, p@, 0))) by {
                if m > 0 && m <= rest.len() {
                    assert(rest.subrange(0, m as int) == s@.subrange(i as int, i + m));
                }
            }
            assert(rest.subrange(1, rest.len() as int) == s@.subrange(i + 1, n as int));
            let c = s.substring_char(i, i + 1);
            assert(c@ == seq![rest[0]]);
            out.append(c);
            i = i + 1;
        }
    }
    assert(replace_all(s@.subrange(n as int, n as int), p@, rep@) == Seq::<char>::empty());
    assert(out@ + Seq::<char>::empty() == out@);
    out
}

/// Removes every occurrence of `p` from `s`.
pub fn remove_all_text(s: &str, p: &str) -> (r: String)
    ensures
        r@ == remove_all(s@, p@),
{
    let r = replace_all_text(s, p, "");
    proof {
        reveal_strlit("");
    }
    assert(""@ == Seq::<char>::empty());
    r
}

/// `name` under directory `dir`, with one `/` between them; a name that
/// starts with `/` is absolute and stands alone.
pub open spec fn join_path(dir: Seq<char>, name: Seq<char>) -> Seq<char> {
    if name.len() > 0 && name[0] == '/' {
        name
    } else if dir.len() == 0 {
        name
    } else if dir.last() == '/' {
        dir + name
    } else {
        dir + "/"@ + name
    }
}

/// Places `name` under directory `dir`.
pub fn join_path_text(dir: &str, name: &str) -> (r: String)
    ensures
        r@ == join_path(dir@, name@),
{
    if name.unicode_len() > 0 && name.get_char(0) == '/' {
        return String::from_str(name);
    }
    let n = dir.unicode_len();
    let mut out = String::from_str(dir);
    if n > 0 && dir.get_char(n - 1) != '/' {
        out.append("/");
    }
    out.append(name);
    out
}

/// The text after the last `/` of `s` (all of it if there is none).
pub open spec fn last_segment(s: Seq<char>) -> Seq<char> {
    s.subrange(s.len() - tail_len(s), s.len() as int)
}

/// Index of the first line feed in `s`, or the length of `s` if there is none.
pub open spec fn line_end(s: Seq<char>) -> nat
    decreases s.len(),
{
    if s.len() == 0 {
        0
    } else if s[0] == '\n' {
        0
    } else {
        1 + line_end(s.subrange(1, s.len() as int))
    }
}

/// A line ended by a line feed loses one carriage return before it.
pub open spec fn strip_cr(l: Seq<char>) -> Seq<char> {
    if l.len() > 0 && l.last() == '\r' {
        l.drop_last()
    } else {
        l
    }
}

/// The lines of `s`: pieces separated by line feeds, a carriage return before
/// a line feed dropped, and no empty piece after a final line feed.
pub open spec fn lines(s: Seq<char>) -> Seq<Seq<char>>
    decreases s.len(),
{
    if s.len() == 0 {
        seq![]
    } else {
        let e = line_end(s);
        if e < s.len() {
            seq![strip_cr(s.subrange(0, e as int))] + lines(s.subrange(e + 1 as int, s.len() as int))
        } else {
            seq![s]
        }
    }
}

proof fn lemma_line_end(s: Seq<char>, e: int)
    requires
        0 <= e <= s.len(),
        forall|k: int| 0 <= k < e ==> s[k] != '\n',
        e == s.len() || s[e] == '\n',
    ensures
        line_end(s) == e,
    decreases s.len(),
{
    if s.len() > 0 && e > 0 {
        let t = s.subrange(1, s.len() as int);
        assert forall|k: int| 0 <= k < e - 1 implies t[k] != '\n' by {
            assert(t[k] == s[k + 1]);
        }
        if e - 1 < t.len() {
            assert(t[e - 1] == s[e]);
        }
        lemma_line_end(t, e - 1);
    }
}

/// Splits `s` into its lines.
pub fn split_lines(s: &str) -> (r: Vec<String>)
    ensures
        r.deep_view() == lines(s@),
{
    let n = s.unicode_len();
    let mut out: Vec<String> = Vec::new();
    let mut i: usize = 0;
    assert(s@.subrange(0, n as int) == s@);
    while i < n
        invariant
            n == s@.len(),
            i <= n,
            lines(s@) == out.deep_view() + lines(s@.subrange(i as int, n as int)),
        decreases n - i,
    {
        let rest = Ghost(s@.subrange(i as int, n as int));
        let mut e: usize = i;
        while e < n && s.get_char(e) != '\n'
            invariant
                n == s@.len(),
                i <= e <= n,
                forall|k: int| i <= k < e ==> s@[k] != '\n',
            decreases n - e,
        {
            e = e + 1;
        }
        proof {
            assert forall|k: int| 0 <= k < e - i implies rest@[k] != '\n' by {
                assert(rest@[k] == s@[i + k]);
            }
            if e < n {
                assert(rest@[e - i] == s@[e as int]);
            }
            lemma_line_end(rest@, e - i);
            assert(rest@.subrange(0, e - i) == s@.subrange(i as int, e as int));
        }
        let piece = s.substring_char(i, e);
        let ghost old_view = out.deep_view();
        if e < n {
            assert(rest@.subrange(e - i + 1, rest@.len() as int) == s@.subrange(e + 1, n as int));
            let k = piece.unicode_len();
            if k > 0 && piece.get_char(k - 1) == '\r' {
                let line = String::from_str(piece.substring_char(0, k - 1));
                assert(line@ == piece@.drop_last());
                out.push(line);
            } else {
                out.push(String::from_str(piece));
            }
            assert(out.deep_view() == old_view.push(strip_cr(rest@.subrange(0, e - i))));
            i = e + 1;
        } else {
            assert(rest@.subrange(0, e - i) == rest@);
            out.push(String::from_str(piece));
            assert(out.deep_view() == old_view.push(rest@));
            assert(s@.subrange(n as int, n as int).len() == 0);
            i = n;
        }
    }
    assert(lines(s@.subrange(n as int, n as int)) == Seq::<Seq<char>>::empty());
    assert(out.deep_view() + Seq::<Seq<char>>::empty() == out.deep_view());
    out
}

/// The view of an optional string.
pub open spec fn opt_view(o: Option<String>) -> Option<Seq<char>> {
    match o {
        Some(x) => Some(x@),
        None => None,
    }
}

/// Number of characters after the last `/` of `s` (all of them if there is none).
pub open spec fn tail_len(s: Seq<char>) -> nat
    decreases s.len(),
{
    if s.len() == 0 {
        0
    } else if s.last() == '/' {
        0
    } else {
        1 + tail_len(s.drop_last())
    }
}

/// The file name of a path: its last component that is neither empty nor `.`,
/// or nothing when that component is `..` or the path has no such component.
pub open spec fn file_name_of(s: Seq<char>) -> Option<Seq<char>>
    decreases s.len(),
{
    let t = tail_len(s);
    let c = s.subrange(s.len() - t, s.len() as int);
    if c.len() > 0 && c != "."@ {
        if c == ".."@ {
            None
        } else {
            Some(c)
        }
    } else if t < s.len() {
        file_name_of(s.subrange(0, s.len() - t - 1))
    } else {
        None
    }
}

proof fn lemma_tail_len(s: Seq<char>, k: int)
    requires
        0 <= k <= s.len(),
        forall|j: int| s.len() - k <= j < s.len() ==> s[j] != '/',
        k == s.len() || s[s.len() - k - 1] == '/',
    ensures
        tail_len(s) == k,
    decreases s.len(),
{
    if s.len() > 0 && k > 0 {
        let t = s.drop_last();
        assert forall|j: int| t.len() - (k - 1) <= j < t.len() implies t[j] != '/' by {
            assert(t[j] == s[j]);
        }
        if k - 1 < t.len() {
            assert(t[t.len() - (k - 1) - 1] == s[s.len() - k - 1]);
        }
        lemma_tail_len(t, k - 1);
    }
}

/// The text after the last `/` of `s`.
pub fn last_segment_text(s: &str) -> (r: String)
    ensures
        r@ == last_segment(s@),
{
    let n = s.unicode_len();
    let mut st: usize = n;
    while st > 0 && s.get_char(st - 1) != '/'
        invariant
            n == s@.len(),
            st <= n,
            forall|j: int| st <= j < n ==> s@[j] != '/',
        decreases st,
    {
        st = st - 1;
    }
    proof {
        lemma_tail_len(s@, n - st);
    }
    String::from_str(s.substring_char(st, n))
}

/// The file name of `path` (see `file_name_of`).
pub fn file_name(path: &str) -> (r: Option<String>)
    ensures
        opt_view(r) == file_name_of(path@),
{
    let n = path.unicode_len();
    let mut end: usize = n;
    assert(path@.subrange(0, n as int) == path@);
    loop
        invariant
            n == path@.len(),
            end <= n,
            file_name_of(path@) == file_name_of(path@.subrange(0, end as int)),
        decreases end,
    {
        let ghost head = path@.subrange(0, end as int);
        let mut st: usize = end;
        while st > 0 && path.get_char(st - 1) != '/'
            invariant
                n == path@.len(),
                st <= end <= n,
                forall|j: int| st <= j < end ==> path@[j] != '/',
            decreases st,
        {
            st = st - 1;
        }
        proof {
            assert forall|j: int| head.len() - (end - st) <= j < head.len() implies head[j]
                != '/' by {
                assert(head[j] == path@[j]);
            }
            if st > 0 {
                assert(head[head.len() - (end - st) - 1] == path@[st - 1]);
            }
            lemma_tail_len(head, end - st);
            assert(head.subrange(st as int, end as int) == path@.subrange(st as int, end as int));
        }
        let c = path.substring_char(st, end);
        let dot = ".";
        let dots = "..";
        if end > st && !same_text(c, dot) {
            if same_text(c, dots) {
                return None;
            }
            return Some(String::from_str(c));
        }
        if st == 0 {
            return None;
        }
        assert(head.subrange(0, st - 1) == path@.subrange(0, st - 1));
        end = st - 1;
    }
}

/// Index of the last `.` of `s`, if any.
pub open spec fn last_dot(s: Seq<char>) -> Option<nat>
    decreases s.len(),
{
    if s.len() == 0 {
        None
    } else if s.last() == '.' {
        Some((s.len() - 1) as nat)
    } else {
        last_dot(s.drop_last())
    }
}

/// The stem of a file name: the part before its last `.`, or the whole name
/// when it has no `.` or its only `.` comes first.
pub open spec fn stem_of(name: Seq<char>) -> Seq<char> {
    match last_dot(name) {
        Some(d) => if d == 0 { name } else { name.subrange(0, d as int) },
        None => name,
    }
}

proof fn lemma_last_dot_bound(s: Seq<char>)
    ensures
        last_dot(s) matches Some(d) ==> d < s.len() && s[d as int] == '.',
    decreases s.len(),
{
    if s.len() > 0 && s.last() != '.' {
        lemma_last_dot_bound(s.drop_last());
    }
}

/// The stem of a file name (see `stem_of`).
pub fn file_stem(name: &str) -> (r: String)
    ensures
        r@ == stem_of(name@),
{
    let n = name.unicode_len();
    let mut i: usize = n;
    assert(name@.subrange(0, n as int) == name@);
    while i > 0 && name.get_char(i - 1) != '.'
        invariant
            n == name@.len(),
            i <= n,
            last_dot(name@) == last_dot(name@.subrange(0, i as int)),
        decreases i,
    {
        assert(name@.subrange(0, i as int).drop_last() == name@.subrange(0, i - 1));
        i = i - 1;
    }
    if i == 0 {
        assert(last_dot(name@.subrange(0, 0)) is None);
        String::from_str(name)
    } else {
        assert(last_dot(name@) == Some((i - 1) as nat));
        if i == 1 {
            String::from_str(name)
        } else {
            String::from_str(name.substring_char(0, i - 1))
        }
    }
}

/// The items of `xs` joined by `sep`.
pub open spec fn joined(xs: Seq<Seq<char>>, sep: Seq<char>) -> Seq<char>
    decreases xs.len(),
{
    if xs.len() == 0 {
        Seq::empty()
    } else if xs.len() == 1 {
        xs[0]
    } else {
        joined(xs.drop_last(), sep) + sep + xs.last()
    }
}

/// Joins `items` with `sep`.
pub fn join_text(items: &Vec<String>, sep: &str) -> (r: String)
    ensures
        r@ == joined(items.deep_view(), sep@),
{
    let mut out = String::new();
    let mut i: usize = 0;
    while i < items.len()
        invariant
            i <= items.len(),
            out@ == joined(items.deep_view().subrange(0, i as int), sep@),
        decreases items.len() - i,
    {
        let ghost pre = items.deep_view().subrange(0, i as int);
        let ghost next = items.deep_view().subrange(0, i + 1);
        assert(next.drop_last() == pre);
        assert(next.last() == items[i as int]@);
        if i > 0 {
            out.append(sep);
        }
        out.append(items[i].as_str());
        i = i + 1;
    }
    assert(items.deep_view().subrange(0, items.len() as int) == items.deep_view());
    out
}

} // verus!
