use vstd::prelude::*;

use crate::decimal::right_aligned;

verus! {

/// Whether `c` has the Unicode White_Space property.
pub open spec fn is_whitespace(c: char) -> bool {
    let u = c as u32;
    (0x9 <= u && u <= 0xd) || u == 0x20 || u == 0x85 || u == 0xa0 || u == 0x1680 || (0x2000 <= u
        && u <= 0x200a) || u == 0x2028 || u == 0x2029 || u == 0x202f || u == 0x205f || u == 0x3000
}

pub fn char_is_whitespace(c: char) -> (r: bool)
    ensures
        r == is_whitespace(c),
{
    let u = c as u32;
    (0x9 <= u && u <= 0xd) || u == 0x20 || u == 0x85 || u == 0xa0 || u == 0x1680 || (0x2000 <= u
        && u <= 0x200a) || u == 0x2028 || u == 0x2029 || u == 0x202f || u == 0x205f || u == 0x3000
}

/// The maximal runs of non-whitespace characters of `s`, in order.
pub open spec fn tokens(s: Seq<char>) -> Seq<Seq<char>>
    decreases s.len(),
{
    if s.len() == 0 {
        seq![]
    } else {
        let t = tokens(s.drop_last());
        let c = s.last();
        if is_whitespace(c) {
            t
        } else if s.len() >= 2 && !is_whitespace(s[s.len() - 2]) {
            t.update(t.len() - 1, t.last().push(c))
        } else {
            t.push(seq![c])
        }
    }
}

pub open spec fn views(v: Seq<&str>) -> Seq<Seq<char>> {
    v.map_values(|t: &str| t@)
}

/// Splits `s` at runs of whitespace.
pub fn split_whitespace<'a>(s: &'a str) -> (r: Vec<&'a str>)
    ensures
        views(r@) == tokens(s@),
{
    let n = s.unicode_len();
    let mut toks: Vec<&'a str> = Vec::new();
    let mut start: usize = 0;
    let mut in_tok = false;
    let mut i: usize = 0;
    while i < n
        invariant
            n == s@.len(),
            i <= n,
            start <= i,
            in_tok <==> (i > 0 && !is_whitespace(s@[i - 1])),
            in_tok ==> start < i,
            in_tok ==> views(toks@).push(s@.subrange(start as int, i as int)) == tokens(
                s@.subrange(0, i as int),
            ),
            !in_tok ==> views(toks@) == tokens(s@.subrange(0, i as int)),
        decreases n - i,
    {
        let c = s.get_char(i);
        let ghost pre = s@.subrange(0, i as int);
        let ghost cur = s@.subrange(0, i + 1);
        assert(cur.drop_last() =~= pre);
        assert(cur.last() == c);
        if char_is_whitespace(c) {
            if in_tok {
                let ghost before = toks@;
                let t = s.substring_char(start, i);
                toks.push(t);
                assert(views(toks@) =~= views(before).push(t@));
            }
            in_tok = false;
        } else if in_tok {
            assert(s@.subrange(start as int, i + 1) =~= s@.subrange(start as int, i as int).push(c));
            assert(cur[cur.len() - 2] == s@[i - 1]);
        } else {
            start = i;
            in_tok = true;
            assert(s@.subrange(start as int, i + 1) =~= seq![c]);
        }
        i = i + 1;
    }
    if in_tok {
        let ghost before = toks@;
        let t = s.substring_char(start, n);
        toks.push(t);
        assert(views(toks@) =~= views(before).push(t@));
    }
    assert(s@.subrange(0, n as int) =~= s@);
    toks
}

/// Whether `a` and `b` hold the same characters.
pub fn same_text(a: &str, b: &str) -> (r: bool)
    ensures
        r == (a@ == b@),
{
    let n = a.unicode_len();
    if n != b.unicode_len() {
        return false;
    }
    let mut i: usize = 0;
    while i < n
        invariant
            n == a@.len() == b@.len(),
            i <= n,
            a@.subrange(0, i as int) == b@.subrange(0, i as int),
        decreases n - i,
    {
        if a.get_char(i) != b.get_char(i) {
            return false;
        }
        assert(a@.subrange(0, i + 1) =~= a@.subrange(0, i as int).push(a@[i as int]));
        assert(b@.subrange(0, i + 1) =~= b@.subrange(0, i as int).push(b@[i as int]));
        i = i + 1;
    }
    assert(a@ =~= a@.subrange(0, n as int));
    assert(b@ =~= b@.subrange(0, n as int));
    true
}

/// Appends `s` to `out`, preceded by spaces up to `width` characters.
pub fn push_right_aligned(out: &mut String, s: &str, width: usize)
    ensures
        final(out)@ == old(out)@ + right_aligned(s@, width as nat),
{
    let len = s.unicode_len();
    let mut i: usize = len;
    while i < width
        invariant
            len <= i,
            len < width ==> i <= width,
            len >= width ==> i == len,
            len as nat == s@.len(),
            out@ == old(out)@ + Seq::new((i - len) as nat, |k: int| ' '),
        decreases width - i,
    {
        proof {
            reveal_strlit(" ");
        }
        out.append(" ");
        assert(Seq::new((i - len) as nat, |k: int| ' ').push(' ') =~= Seq::new(
            (i + 1 - len) as nat,
            |k: int| ' ',
        ));
        i = i + 1;
    }
    out.append(s);
    proof {
        if len >= width {
            assert(Seq::new((i - len) as nat, |k: int| ' ') =~= Seq::<char>::empty());
        }
        assert(out@ =~= old(out)@ + right_aligned(s@, width as nat));
    }
}

/// The pieces of `s` between its `'\n'` characters: one more than there are
/// newlines.
pub open spec fn pieces(s: Seq<char>) -> Seq<Seq<char>>
    decreases s.len(),
{
    if s.len() == 0 {
        seq![seq![]]
    } else {
        let p = pieces(s.drop_last());
        if s.last() == '\n' {
            p.push(seq![])
        } else {
            p.update(p.len() - 1, p.last().push(s.last()))
        }
    }
}

/// `line` without one trailing `'\r'`.
pub open spec fn without_cr(line: Seq<char>) -> Seq<char> {
    if line.len() > 0 && line.last() == '\r' {
        line.drop_last()
    } else {
        line
    }
}

/// The lines of `s`: each ends at a `'\n'`, or a `"\r\n"`, which it does not
/// hold; the last one needs no line ending, and an empty text after the last
/// line ending is no line.
pub open spec fn lines_of(s: Seq<char>) -> Seq<Seq<char>> {
    let p = pieces(s);
    let ended = p.drop_last().map_values(|l: Seq<char>| without_cr(l));
    if p.last().len() == 0 {
        ended
    } else {
        ended.push(p.last())
    }
}

/// Splits `s` into its lines.
pub fn split_lines<'a>(s: &'a str) -> (r: Vec<&'a str>)
    ensures
        views(r@) == lines_of(s@),
{
    let n = s.unicode_len();
    let mut out: Vec<&'a str> = Vec::new();
    let mut start: usize = 0;
    let mut i: usize = 0;
    while i < n
        invariant
            n == s@.len(),
            start <= i <= n,
            pieces(s@.subrange(0, i as int)).len() >= 1,
            views(out@) == pieces(s@.subrange(0, i as int)).drop_last().map_values(
                |l: Seq<char>| without_cr(l),
            ),
            pieces(s@.subrange(0, i as int)).last() == s@.subrange(start as int, i as int),
        decreases n - i,
    {
        let c = s.get_char(i);
        let ghost pre = s@.subrange(0, i as int);
        let ghost cur = s@.subrange(0, i + 1);
        assert(cur.drop_last() =~= pre);
        assert(cur.last() == c);
        let ghost before = out@;
        if c == '\n' {
            let end = if i > start && s.get_char(i - 1) == '\r' {
                i - 1
            } else {
                i
            };
            let line = s.substring_char(start, end);
            out.push(line);
            proof {
                let piece = s@.subrange(start as int, i as int);
                if i > start && s@[i - 1] == '\r' {
                    assert(piece.drop_last() =~= s@.subrange(start as int, end as int));
                } else {
                    assert(piece =~= s@.subrange(start as int, end as int));
                }
                assert(line@ == without_cr(piece));
                assert(pieces(cur) == pieces(pre).push(seq![]));
                assert(pieces(cur).drop_last() =~= pieces(pre));
                assert(pieces(pre) =~= pieces(pre).drop_last().push(piece));
                assert(views(out@) =~= views(before).push(line@));
                assert(views(out@) =~= pieces(cur).drop_last().map_values(
                    |l: Seq<char>| without_cr(l),
                ));
                assert(s@.subrange(i + 1, i + 1) =~= Seq::<char>::empty());
            }
            start = i + 1;
        } else {
            proof {
                let p = pieces(pre);
                assert(pieces(cur) == p.update(p.len() - 1, p.last().push(c)));
                assert(pieces(cur).drop_last() =~= p.drop_last());
                assert(s@.subrange(start as int, i + 1) =~= s@.subrange(start as int, i as int).push(c));
            }
        }
        i = i + 1;
    }
    assert(s@.subrange(0, n as int) =~= s@);
    if start < n {
        let ghost before = out@;
        let line = s.substring_char(start, n);
        out.push(line);
        assert(views(out@) =~= views(before).push(line@));
    }
    out
}

} // verus!
