use vstd::prelude::*;

use crate::bytescale::Scale;
use crate::ifregex::{is_interface_line, InterfaceLine};
use crate::ifstats::{
    is_counter_line, line_report, max_len, parse_error, report_of, text_values, IFStats, LOOPBACK,
};
use crate::text::{lines_of, split_lines, tokens, views};

verus! {

/// The report of a snapshot whose lines are `lines`, where `matched` marks
/// the lines that have the shape of an interface line: the reports of the
/// marked lines in order, or `None` if one of them is no counter line.
pub open spec fn snapshot_text(
    lines: Seq<Seq<char>>,
    matched: Seq<bool>,
    scale: Scale,
    precision: nat,
    show_lo: bool,
) -> Option<Seq<char>>
    decreases lines.len(),
{
    if lines.len() == 0 || matched.len() != lines.len() {
        Some(seq![])
    } else {
        match snapshot_text(lines.drop_last(), matched.drop_last(), scale, precision, show_lo) {
            None => None,
            Some(before) => if !matched.last() {
                Some(before)
            } else {
                match line_report(lines.last(), scale, precision, show_lo) {
                    None => None,
                    Some(t) => Some(before + t),
                }
            },
        }
    }
}

/// `r` is the outcome of reporting the marked lines of a snapshot: its text,
/// or the parse error where a marked line is no counter line.
pub open spec fn reports(
    r: Result<String, String>,
    lines: Seq<Seq<char>>,
    matched: Seq<bool>,
    scale: Scale,
    precision: nat,
    show_lo: bool,
) -> bool {
    match r {
        Ok(t) => snapshot_text(lines, matched, scale, precision, show_lo) == Some(t@),
        Err(e) => snapshot_text(lines, matched, scale, precision, show_lo) is None && e@
            == parse_error(),
    }
}

/// The report of the marked lines of a snapshot; any marked line that is no
/// counter line fails the whole report.
pub fn report_lines(
    lines: &Vec<&str>,
    matched: &Vec<bool>,
    scale: &Scale,
    precision: usize,
    show_lo: bool,
) -> (r: Result<String, String>)
    requires
        lines.len() == matched.len(),
    ensures
        reports(r, views(lines@), matched@, *scale, precision as nat, show_lo),
{
    let ghost ls = views(lines@);
    let mut out = String::new();
    let mut i: usize = 0;
    while i < lines.len()
        invariant
            ls == views(lines@),
            lines.len() == matched.len(),
            i <= lines.len(),
            snapshot_text(
                ls.subrange(0, i as int),
                matched@.subrange(0, i as int),
                *scale,
                precision as nat,
                show_lo,
            ) == Some(out@),
        decreases lines.len() - i,
    {
        let ghost cur_lines = ls.subrange(0, i + 1);
        let ghost cur_matched = matched@.subrange(0, i + 1);
        assert(cur_lines.drop_last() =~= ls.subrange(0, i as int));
        assert(cur_matched.drop_last() =~= matched@.subrange(0, i as int));
        assert(cur_lines.last() == lines@[i as int]@);
        if matched[i] {
            match IFStats::new(lines[i]) {
                Ok(st) => {
                    if st.is_shown(show_lo) {
                        let text = st.report(scale, precision);
                        out.append(text.as_str());
                    }
                },
                Err(e) => {
                    proof {
                        lemma_failure_stays(ls, matched@, (i + 1) as int, *scale, precision as nat, show_lo);
                    }
                    return Err(e);
                },
            }
        }
        i = i + 1;
    }
    assert(ls.subrange(0, i as int) =~= ls);
    assert(matched@.subrange(0, i as int) =~= matched@);
    Ok(out)
}

/// Once a prefix of the snapshot fails, every longer prefix fails.
proof fn lemma_failure_stays(
    lines: Seq<Seq<char>>,
    matched: Seq<bool>,
    k: int,
    scale: Scale,
    precision: nat,
    show_lo: bool,
)
    requires
        lines.len() == matched.len(),
        0 < k <= lines.len(),
        snapshot_text(lines.subrange(0, k), matched.subrange(0, k), scale, precision, show_lo)
            is None,
    ensures
        snapshot_text(lines, matched, scale, precision, show_lo) is None,
    decreases lines.len() - k,
{
    if k < lines.len() {
        let l = lines.subrange(0, k + 1);
        let m = matched.subrange(0, k + 1);
        assert(l.drop_last() =~= lines.subrange(0, k));
        assert(m.drop_last() =~= matched.subrange(0, k));
        lemma_failure_stays(lines, matched, k + 1, scale, precision, show_lo);
    } else {
        assert(lines.subrange(0, k) =~= lines);
        assert(matched.subrange(0, k) =~= matched);
    }
}

/// Adding a marked counter line to a snapshot adds that line's report to
/// the snapshot's report, except for loopback without `show_lo`, which adds
/// nothing.
pub proof fn lemma_loopback_hidden(
    lines: Seq<Seq<char>>,
    matched: Seq<bool>,
    line: Seq<char>,
    scale: Scale,
    precision: nat,
    show_lo: bool,
)
    requires
        lines.len() == matched.len(),
        is_counter_line(line),
    ensures
        snapshot_text(lines.push(line), matched.push(true), scale, precision, show_lo) == match snapshot_text(
            lines,
            matched,
            scale,
            precision,
            show_lo,
        ) {
            None => None,
            Some(t) => if show_lo || tokens(line)[0] != LOOPBACK@ {
                Some(
                    t + report_of(
                        tokens(line)[0],
                        text_values(tokens(line).drop_first()),
                        max_len(tokens(line).drop_first()),
                        scale,
                        precision,
                    ),
                )
            } else {
                Some(t)
            },
        },
{
    assert(lines.push(line).drop_last() =~= lines);
    assert(matched.push(true).drop_last() =~= matched);
}

/// Which of `lines` have the shape of an interface line.
pub open spec fn interface_lines(lines: Seq<Seq<char>>) -> Seq<bool> {
    lines.map_values(|l: Seq<char>| is_interface_line(l))
}

/// The report of a snapshot of the counter table: every line of the shape
/// of an interface line is read as a counter line and reported, but for
/// loopback unless `show_lo`.
pub fn snapshot_report(
    snapshot: &str,
    interface_line: &InterfaceLine,
    scale: &Scale,
    precision: usize,
    show_lo: bool,
) -> (r: Result<String, String>)
    ensures
        reports(
            r,
            lines_of(snapshot@),
            interface_lines(lines_of(snapshot@)),
            *scale,
            precision as nat,
            show_lo,
        ),
{
    let lines = split_lines(snapshot);
    let ghost ls = views(lines@);
    let mut matched: Vec<bool> = Vec::new();
    let mut i: usize = 0;
    while i < lines.len()
        invariant
            ls == views(lines@),
            i <= lines.len(),
            matched@ == interface_lines(ls.subrange(0, i as int)),
        decreases lines.len() - i,
    {
        matched.push(interface_line.is_match(lines[i]));
        assert(matched@ =~= interface_lines(ls.subrange(0, i + 1)));
        i = i + 1;
    }
    assert(ls.subrange(0, i as int) =~= ls);
    report_lines(&lines, &matched, scale, precision, show_lo)
}

} // verus!
