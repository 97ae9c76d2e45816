use vstd::prelude::*;

use crate::bytescale::Scale;
use crate::decimal::{all_digits, digits_of, digits_value, is_u64_text, parse_u64, push_decimal, right_aligned};
use crate::text::{push_right_aligned, same_text, split_whitespace, tokens, views};

verus! {

/// Name of the loopback interface as it stands in a counter line.
pub const LOOPBACK: &'static str = "lo:";

/// Every text of `ts` is a decimal `u64`.
pub open spec fn all_u64_texts(ts: Seq<Seq<char>>) -> bool {
    forall|i: int| 0 <= i < ts.len() ==> is_u64_text(#[trigger] ts[i])
}

/// The numbers that the texts `ts` spell.
pub open spec fn text_values(ts: Seq<Seq<char>>) -> Seq<u64> {
    ts.map_values(|t: Seq<char>| digits_value(t) as u64)
}

/// The length of the longest text of `ts` (0 for none).
pub open spec fn max_len(ts: Seq<Seq<char>>) -> nat
    decreases ts.len(),
{
    if ts.len() == 0 {
        0
    } else {
        let m = max_len(ts.drop_last());
        if ts.last().len() > m {
            ts.last().len()
        } else {
            m
        }
    }
}

/// A counter line: an interface name followed by exactly sixteen decimal `u64`s.
pub open spec fn is_counter_line(line: Seq<char>) -> bool {
    let t = tokens(line);
    t.len() == 17 && all_u64_texts(t.drop_first())
}

pub open spec fn parse_error() -> Seq<char> {
    "error parsing /proc/net/dev interface data"@
}

pub open spec fn nat_max(a: nat, b: nat) -> nat {
    if a >= b {
        a
    } else {
        b
    }
}

/// One row of a report: a receive and a transmit value, each right-aligned to `width`.
pub open spec fn row(
    rx_label: Seq<char>,
    rx: Seq<char>,
    tx_label: Seq<char>,
    tx: Seq<char>,
    width: nat,
) -> Seq<char> {
    rx_label + right_aligned(rx, width) + "  |  "@ + tx_label + right_aligned(tx, width) + "\n"@
}

/// The width of the value columns: the widest counter text, or of the two
/// scaled byte counts.
pub open spec fn column_width(counters: Seq<u64>, width: nat, scale: Scale, precision: nat) -> nat {
    nat_max(
        nat_max(width, scale.scaled_text(counters[0] as nat, precision).len()),
        scale.scaled_text(counters[8] as nat, precision).len(),
    )
}

/// The printed report of interface `name` with the sixteen `counters` of a
/// counter line, whose widest counter text is `width` long.
pub open spec fn report_of(
    name: Seq<char>,
    counters: Seq<u64>,
    width: nat,
    scale: Scale,
    precision: nat,
) -> Seq<char> {
    let w = column_width(counters, width, scale, precision);
    "\n"@ + name + "\n\n"@ + row(
        "RX Bytes      "@,
        scale.scaled_text(counters[0] as nat, precision),
        "TX Bytes      "@,
        scale.scaled_text(counters[8] as nat, precision),
        w,
    ) + row("RX Packets    "@, digits_of(counters[1] as nat), "TX Packets    "@, digits_of(counters[9] as nat), w) + row(
        "RX Errors     "@,
        digits_of(counters[2] as nat),
        "TX Errors     "@,
        digits_of(counters[10] as nat),
        w,
    ) + row("RX Drops      "@, digits_of(counters[3] as nat), "TX Drops      "@, digits_of(counters[11] as nat), w) + row(
        "RX FIFO       "@,
        digits_of(counters[4] as nat),
        "TX FIFO       "@,
        digits_of(counters[12] as nat),
        w,
    ) + row("RX Compressed "@, digits_of(counters[5] as nat), "TX Compressed "@, digits_of(counters[13] as nat), w) + row(
        "RX Frames     "@,
        digits_of(counters[6] as nat),
        "TX Collisions "@,
        digits_of(counters[14] as nat),
        w,
    ) + row("RX Multicast  "@, digits_of(counters[7] as nat), "TX Carrier    "@, digits_of(counters[15] as nat), w)
}

/// What one line of a snapshot adds to the report: nothing where it is
/// hidden loopback, `None` where it is no counter line.
pub open spec fn line_report(line: Seq<char>, scale: Scale, precision: nat, show_lo: bool) -> Option<
    Seq<char>,
> {
    let t = tokens(line);
    if !is_counter_line(line) {
        None
    } else if show_lo || t[0] != LOOPBACK@ {
        Some(report_of(t[0], text_values(t.drop_first()), max_len(t.drop_first()), scale, precision))
    } else {
        Some(seq![])
    }
}

/// A line made of a name and exactly sixteen decimal `u64` tokens is a
/// counter line, which `IFStats::new` reads; a line with any token after the
/// name that holds a non-digit, or denotes more than `u64::MAX`, is none, and
/// `IFStats::new` fails on it.
pub proof fn lemma_counter_line_shape(line: Seq<char>)
    ensures
        is_counter_line(line) <==> (tokens(line).len() == 17 && forall|i: int|
            1 <= i < 17 ==> is_u64_text(#[trigger] tokens(line)[i])),
        forall|i: int|
            1 <= i < tokens(line).len() && (!all_digits(#[trigger] tokens(line)[i]) || digits_value(
                tokens(line)[i],
            ) > u64::MAX) ==> !is_counter_line(line),
{
    let t = tokens(line);
    if t.len() == 17 {
        assert(all_u64_texts(t.drop_first()) <==> forall|i: int|
            1 <= i < 17 ==> is_u64_text(#[trigger] t[i])) by {
            if all_u64_texts(t.drop_first()) {
                assert forall|i: int| 1 <= i < 17 implies is_u64_text(#[trigger] t[i]) by {
                    assert(t.drop_first()[i - 1] == t[i]);
                }
            }
            if forall|i: int| 1 <= i < 17 ==> is_u64_text(#[trigger] t[i]) {
                assert forall|j: int| 0 <= j < t.drop_first().len() implies is_u64_text(
                    #[trigger] t.drop_first()[j],
                ) by {
                    assert(t.drop_first()[j] == t[j + 1]);
                }
            }
        }
    }
    assert forall|i: int|
        1 <= i < t.len() && (!all_digits(#[trigger] t[i]) || digits_value(t[i]) > u64::MAX)
        implies !is_counter_line(line) by {
        if t.len() == 17 {
            assert(t.drop_first()[i - 1] == t[i]);
        }
    }
}

/// Receive counters of an interface.
pub struct RXStats {
    pub octets: u64,
    pub packets: u64,
    pub errors: u64,
    pub drops: u64,
    pub fifo: u64,
    pub compressed: u64,
    pub frames: u64,
    pub multicast: u64,
}

impl RXStats {
    /// The counters in the order of a counter line.
    pub open spec fn fields(self) -> Seq<u64> {
        seq![
            self.octets,
            self.packets,
            self.errors,
            self.drops,
            self.fifo,
            self.compressed,
            self.frames,
            self.multicast,
        ]
    }

    fn splat(stats: &[u64]) -> (r: RXStats)
        requires
            stats@.len() >= 8,
        ensures
            r.fields() == stats@.subrange(0, 8),
    {
        let r = RXStats {
            octets: stats[0],
            packets: stats[1],
            errors: stats[2],
            drops: stats[3],
            fifo: stats[4],
            compressed: stats[5],
            frames: stats[6],
            multicast: stats[7],
        };
        assert(r.fields() =~= stats@.subrange(0, 8));
        r
    }
}

/// Transmit counters of an interface.
pub struct TXStats {
    pub octets: u64,
    pub packets: u64,
    pub errors: u64,
    pub drops: u64,
    pub fifo: u64,
    pub compressed: u64,
    pub collisions: u64,
    pub carrier: u64,
}

impl TXStats {
    /// The counters in the order of a counter line.
    pub open spec fn fields(self) -> Seq<u64> {
        seq![
            self.octets,
            self.packets,
            self.errors,
            self.drops,
            self.fifo,
            self.compressed,
            self.collisions,
            self.carrier,
        ]
    }

    fn splat(stats: &[u64]) -> (r: TXStats)
        requires
            stats@.len() >= 8,
        ensures
            r.fields() == stats@.subrange(0, 8),
    {
        let r = TXStats {
            octets: stats[0],
            packets: stats[1],
            errors: stats[2],
            drops: stats[3],
            fifo: stats[4],
            compressed: stats[5],
            collisions: stats[6],
            carrier: stats[7],
        };
        assert(r.fields() =~= stats@.subrange(0, 8));
        r
    }
}

/// The counters of one interface, with the width of its widest counter text.
pub struct IFStats {
    pub name: String,
    pub width: usize,
    pub rx: RXStats,
    pub tx: TXStats,
}

impl IFStats {
    /// The sixteen counters in the order of a counter line.
    pub open spec fn counters(&self) -> Seq<u64> {
        self.rx.fields() + self.tx.fields()
    }

    /// The record that the counter line `line` describes.
    pub open spec fn describes(&self, line: Seq<char>) -> bool {
        let t = tokens(line);
        &&& self.name@ == t[0]
        &&& self.counters() == text_values(t.drop_first())
        &&& self.width as nat == max_len(t.drop_first())
    }

    fn splat(name: String, width: usize, rx: RXStats, tx: TXStats) -> (r: IFStats)
        ensures
            r.name == name,
            r.width == width,
            r.rx == rx,
            r.tx == tx,
    {
        IFStats { name, width, rx, tx }
    }

    fn field_to_u64(field: &str) -> (r: Result<u64, String>)
        ensures
            match r {
                Ok(v) => is_u64_text(field@) && v == digits_value(field@) as u64,
                Err(e) => !is_u64_text(field@) && e@ == parse_error(),
            },
    {
        match parse_u64(field) {
            Some(f) => Ok(f),
            None => Err(String::from_str("error parsing /proc/net/dev interface data")),
        }
    }

    fn convert_fields(interface_fields: &Vec<&str>) -> (r: Result<(usize, Vec<u64>), String>)
        ensures
            match r {
                Ok((w, v)) => all_u64_texts(views(interface_fields@)) && w as nat == max_len(
                    views(interface_fields@),
                ) && v@ == text_values(views(interface_fields@)),
                Err(e) => !all_u64_texts(views(interface_fields@)) && e@ == parse_error(),
            },
    {
        let ghost ts = views(interface_fields@);
        let mut width: usize = 0;
        let mut stats: Vec<u64> = Vec::with_capacity(interface_fields.len());
        let mut i: usize = 0;
        while i < interface_fields.len()
            invariant
                ts == views(interface_fields@),
                i <= ts.len(),
                all_u64_texts(ts.subrange(0, i as int)),
                width as nat == max_len(ts.subrange(0, i as int)),
                stats@ == text_values(ts.subrange(0, i as int)),
            decreases ts.len() - i,
        {
            let f = interface_fields[i];
            let len = f.unicode_len();
            let ghost pre = ts.subrange(0, i as int);
            let ghost cur = ts.subrange(0, i + 1);
            assert(cur.drop_last() =~= pre);
            assert(cur.last() == f@);
            match Self::field_to_u64(f) {
                Ok(v) => {
                    if len > width {
                        width = len;
                    }
                    stats.push(v);
                    assert(stats@ =~= text_values(cur));
                },
                Err(e) => {
                    assert(!is_u64_text(ts[i as int]));
                    return Err(e);
                },
            }
            i = i + 1;
        }
        assert(ts.subrange(0, i as int) =~= ts);
        Ok((width, stats))
    }

    /// Reads one counter line: the interface name (kept with its colon) and
    /// sixteen counters, receive first, then transmit.
    pub fn new(netdev_line: &str) -> (r: Result<IFStats, String>)
        ensures
            match r {
                Ok(st) => is_counter_line(netdev_line@) && st.describes(netdev_line@),
                Err(e) => !is_counter_line(netdev_line@) && e@ == parse_error(),
            },
    {
        let mut interface_fields = split_whitespace(netdev_line);
        let ghost t = tokens(netdev_line@);
        if interface_fields.len() != 17 {
            return Err(String::from_str("error parsing /proc/net/dev interface data"));
        }
        let ghost all = interface_fields@;
        let interface_name = interface_fields.remove(0);
        assert(views(interface_fields@) =~= t.drop_first()) by {
            assert(interface_fields@ =~= all.drop_first());
        }
        let (width, interface_stats) = match Self::convert_fields(&interface_fields) {
            Ok(c) => c,
            Err(e) => {
                return Err(e);
            },
        };
        let rx_stats = RXStats::splat(&interface_stats.as_slice()[0..8]);
        let tx_stats = TXStats::splat(&interface_stats.as_slice()[8..16]);
        let r = IFStats::splat(String::from_str(interface_name), width, rx_stats, tx_stats);
        assert(r.counters() =~= interface_stats@);
        Ok(r)
    }

    /// Whether the report shows this interface: loopback only on request.
    pub fn is_shown(&self, show_lo: bool) -> (r: bool)
        ensures
            r == (show_lo || self.name@ != LOOPBACK@),
    {
        show_lo || !same_text(self.name.as_str(), LOOPBACK)
    }

    /// The printed report of this interface.
    pub open spec fn report_text(&self, scale: Scale, precision: nat) -> Seq<char> {
        report_of(self.name@, self.counters(), self.width as nat, scale, precision)
    }

    /// The report of this interface, with byte counts on `scale`.
    pub fn report(&self, scale: &Scale, precision: usize) -> (r: String)
        ensures
            r@ == self.report_text(*scale, precision as nat),
    {
        let scaled_rx = scale.scaled_bytes(self.rx.octets, precision);
        let scaled_tx = scale.scaled_bytes(self.tx.octets, precision);
        let rx_len = scaled_rx.as_str().unicode_len();
        let tx_len = scaled_tx.as_str().unicode_len();
        let mut width = self.width;
        if rx_len > width {
            width = rx_len;
        }
        if tx_len > width {
            width = tx_len;
        }
        proof {
            let c = self.counters();
            assert(c[0] == self.rx.octets && c[1] == self.rx.packets && c[2] == self.rx.errors
                && c[3] == self.rx.drops && c[4] == self.rx.fifo && c[5] == self.rx.compressed
                && c[6] == self.rx.frames && c[7] == self.rx.multicast);
            assert(c[8] == self.tx.octets && c[9] == self.tx.packets && c[10] == self.tx.errors
                && c[11] == self.tx.drops && c[12] == self.tx.fifo && c[13] == self.tx.compressed
                && c[14] == self.tx.collisions && c[15] == self.tx.carrier);
        }
        let mut out = String::new();
        out.append("\n");
        out.append(self.name.as_str());
        out.append("\n\n");
        push_row(&mut out, "RX Bytes      ", scaled_rx.as_str(), "TX Bytes      ", scaled_tx.as_str(), width);
        push_counter_row(&mut out, "RX Packets    ", self.rx.packets, "TX Packets    ", self.tx.packets, width);
        push_counter_row(&mut out, "RX Errors     ", self.rx.errors, "TX Errors     ", self.tx.errors, width);
        push_counter_row(&mut out, "RX Drops      ", self.rx.drops, "TX Drops      ", self.tx.drops, width);
        push_counter_row(&mut out, "RX FIFO       ", self.rx.fifo, "TX FIFO       ", self.tx.fifo, width);
        push_counter_row(&mut out, "RX Compressed ", self.rx.compressed, "TX Compressed ", self.tx.compressed, width);
        push_counter_row(&mut out, "RX Frames     ", self.rx.frames, "TX Collisions ", self.tx.collisions, width);
        push_counter_row(&mut out, "RX Multicast  ", self.rx.multicast, "TX Carrier    ", self.tx.carrier, width);
        out
    }
}

fn push_row(out: &mut String, rx_label: &str, rx: &str, tx_label: &str, tx: &str, width: usize)
    ensures
        final(out)@ == old(out)@ + row(rx_label@, rx@, tx_label@, tx@, width as nat),
{
    out.append(rx_label);
    push_right_aligned(out, rx, width);
    out.append("  |  ");
    out.append(tx_label);
    push_right_aligned(out, tx, width);
    out.append("\n");
    assert(out@ =~= old(out)@ + row(rx_label@, rx@, tx_label@, tx@, width as nat));
}

fn push_counter_row(out: &mut String, rx_label: &str, rx: u64, tx_label: &str, tx: u64, width: usize)
    ensures
        final(out)@ == old(out)@ + row(
            rx_label@,
            digits_of(rx as nat),
            tx_label@,
            digits_of(tx as nat),
            width as nat,
        ),
{
    let mut rx_text = String::new();
    push_decimal(&mut rx_text, rx as u128);
    let mut tx_text = String::new();
    push_decimal(&mut tx_text, tx as u128);
    assert(rx_text@ =~= digits_of(rx as nat));
    assert(tx_text@ =~= digits_of(tx as nat));
    push_row(out, rx_label, rx_text.as_str(), tx_label, tx_text.as_str(), width);
}

} // verus!
