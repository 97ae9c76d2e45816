use vstd::prelude::*;

use crate::decimal::{digits_of, pow10, push_decimal, push_zero_padded, zero_padded};
use crate::options::Precision;
use crate::text::same_text;

verus! {

/// Divisor of raw bytes.
pub const B_DIV: u64 = 1;

/// Divisors of the decimal units, powers of 1000.

pub const KB_DIV: u64 = 1000;

pub const MB_DIV: u64 = KB_DIV * KB_DIV;

pub const GB_DIV: u64 = MB_DIV * KB_DIV;

pub const TB_DIV: u64 = GB_DIV * KB_DIV;

pub const PB_DIV: u64 = TB_DIV * KB_DIV;

/// Divisors of the binary units, powers of 1024.
pub const KIB_DIV: u64 = 1024;

pub const MIB_DIV: u64 = KIB_DIV * KIB_DIV;

pub const GIB_DIV: u64 = MIB_DIV * KIB_DIV;

pub const TIB_DIV: u64 = GIB_DIV * KIB_DIV;

pub const PIB_DIV: u64 = TIB_DIV * KIB_DIV;

/// `sig_digits`, capped at the largest precision a report may show.
pub fn max_precision_or(sig_digits: usize) -> (r: usize)
    ensures
        r == min_nat(sig_digits as nat, Precision::MAX as nat),
{
    if sig_digits > Precision::MAX {
        Precision::MAX
    } else {
        sig_digits
    }
}

pub open spec fn min_nat(a: nat, b: nat) -> nat {
    if a <= b {
        a
    } else {
        b
    }
}

/// `n / d` rounded to the nearest integer, ties to the even one. The
/// quotient is exact, so a count is never shown off by a rounding step of
/// the division itself.
pub open spec fn rounded_quotient(n: nat, d: nat) -> nat {
    let q = n / d;
    let r = n % d;
    if 2 * r > d || (2 * r == d && q % 2 == 1) {
        q + 1
    } else {
        q
    }
}

/// The decimal text of `q / 10^p` with exactly `p` digits after the point.
pub open spec fn fixed_point(q: nat, p: nat) -> Seq<char> {
    if p == 0 {
        digits_of(q)
    } else {
        digits_of(q / pow10(p)) + "."@ + zero_padded(digits_of(q % pow10(p)), p)
    }
}

/// How a byte count is shown: in raw bytes, in a fixed unit, or in the
/// largest decimal or binary unit that the count reaches.
#[derive(Clone, Copy, Debug, PartialEq, Eq, Structural)]
pub enum Scale {
    Dyn10,
    Dyn2,
    Raw,
    Kilo,
    Mega,
    Giga,
    Tera,
    Peta,
    Kibi,
    Mebi,
    Gibi,
    Tebi,
    Pebi,
}

/// The scale that an option value names.
pub open spec fn scale_named(name: Seq<char>) -> Option<Scale> {
    if name == "dyn"@ || name == "dyn10"@ {
        Some(Scale::Dyn10)
    } else if name == "dyn2"@ {
        Some(Scale::Dyn2)
    } else if name == "raw"@ {
        Some(Scale::Raw)
    } else if name == "kb"@ {
        Some(Scale::Kilo)
    } else if name == "mb"@ {
        Some(Scale::Mega)
    } else if name == "gb"@ {
        Some(Scale::Giga)
    } else if name == "tb"@ {
        Some(Scale::Tera)
    } else if name == "pb"@ {
        Some(Scale::Peta)
    } else if name == "kib"@ {
        Some(Scale::Kibi)
    } else if name == "mib"@ {
        Some(Scale::Mebi)
    } else if name == "gib"@ {
        Some(Scale::Gibi)
    } else if name == "tib"@ {
        Some(Scale::Tebi)
    } else if name == "pib"@ {
        Some(Scale::Pebi)
    } else {
        None
    }
}

impl Scale {
    pub const DEFAULT: Scale = Scale::Dyn10;

    /// The scale named `s`, or an error that quotes `s`.
    pub fn from_string(s: String) -> (r: Result<Scale, String>)
        ensures
            match r {
                Ok(sc) => scale_named(s@) == Some(sc),
                Err(e) => scale_named(s@) is None && e@ == "'"@ + s@ + "' is not a valid scale value"@,
            },
    {
        let t = s.as_str();
        if same_text(t, "dyn") || same_text(t, "dyn10") {
            Ok(Self::Dyn10)
        } else if same_text(t, "dyn2") {
            Ok(Self::Dyn2)
        } else if same_text(t, "raw") {
            Ok(Self::Raw)
        } else if same_text(t, "kb") {
            Ok(Self::Kilo)
        } else if same_text(t, "mb") {
            Ok(Self::Mega)
        } else if same_text(t, "gb") {
            Ok(Self::Giga)
        } else if same_text(t, "tb") {
            Ok(Self::Tera)
        } else if same_text(t, "pb") {
            Ok(Self::Peta)
        } else if same_text(t, "kib") {
            Ok(Self::Kibi)
        } else if same_text(t, "mib") {
            Ok(Self::Mebi)
        } else if same_text(t, "gib") {
            Ok(Self::Gibi)
        } else if same_text(t, "tib") {
            Ok(Self::Tebi)
        } else if same_text(t, "pib") {
            Ok(Self::Pebi)
        } else {
            let mut e = String::from_str("'");
            e.append(t);
            e.append("' is not a valid scale value");
            Err(e)
        }
    }

    pub open spec fn is_dynamic(self) -> bool {
        self is Dyn10 || self is Dyn2
    }

    /// The fixed unit used for `count`: a dynamic scale picks the largest
    /// unit whose divisor does not exceed `count` (bytes below the first),
    /// a fixed scale is its own unit.
    pub open spec fn unit_for(self, count: nat) -> Scale {
        match self {
            Scale::Dyn10 => {
                if count < KB_DIV {
                    Scale::Raw
                } else if count < MB_DIV {
                    Scale::Kilo
                } else if count < GB_DIV {
                    Scale::Mega
                } else if count < TB_DIV {
                    Scale::Giga
                } else if count < PB_DIV {
                    Scale::Tera
                } else {
                    Scale::Peta
                }
            },
            Scale::Dyn2 => {
                if count < KIB_DIV {
                    Scale::Raw
                } else if count < MIB_DIV {
                    Scale::Kibi
                } else if count < GIB_DIV {
                    Scale::Mebi
                } else if count < TIB_DIV {
                    Scale::Gibi
                } else if count < PIB_DIV {
                    Scale::Tebi
                } else {
                    Scale::Pebi
                }
            },
            _ => self,
        }
    }

    /// The divisor of a fixed unit.
    pub open spec fn divisor(self) -> nat {
        match self {
            Scale::Kilo => KB_DIV as nat,
            Scale::Mega => MB_DIV as nat,
            Scale::Giga => GB_DIV as nat,
            Scale::Tera => TB_DIV as nat,
            Scale::Peta => PB_DIV as nat,
            Scale::Kibi => KIB_DIV as nat,
            Scale::Mebi => MIB_DIV as nat,
            Scale::Gibi => GIB_DIV as nat,
            Scale::Tebi => TIB_DIV as nat,
            Scale::Pebi => PIB_DIV as nat,
            _ => B_DIV as nat,
        }
    }

    /// The number of digits after the point that a fixed unit can
    /// meaningfully show, capped at `Precision::MAX`.
    pub open spec fn max_precision(self) -> nat {
        match self {
            Scale::Kilo | Scale::Kibi => min_nat(3, Precision::MAX as nat),
            Scale::Mega | Scale::Mebi => min_nat(6, Precision::MAX as nat),
            Scale::Giga | Scale::Gibi => min_nat(9, Precision::MAX as nat),
            Scale::Tera | Scale::Tebi => min_nat(12, Precision::MAX as nat),
            Scale::Peta | Scale::Pebi => min_nat(15, Precision::MAX as nat),
            _ => 0,
        }
    }

    /// The suffix of a fixed unit.
    pub open spec fn suffix(self) -> Seq<char> {
        match self {
            Scale::Kilo => "kB"@,
            Scale::Mega => "MB"@,
            Scale::Giga => "GB"@,
            Scale::Tera => "TB"@,
            Scale::Peta => "PB"@,
            Scale::Kibi => "KiB"@,
            Scale::Mebi => "MiB"@,
            Scale::Gibi => "GiB"@,
            Scale::Tebi => "TiB"@,
            Scale::Pebi => "PiB"@,
            _ => "B"@,
        }
    }

    /// The number of digits shown after the point for `count`.
    pub open spec fn precision_for(self, count: nat, requested: nat) -> nat {
        min_nat(requested, self.unit_for(count).max_precision())
    }

    /// The text of `count` bytes on this scale: the count divided by the
    /// unit's divisor, rounded to `precision_for` digits after the point,
    /// then a space and the unit's suffix.
    pub open spec fn scaled_text(self, count: nat, requested: nat) -> Seq<char> {
        let unit = self.unit_for(count);
        let p = self.precision_for(count, requested);
        fixed_point(rounded_quotient(count * pow10(p), unit.divisor()), p) + " "@ + unit.suffix()
    }

    /// The fixed unit used for `count`.
    pub fn resolve(&self, count: u64) -> (r: Scale)
        ensures
            r == self.unit_for(count as nat),
            !r.is_dynamic(),
    {
        match self {
            Scale::Dyn10 => {
                if count < KB_DIV {
                    Scale::Raw
                } else if count < MB_DIV {
                    Scale::Kilo
                } else if count < GB_DIV {
                    Scale::Mega
                } else if count < TB_DIV {
                    Scale::Giga
                } else if count < PB_DIV {
                    Scale::Tera
                } else {
                    Scale::Peta
                }
            },
            Scale::Dyn2 => {
                if count < KIB_DIV {
                    Scale::Raw
                } else if count < MIB_DIV {
                    Scale::Kibi
                } else if count < GIB_DIV {
                    Scale::Mebi
                } else if count < TIB_DIV {
                    Scale::Gibi
                } else if count < PIB_DIV {
                    Scale::Tebi
                } else {
                    Scale::Pebi
                }
            },
            _ => *self,
        }
    }

    /// Divisor, largest precision and suffix of the unit used for `count`.
    pub fn format(&self, count: u64) -> (r: (u64, usize, &'static str))
        ensures
            r.0 as nat == self.unit_for(count as nat).divisor(),
            r.1 as nat == self.unit_for(count as nat).max_precision(),
            r.2@ == self.unit_for(count as nat).suffix(),
    {
        match self.resolve(count) {
            Scale::Kilo => (KB_DIV, max_precision_or(3), "kB"),
            Scale::Mega => (MB_DIV, max_precision_or(6), "MB"),
            Scale::Giga => (GB_DIV, max_precision_or(9), "GB"),
            Scale::Tera => (TB_DIV, max_precision_or(12), "TB"),
            Scale::Peta => (PB_DIV, max_precision_or(15), "PB"),
            Scale::Kibi => (KIB_DIV, max_precision_or(3), "KiB"),
            Scale::Mebi => (MIB_DIV, max_precision_or(6), "MiB"),
            Scale::Gibi => (GIB_DIV, max_precision_or(9), "GiB"),
            Scale::Tebi => (TIB_DIV, max_precision_or(12), "TiB"),
            Scale::Pebi => (PIB_DIV, max_precision_or(15), "PiB"),
            _ => (B_DIV, 0, "B"),
        }
    }

    /// `count` bytes as text on this scale, with at most `requested_prec`
    /// digits after the point.
    pub fn scaled_bytes(&self, count: u64, requested_prec: usize) -> (r: String)
        ensures
            r@ == self.scaled_text(count as nat, requested_prec as nat),
    {
        let (divisor, usable_prec, suffix) = self.format(count);
        let p: usize = if usable_prec < requested_prec {
            usable_prec
        } else {
            requested_prec
        };
        proof {
            lemma_unit_divisor_positive(self.unit_for(count as nat));
        }
        let pow = pow10_u128(p);
        assert(count as u128 * pow <= u64::MAX as u128 * 100000000) by (nonlinear_arith)
            requires
                pow <= 100000000,
        ;
        let n: u128 = count as u128 * pow;
        let d: u128 = divisor as u128;
        let q0: u128 = n / d;
        let r0: u128 = n % d;
        let q: u128 = if 2 * r0 > d || (2 * r0 == d && q0 % 2 == 1) {
            q0 + 1
        } else {
            q0
        };
        let mut out = String::new();
        if p == 0 {
            push_decimal(&mut out, q);
        } else {
            push_decimal(&mut out, q / pow);
            out.append(".");
            push_zero_padded(&mut out, q % pow, p);
        }
        out.append(" ");
        out.append(suffix);
        out
    }
}

/// `base^k`.
pub open spec fn power(base: nat, k: nat) -> nat
    decreases k,
{
    if k == 0 {
        1
    } else {
        base * power(base, (k - 1) as nat)
    }
}

/// A fixed scale shows every count in its own unit: its divisor and suffix,
/// whatever the magnitude of the count.
pub proof fn lemma_fixed_scale_keeps_unit(scale: Scale, count: u64, requested: usize)
    requires
        !scale.is_dynamic(),
    ensures
        scale.unit_for(count as nat) == scale,
        scale.scaled_text(count as nat, requested as nat) == fixed_point(
            rounded_quotient(
                count as nat * pow10(min_nat(requested as nat, scale.max_precision())),
                scale.divisor(),
            ),
            min_nat(requested as nat, scale.max_precision()),
        ) + " "@ + scale.suffix(),
{
}

/// Dynamic decimal scaling divides by `1000^k` for the largest `k <= 5`
/// with `1000^k <= count`, and by 1 below 1000; from `1000^5` on it stays
/// with petabytes.
pub proof fn lemma_dynamic_decimal_unit(count: u64) -> (k: nat)
    ensures
        k <= 5,
        Scale::Dyn10.unit_for(count as nat).divisor() == power(1000, k),
        k == 0 || power(1000, k) <= count,
        forall|j: nat| j <= 5 && power(1000, j) <= count ==> j <= k,
        count < 1000 ==> Scale::Dyn10.unit_for(count as nat) == Scale::Raw,
        count >= PB_DIV ==> Scale::Dyn10.unit_for(count as nat) == Scale::Peta,
{
    reveal_with_fuel(power, 6);
    if count < KB_DIV {
        0
    } else if count < MB_DIV {
        1
    } else if count < GB_DIV {
        2
    } else if count < TB_DIV {
        3
    } else if count < PB_DIV {
        4
    } else {
        5
    }
}

/// Dynamic binary scaling divides by `1024^k` for the largest `k <= 5`
/// with `1024^k <= count`, and by 1 below 1024; from `1024^5` on it stays
/// with pebibytes.
pub proof fn lemma_dynamic_binary_unit(count: u64) -> (k: nat)
    ensures
        k <= 5,
        Scale::Dyn2.unit_for(count as nat).divisor() == power(1024, k),
        k == 0 || power(1024, k) <= count,
        forall|j: nat| j <= 5 && power(1024, j) <= count ==> j <= k,
        count < 1024 ==> Scale::Dyn2.unit_for(count as nat) == Scale::Raw,
        count >= PIB_DIV ==> Scale::Dyn2.unit_for(count as nat) == Scale::Pebi,
{
    reveal_with_fuel(power, 6);
    if count < KIB_DIV {
        0
    } else if count < MIB_DIV {
        1
    } else if count < GIB_DIV {
        2
    } else if count < TIB_DIV {
        3
    } else if count < PIB_DIV {
        4
    } else {
        5
    }
}

/// A dynamic scale shows zero bytes as `"0 B"`, whatever the precision.
pub proof fn lemma_zero_is_zero_bytes(scale: Scale, requested: usize)
    requires
        scale.is_dynamic(),
    ensures
        scale.scaled_text(0, requested as nat) == "0 B"@,
{
    reveal_strlit("0 B");
    reveal_strlit(" ");
    reveal_strlit("B");
    assert(scale.unit_for(0) == Scale::Raw);
    assert(pow10(0) == 1);
    assert(rounded_quotient(0, 1) == 0);
    assert(digits_of(0) == seq!['0']);
    assert(scale.scaled_text(0, requested as nat) =~= "0 B"@);
}

/// The precision shown never exceeds the requested one nor the unit's
/// largest, and no unit allows more than `Precision::MAX` digits.
pub proof fn lemma_precision_bounded(scale: Scale, count: u64, requested: usize)
    ensures
        scale.precision_for(count as nat, requested as nat) <= requested,
        scale.precision_for(count as nat, requested as nat) <= scale.unit_for(
            count as nat,
        ).max_precision(),
        scale.precision_for(count as nat, requested as nat) == min_nat(
            requested as nat,
            scale.unit_for(count as nat).max_precision(),
        ),
        forall|u: Scale| #[trigger] u.max_precision() <= Precision::MAX,
{
}

/// Scaling keeps no state: the same count, scale and precision always give
/// the same text.
pub proof fn lemma_scaling_is_pure(
    scale1: Scale,
    count1: u64,
    requested1: usize,
    scale2: Scale,
    count2: u64,
    requested2: usize,
)
    requires
        scale1 == scale2,
        count1 == count2,
        requested1 == requested2,
    ensures
        scale1.scaled_text(count1 as nat, requested1 as nat) == scale2.scaled_text(
            count2 as nat,
            requested2 as nat,
        ),
{
}

proof fn lemma_unit_divisor_positive(u: Scale)
    ensures
        u.divisor() >= 1,
{
}

/// `10^p` for the precisions a report can show.
fn pow10_u128(p: usize) -> (r: u128)
    requires
        p <= Precision::MAX,
    ensures
        r as nat == pow10(p as nat),
        1 <= r <= 100000000,
{
    reveal_with_fuel(pow10, 9);
    if p == 0 {
        1
    } else if p == 1 {
        10
    } else if p == 2 {
        100
    } else if p == 3 {
        1000
    } else if p == 4 {
        10000
    } else if p == 5 {
        100000
    } else if p == 6 {
        1000000
    } else if p == 7 {
        10000000
    } else {
        100000000
    }
}

} // verus!
