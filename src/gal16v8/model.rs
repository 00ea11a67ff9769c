//! The GAL16V8 architecture as spec functions over the fuse vector.
use vstd::prelude::*;

use super::{ColSignal, ElaboratedOLMC, Mode, OLMCType};

verus! {

/// Fuse 2192: SYN.
pub open spec fn syn_bit(f: Seq<bool>) -> bool {
    f[2192]
}

/// Fuse 2193: AC0.
pub open spec fn ac0_bit(f: Seq<bool>) -> bool {
    f[2193]
}

/// Fuses 2048..2056: the output polarity of each macrocell.
pub open spec fn xor_bit(f: Seq<bool>, i: int) -> bool {
    f[2048 + i]
}

/// Fuses 2120..2128: the AC1 bit of each macrocell.
pub open spec fn ac1_bit(f: Seq<bool>, i: int) -> bool {
    f[2120 + i]
}

/// Fuses 2128..2192: the product-term enable of each row.
pub open spec fn ptd_bit(f: Seq<bool>, r: int) -> bool {
    f[2128 + r]
}

/// Fuses 0..2048: the AND array, 64 rows of 32 columns.
pub open spec fn grid_bits(f: Seq<bool>) -> Seq<bool> {
    f.subrange(0, 2048)
}

/// The 32 fuses of row `r` of the AND array.
pub open spec fn row_fuses(f: Seq<bool>, r: int) -> Seq<bool> {
    f.subrange(r * 32, r * 32 + 32)
}

/// Fuses 2056..2120: the 64-bit user signature.
pub open spec fn signature_bits(f: Seq<bool>) -> Seq<bool> {
    f.subrange(2056, 2120)
}

/// The number whose binary digits, most significant first, are `bits`.
pub open spec fn packed_value(bits: Seq<bool>) -> nat
    decreases bits.len(),
{
    if bits.len() == 0 {
        0
    } else {
        2 * packed_value(bits.drop_last()) + if bits.last() {
            1nat
        } else {
            0nat
        }
    }
}

/// Two to the power `n`.
pub open spec fn pow2_of(n: nat) -> nat
    decreases n,
{
    if n == 0 {
        1
    } else {
        2 * pow2_of((n - 1) as nat)
    }
}

/// Octet `k` of the signature, packed from eight consecutive fuses.
pub open spec fn signature_octet(f: Seq<bool>, k: int) -> u8 {
    packed_value(signature_bits(f).subrange(8 * k, 8 * k + 8)) as u8
}

/// The mode selected by SYN and AC0; `None` for the invalid pair.
pub open spec fn mode_of(syn: bool, ac0: bool) -> Option<Mode> {
    if !syn && ac0 {
        Some(Mode::Registered)
    } else if syn && ac0 {
        Some(Mode::Complex)
    } else if syn && !ac0 {
        Some(Mode::Simple)
    } else {
        None
    }
}

/// The same column signal with the opposite polarity.
pub open spec fn complement_of(c: ColSignal) -> ColSignal {
    match c {
        ColSignal::Pin { id, n } => ColSignal::Pin { id, n: !n },
        ColSignal::FlopOut { olmc, n } => ColSignal::FlopOut { olmc, n: !n },
    }
}

/// In registered mode, the kind of macrocell `i`.
pub open spec fn registered_olmc_type(f: Seq<bool>, i: int) -> OLMCType {
    if ac1_bit(f, i) {
        OLMCType::CombFeedback
    } else {
        OLMCType::Reg
    }
}

/// In registered mode, the signal that macrocell `i` feeds back into the
/// array: its flop output, or its output pin `19 - i` when AC1 is set.
pub open spec fn feedback_of(f: Seq<bool>, i: int) -> ColSignal {
    if ac1_bit(f, i) {
        ColSignal::Pin { id: (19 - i) as u32, n: false }
    } else {
        ColSignal::FlopOut { olmc: i as usize, n: false }
    }
}

/// Column `k` of the AND array in registered mode: for each macrocell `i`,
/// pin `i + 2`, its complement, the feedback of `i`, its complement.
pub open spec fn column(f: Seq<bool>, k: int) -> ColSignal {
    let i = k / 4;
    let direct = if k % 4 < 2 {
        ColSignal::Pin { id: (i + 2) as u32, n: false }
    } else {
        feedback_of(f, i)
    };
    if k % 2 == 0 {
        direct
    } else {
        complement_of(direct)
    }
}

/// The 32 column signals of the AND array in registered mode.
pub open spec fn column_table(f: Seq<bool>) -> Seq<ColSignal> {
    Seq::new(32, |k: int| column(f, k))
}

/// The columns whose fuse is intact (`false`), in column order.
pub open spec fn kept_columns(fuses: Seq<bool>, cols: Seq<ColSignal>) -> Seq<ColSignal>
    decreases fuses.len(),
{
    if fuses.len() == 0 {
        Seq::empty()
    } else {
        let rest = kept_columns(fuses.drop_last(), cols);
        if fuses.last() {
            rest
        } else {
            rest.push(cols[fuses.len() - 1])
        }
    }
}

/// The indices of the intact fuses, in increasing order.
pub open spec fn kept_indices(fuses: Seq<bool>) -> Seq<int>
    decreases fuses.len(),
{
    if fuses.len() == 0 {
        Seq::empty()
    } else {
        let rest = kept_indices(fuses.drop_last());
        if fuses.last() {
            rest
        } else {
            rest.push(fuses.len() - 1)
        }
    }
}

/// The product term of row `r` over the column table `cols`.
pub open spec fn row_product(f: Seq<bool>, cols: Seq<ColSignal>, r: int) -> Seq<ColSignal> {
    kept_columns(row_fuses(f, r), cols)
}

/// The product term of row `r` in registered mode.
pub open spec fn product_of(f: Seq<bool>, r: int) -> Seq<ColSignal> {
    row_product(f, column_table(f), r)
}

/// A product is trivially false when it holds a signal and its complement.
pub open spec fn is_bottom_product(p: Seq<ColSignal>) -> bool {
    exists|a: int, b: int|
        0 <= a < p.len() && 0 <= b < p.len() && #[trigger] p[b] == complement_of(#[trigger] p[a])
}

/// A row contributes to a sum when it is enabled and not trivially false.
pub open spec fn row_contributes(f: Seq<bool>, cols: Seq<ColSignal>, r: int) -> bool {
    ptd_bit(f, r) && !is_bottom_product(row_product(f, cols, r))
}

/// The rows of `lo..hi` that contribute to a sum, in increasing order.
pub open spec fn contributing_rows(f: Seq<bool>, cols: Seq<ColSignal>, lo: int, hi: int) -> Seq<
    int,
>
    decreases hi - lo,
{
    if hi <= lo {
        Seq::empty()
    } else {
        let rest = contributing_rows(f, cols, lo, hi - 1);
        if row_contributes(f, cols, hi - 1) {
            rest.push(hi - 1)
        } else {
            rest
        }
    }
}

/// The sum of the product terms of `rows`.
pub open spec fn sum_of_rows(f: Seq<bool>, cols: Seq<ColSignal>, rows: Seq<int>) -> Seq<
    Seq<ColSignal>,
> {
    rows.map_values(|r: int| row_product(f, cols, r))
}

/// The first row of the sum of a macrocell of kind `ty`: a macrocell with
/// combinational feedback keeps its first row for the output enable.
pub open spec fn first_sum_row(ty: OLMCType, m: int) -> int {
    if ty is CombFeedback {
        8 * m + 1
    } else {
        8 * m
    }
}

/// The sum term of macrocell `m` of kind `ty` over the column table `cols`.
pub open spec fn sum_for(f: Seq<bool>, cols: Seq<ColSignal>, m: int, ty: OLMCType) -> Seq<
    Seq<ColSignal>,
> {
    sum_of_rows(f, cols, contributing_rows(f, cols, first_sum_row(ty, m), 8 * m + 8))
}

/// The sum term of macrocell `m` in registered mode.
pub open spec fn sum_term_of(f: Seq<bool>, m: int) -> Seq<Seq<ColSignal>> {
    sum_for(f, column_table(f), m, registered_olmc_type(f, m))
}

/// `cell` is macrocell `i` of the registered-mode device programmed by `f`.
pub open spec fn elaborated_cell(cell: ElaboratedOLMC, f: Seq<bool>, i: int) -> bool {
    match cell {
        ElaboratedOLMC::Registered { idx, d } => {
            &&& !ac1_bit(f, i)
            &&& idx == i
            &&& d.xor == xor_bit(f, i)
            &&& d.sig@ == sum_term_of(f, i)
        },
        ElaboratedOLMC::Complex { idx, d, oe } => {
            &&& ac1_bit(f, i)
            &&& idx == i
            &&& d.xor == xor_bit(f, i)
            &&& d.sig@ == sum_term_of(f, i)
            &&& oe@ == product_of(f, 8 * i)
        },
    }
}

/// `cells` are the eight macrocells of the registered-mode device
/// programmed by `f`, in order.
pub open spec fn elaboration_of(cells: Seq<ElaboratedOLMC>, f: Seq<bool>) -> bool {
    &&& cells.len() == 8
    &&& forall|i: int| 0 <= i < 8 ==> elaborated_cell(#[trigger] cells[i], f, i)
}

} // verus!
