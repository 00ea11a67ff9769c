//! Properties of the decoder, proved over the model.
use vstd::prelude::*;

use super::emit::{cell_block, cells_text};
use super::model::{
    ac1_bit, column_table, complement_of, contributing_rows, elaborated_cell, first_sum_row,
    is_bottom_product, kept_columns, kept_indices, packed_value, product_of, ptd_bit,
    registered_olmc_type, row_contributes, row_fuses, signature_bits, signature_octet,
    sum_term_of, pow2_of,
};
use super::{ColSignal, ElaboratedOLMC, Gal16V8, FUSE_COUNT};
use crate::emit::{Emit, EmitCtx};

verus! {

/// The position of a signal in the registered-mode column table.
pub open spec fn column_position(c: ColSignal) -> int {
    match c {
        ColSignal::Pin { id, n } => {
            let base = if id <= 9 {
                4 * (id - 2)
            } else {
                4 * (19 - id) + 2
            };
            base + if n {
                1int
            } else {
                0int
            }
        },
        ColSignal::FlopOut { olmc, n } => 4 * olmc + 2 + if n {
            1int
        } else {
            0int
        },
    }
}

/// The registered-mode column table has 32 columns in (direct, inverted)
/// pairs: for each macrocell `i`, column `4i` is pin `i + 2`, and column
/// `4i + 2` is the flop output of `i` when AC1 of `i` is clear, else pin
/// `19 - i`.
pub proof fn lemma_column_table(f: Seq<bool>)
    requires
        f.len() == FUSE_COUNT,
    ensures
        column_table(f).len() == 32,
        forall|k: int|
            0 <= k < 16 ==> #[trigger] column_table(f)[2 * k + 1] == complement_of(
                column_table(f)[2 * k],
            ),
        forall|i: int|
            0 <= i < 8 ==> #[trigger] column_table(f)[4 * i] == (ColSignal::Pin {
                id: (i + 2) as u32,
                n: false,
            }),
        forall|i: int|
            0 <= i < 8 ==> #[trigger] column_table(f)[4 * i + 2] == if ac1_bit(f, i) {
                ColSignal::Pin { id: (19 - i) as u32, n: false }
            } else {
                ColSignal::FlopOut { olmc: i as usize, n: false }
            },
        forall|i: int|
            0 <= i < 8 ==> #[trigger] column_table(f)[4 * i + 3] == complement_of(
                column_table(f)[4 * i + 2],
            ),
{
    assert forall|k: int| 0 <= k < 16 implies #[trigger] column_table(f)[2 * k + 1]
        == complement_of(column_table(f)[2 * k]) by {
        assert((2 * k + 1) / 4 == (2 * k) / 4);
        assert((2 * k + 1) % 4 == (2 * k) % 4 + 1);
    }
    assert forall|i: int| 0 <= i < 8 implies #[trigger] column_table(f)[4 * i + 3]
        == complement_of(column_table(f)[4 * i + 2]) by {
        assert((4 * i + 3) / 4 == i && (4 * i + 2) / 4 == i);
    }
    assert forall|i: int| 0 <= i < 8 implies #[trigger] column_table(f)[4 * i + 2] == if ac1_bit(
        f,
        i,
    ) {
        ColSignal::Pin { id: (19 - i) as u32, n: false }
    } else {
        ColSignal::FlopOut { olmc: i as usize, n: false }
    } by {
        assert((4 * i + 2) / 4 == i);
    }
    assert forall|i: int| 0 <= i < 8 implies #[trigger] column_table(f)[4 * i] == (ColSignal::Pin {
        id: (i + 2) as u32,
        n: false,
    }) by {
        assert((4 * i) / 4 == i);
    }
}

/// Each column of the table sits at its own position: no signal appears in
/// two columns.
pub proof fn lemma_column_positions(f: Seq<bool>)
    requires
        f.len() == FUSE_COUNT,
    ensures
        forall|k: int| 0 <= k < 32 ==> column_position(#[trigger] column_table(f)[k]) == k,
        column_table(f).no_duplicates(),
{
    assert forall|k: int| 0 <= k < 32 implies column_position(#[trigger] column_table(f)[k])
        == k by {
        let i = k / 4;
        assert(k == 4 * i + k % 4);
        assert(0 <= i < 8);
    }
    assert forall|a: int, b: int|
        0 <= a < column_table(f).len() && 0 <= b < column_table(f).len() && a != b implies column_table(
        f,
    )[a] != column_table(f)[b] by {
        assert(column_position(column_table(f)[a]) == a);
        assert(column_position(column_table(f)[b]) == b);
    }
}

proof fn lemma_kept_indices(fuses: Seq<bool>)
    ensures
        forall|m: int|
            0 <= m < kept_indices(fuses).len() ==> 0 <= #[trigger] kept_indices(fuses)[m]
                < fuses.len() && !fuses[kept_indices(fuses)[m]],
        forall|a: int, b: int|
            0 <= a < b < kept_indices(fuses).len() ==> kept_indices(fuses)[a] < kept_indices(
                fuses,
            )[b],
        forall|k: int|
            0 <= k < fuses.len() && !fuses[k] ==> #[trigger] kept_indices(fuses).contains(k),
    decreases fuses.len(),
{
    if fuses.len() > 0 {
        let init = fuses.drop_last();
        lemma_kept_indices(init);
        let rest = kept_indices(init);
        assert forall|k: int| 0 <= k < fuses.len() && !fuses[k] implies #[trigger] kept_indices(
            fuses,
        ).contains(k) by {
            if k < fuses.len() - 1 {
                assert(init[k] == fuses[k]);
                assert(rest.contains(k));
                let m = choose|m: int| 0 <= m < rest.len() && rest[m] == k;
                assert(kept_indices(fuses)[m] == k);
            } else {
                assert(kept_indices(fuses) == rest.push(k));
                assert(kept_indices(fuses)[rest.len() as int] == k);
            }
        }
    }
}

proof fn lemma_kept_columns_select(fuses: Seq<bool>, cols: Seq<ColSignal>)
    requires
        fuses.len() <= cols.len(),
    ensures
        kept_columns(fuses, cols).len() == kept_indices(fuses).len(),
        forall|m: int|
            0 <= m < kept_indices(fuses).len() ==> #[trigger] kept_columns(fuses, cols)[m]
                == cols[kept_indices(fuses)[m]],
    decreases fuses.len(),
{
    if fuses.len() > 0 {
        lemma_kept_columns_select(fuses.drop_last(), cols);
    }
}

/// The product of row `r` holds column `k` exactly when the fuse of row
/// `r` and column `k` is intact; it holds no signal twice, and its factors
/// come in the order of the column table.
pub proof fn lemma_product_extraction(f: Seq<bool>, r: int)
    requires
        f.len() == FUSE_COUNT,
        0 <= r < 64,
    ensures
        forall|k: int|
            0 <= k < 32 ==> (product_of(f, r).contains(#[trigger] column_table(f)[k]) <==> !f[r
                * 32 + k]),
        product_of(f, r).no_duplicates(),
        forall|a: int, b: int|
            0 <= a < b < product_of(f, r).len() ==> column_position(product_of(f, r)[a])
                < column_position(product_of(f, r)[b]),
{
    let fuses = row_fuses(f, r);
    let cols = column_table(f);
    let p = product_of(f, r);
    let ks = kept_indices(fuses);
    lemma_kept_indices(fuses);
    lemma_kept_columns_select(fuses, cols);
    lemma_column_positions(f);
    assert forall|m: int| 0 <= m < p.len() implies column_position(#[trigger] p[m]) == ks[m] by {
        assert(p[m] == cols[ks[m]]);
    }
    assert forall|k: int| 0 <= k < 32 implies (p.contains(#[trigger] column_table(f)[k]) <==> !f[r
        * 32 + k]) by {
        assert(fuses[k] == f[r * 32 + k]);
        if !fuses[k] {
            assert(ks.contains(k));
            let m = choose|m: int| 0 <= m < ks.len() && ks[m] == k;
            assert(p[m] == cols[k]);
        }
        if p.contains(cols[k]) {
            let m = choose|m: int| 0 <= m < p.len() && p[m] == cols[k];
            assert(column_position(p[m]) == ks[m]);
            assert(column_position(cols[k]) == k);
        }
    }
    assert forall|a: int, b: int| 0 <= a < p.len() && 0 <= b < p.len() && a != b implies p[a]
        != p[b] by {
        assert(column_position(p[a]) == ks[a]);
        assert(column_position(p[b]) == ks[b]);
        if a < b {
            assert(ks[a] < ks[b]);
        } else {
            assert(ks[b] < ks[a]);
        }
    }
    assert forall|a: int, b: int| 0 <= a < b < p.len() implies column_position(p[a])
        < column_position(p[b]) by {
        assert(column_position(p[a]) == ks[a]);
        assert(column_position(p[b]) == ks[b]);
    }
}

/// A product that holds a signal and its complement is trivially false;
/// the empty product is not.
pub proof fn lemma_bottom_products(p: Seq<ColSignal>, x: ColSignal)
    ensures
        p.contains(x) && p.contains(complement_of(x)) ==> is_bottom_product(p),
        !is_bottom_product(Seq::<ColSignal>::empty()),
{
    if p.contains(x) && p.contains(complement_of(x)) {
        let a = choose|a: int| 0 <= a < p.len() && p[a] == x;
        let b = choose|b: int| 0 <= b < p.len() && p[b] == complement_of(x);
        assert(p[b] == complement_of(p[a]));
    }
}

proof fn lemma_contributing_rows(f: Seq<bool>, cols: Seq<ColSignal>, lo: int, hi: int)
    ensures
        forall|m: int|
            0 <= m < contributing_rows(f, cols, lo, hi).len() ==> lo <= #[trigger] contributing_rows(
                f,
                cols,
                lo,
                hi,
            )[m] < hi && row_contributes(f, cols, contributing_rows(f, cols, lo, hi)[m]),
        forall|a: int, b: int|
            0 <= a < b < contributing_rows(f, cols, lo, hi).len() ==> contributing_rows(
                f,
                cols,
                lo,
                hi,
            )[a] < contributing_rows(f, cols, lo, hi)[b],
        forall|r: int|
            lo <= r < hi && row_contributes(f, cols, r) ==> #[trigger] contributing_rows(
                f,
                cols,
                lo,
                hi,
            ).contains(r),
    decreases hi - lo,
{
    if hi > lo {
        lemma_contributing_rows(f, cols, lo, hi - 1);
        let rest = contributing_rows(f, cols, lo, hi - 1);
        assert forall|r: int| lo <= r < hi && row_contributes(f, cols, r) implies #[trigger] contributing_rows(
            f,
            cols,
            lo,
            hi,
        ).contains(r) by {
            if r < hi - 1 {
                assert(rest.contains(r));
                let m = choose|m: int| 0 <= m < rest.len() && rest[m] == r;
                assert(contributing_rows(f, cols, lo, hi)[m] == r);
            } else {
                assert(contributing_rows(f, cols, lo, hi)[rest.len() as int] == r);
            }
        }
    }
}

/// The sum of macrocell `m` holds, in row order, the products of exactly
/// the rows of its range that are enabled and not trivially false. Its
/// range is rows `8m..8m+8`, less row `8m` when AC1 of `m` is set.
pub proof fn lemma_sum_membership(f: Seq<bool>, m: int)
    requires
        f.len() == FUSE_COUNT,
        0 <= m < 8,
    ensures
        ({
            let lo = if ac1_bit(f, m) {
                8 * m + 1
            } else {
                8 * m
            };
            let rows = contributing_rows(f, column_table(f), lo, 8 * m + 8);
            &&& sum_term_of(f, m) == rows.map_values(|r: int| product_of(f, r))
            &&& forall|r: int|
                #![trigger rows.contains(r)]
                rows.contains(r) <==> (lo <= r < 8 * m + 8 && ptd_bit(f, r) && !is_bottom_product(
                    product_of(f, r),
                ))
            &&& forall|a: int, b: int| 0 <= a < b < rows.len() ==> rows[a] < rows[b]
        }),
{
    let cols = column_table(f);
    let lo = if ac1_bit(f, m) {
        8 * m + 1
    } else {
        8 * m
    };
    assert(first_sum_row(registered_olmc_type(f, m), m) == lo);
    let rows = contributing_rows(f, cols, lo, 8 * m + 8);
    lemma_contributing_rows(f, cols, lo, 8 * m + 8);
    assert(sum_term_of(f, m) =~= rows.map_values(|r: int| product_of(f, r)));
    assert forall|r: int| #![trigger rows.contains(r)] rows.contains(r) implies (lo <= r < 8 * m
        + 8 && ptd_bit(f, r) && !is_bottom_product(product_of(f, r))) by {
        let k = choose|k: int| 0 <= k < rows.len() && rows[k] == r;
        assert(row_contributes(f, cols, rows[k]));
    }
}

proof fn lemma_packed_bits(bits: Seq<bool>)
    ensures
        packed_value(bits) < pow2_of(bits.len()),
        forall|j: int|
            0 <= j < bits.len() ==> ((packed_value(bits) / #[trigger] pow2_of(
                (bits.len() - 1 - j) as nat,
            )) % 2 == 1) == bits[j],
    decreases bits.len(),
{
    if bits.len() > 0 {
        let init = bits.drop_last();
        lemma_packed_bits(init);
        let n = bits.len();
        let p = packed_value(init);
        let b: nat = if bits.last() {
            1
        } else {
            0
        };
        assert(packed_value(bits) == 2 * p + b);
        assert forall|j: int| 0 <= j < n implies ((packed_value(bits) / #[trigger] pow2_of(
            (n - 1 - j) as nat,
        )) % 2 == 1) == bits[j] by {
            if j == n - 1 {
                assert(pow2_of(0) == 1);
                assert((2 * p + b) % 2 == b) by (nonlinear_arith)
                    requires
                        b < 2,
                ;
                assert(bits[j] == bits.last());
                assert(pow2_of((n - 1 - j) as nat) == 1);
                assert(packed_value(bits) / pow2_of((n - 1 - j) as nat) == 2 * p + b);
            } else {
                let e = (n - 2 - j) as nat;
                let q = pow2_of(e);
                assert(pow2_of((n - 1 - j) as nat) == 2 * q);
                lemma_pow2_positive(e);
                assert((2 * p + b) / 2 == p) by (nonlinear_arith)
                    requires
                        b < 2,
                ;
                vstd::arithmetic::div_mod::lemma_div_denominator((2 * p + b) as int, 2, q as int);
                assert((2 * p + b) / (2 * q) == p / q);
                assert(init.len() - 1 - j == e);
                assert(((p / pow2_of(e)) % 2 == 1) == init[j]);
                assert(init[j] == bits[j]);
                assert(packed_value(bits) / pow2_of((n - 1 - j) as nat) == p / q);
            }
        }
    }
}

proof fn lemma_pow2_positive(n: nat)
    ensures
        pow2_of(n) > 0,
    decreases n,
{
    if n > 0 {
        lemma_pow2_positive((n - 1) as nat);
    }
}

/// Unpacking the signature octets, most significant bit first, gives back
/// the signature fuses `2056..2120`.
pub proof fn lemma_signature_round_trip(f: Seq<bool>)
    requires
        f.len() == FUSE_COUNT,
    ensures
        forall|k: int, j: int|
            0 <= k < 8 && 0 <= j < 8 ==> ((#[trigger] signature_octet(f, k) as nat / pow2_of(
                (7 - j) as nat,
            )) % 2 == 1) == #[trigger] f[2056 + 8 * k + j],
{
    assert forall|k: int, j: int| 0 <= k < 8 && 0 <= j < 8 implies ((#[trigger] signature_octet(
        f,
        k,
    ) as nat / pow2_of((7 - j) as nat)) % 2 == 1) == #[trigger] f[2056 + 8 * k + j] by {
        let octet = signature_bits(f).subrange(8 * k, 8 * k + 8);
        lemma_packed_bits(octet);
        reveal_with_fuel(pow2_of, 9);
        assert(packed_value(octet) < 256);
        assert(octet[j] == f[2056 + 8 * k + j]);
        assert(pow2_of((octet.len() - 1 - j) as nat) == pow2_of((7 - j) as nat));
    }
}

proof fn lemma_cells_text_agree(
    xs: Seq<ElaboratedOLMC>,
    ys: Seq<ElaboratedOLMC>,
    f: Seq<bool>,
    ctx: &EmitCtx,
)
    requires
        xs.len() == ys.len(),
        forall|i: int|
            0 <= i < xs.len() ==> elaborated_cell(#[trigger] xs[i], f, i) && elaborated_cell(
                ys[i],
                f,
                i,
            ),
    ensures
        cells_text(xs, ctx) == cells_text(ys, ctx),
    decreases xs.len(),
{
    if xs.len() > 0 {
        let last = xs.len() - 1;
        assert(elaborated_cell(xs[last], f, last));
        assert(elaborated_cell(ys[last], f, last));
        lemma_cells_text_agree(xs.drop_last(), ys.drop_last(), f, ctx);
        assert(cell_block(xs.last(), last, ctx) == cell_block(ys.last(), last, ctx));
    }
}

/// Rendering is a function of the fuse map and the pin names: two devices
/// decoded from the same fuses render to the same text.
pub proof fn lemma_emission_determined(a: &Gal16V8, b: &Gal16V8, ctx: &EmitCtx)
    requires
        a.wf(),
        b.wf(),
        a.fuses@ == b.fuses@,
    ensures
        a.emitted(ctx) == b.emitted(ctx),
{
    lemma_cells_text_agree(a.elaboration@, b.elaboration@, a.fuses@, ctx);
}

} // verus!
