//! The GAL16V8 fuse-map decoder and macrocell elaborator.
use vstd::prelude::*;

pub mod emit;
pub mod laws;
pub mod model;

use self::model::{
    ac0_bit, ac1_bit, column, column_table, complement_of, contributing_rows, elaboration_of,
    first_sum_row, grid_bits, is_bottom_product, kept_columns, mode_of, packed_value, pow2_of,
    ptd_bit, row_contributes, row_fuses, row_product, signature_octet, sum_for, sum_of_rows,
    syn_bit, xor_bit,
};

verus! {

/// Number of fuses of a GAL16V8 fuse map.
pub const FUSE_COUNT: usize = 2194;

/// Why a fuse map cannot be decoded.
#[derive(Debug, Clone, Copy, PartialEq, Eq, Structural)]
pub enum DecodeError {
    /// The fuse vector does not hold exactly `FUSE_COUNT` fuses.
    InvalidFuseLength,
    /// SYN and AC0 are both clear, which selects no mode.
    InvalidModeBits,
    /// The mode is valid but its column table and cells are not modelled.
    UnsupportedMode,
}

/// A signal whose value may be inverted.
#[derive(Debug)]
pub struct Xor<T> {
    pub sig: T,
    pub xor: bool,
}

/// The kind of an output logic macrocell.
#[derive(Debug, Clone, Copy, PartialEq, Eq, Structural)]
pub enum OLMCType {
    /// Registered output; the flop output feeds back.
    Reg,
    /// Combinational tristate output; the output pin feeds back.
    CombFeedback,
    /// Combinational output.
    Comb,
    /// Pin used as an input.
    CombInput,
}

/// A macrocell resolved to what drives its output pin.
#[derive(Debug)]
pub enum ElaboratedOLMC {
    /// A flop with input `d`.
    Registered { idx: usize, d: Xor<SumTerm> },
    /// A combinational output `d` enabled by the product `oe`.
    Complex { idx: usize, d: Xor<SumTerm>, oe: ProdTerm },
}

/// Global configuration of the device.
#[derive(Debug, Clone, Copy, PartialEq, Eq, Structural)]
pub enum Mode {
    /// Tristate or flop outs
    Registered,
    /// Tristate outs
    Complex,
    /// Combinatorial outs
    Simple,
}

/// One input column of the AND array.
#[derive(Debug, Clone, Copy, PartialEq, Eq, Structural)]
pub enum ColSignal {
    /// An external pin, inverted when `n` is set.
    Pin { id: u32, n: bool },
    /// The flop output of a macrocell, inverted when `n` is set.
    FlopOut { olmc: usize, n: bool },
}

/// A conjunction of column signals; the empty product is true.
#[derive(Debug)]
pub struct ProdTerm(pub Vec<ColSignal>);

/// A disjunction of product terms; the empty sum is false.
#[derive(Debug)]
pub struct SumTerm(pub Vec<ProdTerm>);

/// The raw fuse vector of a GAL16V8, with accessors for its fields.
#[derive(Debug)]
pub struct Fuses {
    inner: Vec<bool>,
}

impl View for ProdTerm {
    type V = Seq<ColSignal>;

    open spec fn view(&self) -> Seq<ColSignal> {
        self.0@
    }
}

impl View for SumTerm {
    type V = Seq<Seq<ColSignal>>;

    open spec fn view(&self) -> Seq<Seq<ColSignal>> {
        self.0@.map_values(|p: ProdTerm| p@)
    }
}

impl View for Fuses {
    type V = Seq<bool>;

    closed spec fn view(&self) -> Seq<bool> {
        self.inner@
    }
}

impl ElaboratedOLMC {
    /// The index of the macrocell.
    pub open spec fn index(&self) -> int {
        match self {
            ElaboratedOLMC::Registered { idx, .. } => *idx as int,
            ElaboratedOLMC::Complex { idx, .. } => *idx as int,
        }
    }

    /// The output pin of the macrocell: macrocell `i` drives pin `19 - i`.
    pub fn outpin(&self) -> (r: usize)
        requires
            self.index() < 8,
        ensures
            r == 19 - self.index(),
    {
        19 - match self {
            ElaboratedOLMC::Registered { idx, .. } => *idx,
            ElaboratedOLMC::Complex { idx, .. } => *idx,
        }
    }
}

impl Fuses {
    /// A fuse map holds exactly `FUSE_COUNT` fuses.
    pub open spec fn wf(&self) -> bool {
        self@.len() == FUSE_COUNT
    }

    /// Takes a fuse vector, which must hold exactly `FUSE_COUNT` fuses.
    pub fn new(inner: Vec<bool>) -> (r: Result<Fuses, DecodeError>)
        ensures
            match r {
                Ok(f) => inner@.len() == FUSE_COUNT && f@ == inner@ && f.wf(),
                Err(e) => inner@.len() != FUSE_COUNT && e == DecodeError::InvalidFuseLength,
            },
    {
        if inner.len() != FUSE_COUNT {
            return Err(DecodeError::InvalidFuseLength);
        }
        Ok(Fuses { inner })
    }

    /// The SYN fuse.
    pub fn syn(&self) -> (r: bool)
        requires
            self.wf(),
        ensures
            r == syn_bit(self@),
    {
        self.inner[2192]
    }

    /// The AC0 fuse.
    pub fn ac0(&self) -> (r: bool)
        requires
            self.wf(),
        ensures
            r == ac0_bit(self@),
    {
        self.inner[2193]
    }

    /// The eight signature octets, each packed most significant bit first.
    pub fn signature(&self) -> (r: Vec<u8>)
        requires
            self.wf(),
        ensures
            r@.len() == 8,
            forall|k: int| 0 <= k < 8 ==> r@[k] == #[trigger] signature_octet(self@, k),
    {
        let mut r: Vec<u8> = Vec::new();
        let mut k: usize = 0;
        while k < 8
            invariant
                self.wf(),
                k <= 8,
                r@.len() == k,
                forall|j: int| 0 <= j < k ==> r@[j] == #[trigger] signature_octet(self@, j),
            decreases 8 - k,
        {
            let start: usize = 2056 + 8 * k;
            let octet = to_u8(&self.inner.as_slice()[start..start + 8]);
            assert(self@.subrange(start as int, start + 8) =~= model::signature_bits(self@).subrange(
                8 * k,
                8 * k + 8,
            ));
            r.push(octet);
            k = k + 1;
        }
        r
    }

    /// The output polarity fuse of macrocell `idx`.
    pub fn xor(&self, idx: usize) -> (r: bool)
        requires
            self.wf(),
            idx < 8,
        ensures
            r == xor_bit(self@, idx as int),
    {
        self.inner[2048 + idx]
    }

    /// The AC1 fuse of macrocell `idx`.
    pub fn ac1(&self, idx: usize) -> (r: bool)
        requires
            self.wf(),
            idx < 8,
        ensures
            r == ac1_bit(self@, idx as int),
    {
        self.inner[2120 + idx]
    }

    /// The product-term enable fuse of row `idx`.
    pub fn ptd(&self, idx: usize) -> (r: bool)
        requires
            self.wf(),
            idx < 64,
        ensures
            r == ptd_bit(self@, idx as int),
    {
        self.inner[2128 + idx]
    }

    /// The mode selected by SYN and AC0.
    pub fn mode(&self) -> (r: Result<Mode, DecodeError>)
        requires
            self.wf(),
        ensures
            match r {
                Ok(m) => mode_of(syn_bit(self@), ac0_bit(self@)) == Some(m),
                Err(e) => mode_of(syn_bit(self@), ac0_bit(self@)) is None && e
                    == DecodeError::InvalidModeBits,
            },
    {
        match (self.syn(), self.ac0()) {
            (false, true) => Ok(Mode::Registered),
            (true, true) => Ok(Mode::Complex),
            (true, false) => Ok(Mode::Simple),
            (false, false) => Err(DecodeError::InvalidModeBits),
        }
    }

    /// The AND array, row after row.
    pub fn grid(&self) -> (r: &[bool])
        requires
            self.wf(),
        ensures
            r@ == grid_bits(self@),
    {
        &self.inner.as_slice()[0..2048]
    }

    /// The kind of macrocell `idx` in registered mode.
    pub fn olmc_type(&self, idx: usize, mode: Mode) -> (r: OLMCType)
        requires
            self.wf(),
            idx < 8,
            mode == Mode::Registered,
        ensures
            r == model::registered_olmc_type(self@, idx as int),
    {
        if self.ac1(idx) {
            OLMCType::CombFeedback
        } else {
            OLMCType::Reg
        }
    }

    /// The product term of row `i`: the columns of `cols` whose fuse in row
    /// `i` is intact, in column order.
    fn and_term(&self, cols: &[ColSignal], i: usize) -> (r: ProdTerm)
        requires
            self.wf(),
            i < 64,
            cols@.len() == 32,
        ensures
            r@ == row_product(self@, cols@, i as int),
    {
        let fuses = self.and_term_fuses(i);
        let mut factors: Vec<ColSignal> = Vec::new();
        let mut k: usize = 0;
        while k < 32
            invariant
                fuses@ == row_fuses(self@, i as int),
                fuses@.len() == 32,
                cols@.len() == 32,
                k <= 32,
                factors@ == kept_columns(fuses@.subrange(0, k as int), cols@),
            decreases 32 - k,
        {
            assert(fuses@.subrange(0, k + 1).drop_last() =~= fuses@.subrange(0, k as int));
            if !fuses[k] {
                factors.push(cols[k]);
            }
            k = k + 1;
        }
        assert(fuses@.subrange(0, 32) =~= fuses@);
        ProdTerm(factors)
    }

    /// The 32 fuses of row `i` of the AND array.
    pub fn and_term_fuses(&self, i: usize) -> (r: &[bool])
        requires
            self.wf(),
            i < 64,
        ensures
            r@ == row_fuses(self@, i as int),
    {
        &self.inner.as_slice()[i * 32..i * 32 + 32]
    }
}

impl Xor<SumTerm> {
    /// The constant value of the signal when its sum is trivially false.
    pub fn trivially_const(&self) -> (r: Option<bool>)
        ensures
            r == (if self.sig@.len() == 0 {
                Some(self.xor)
            } else {
                None
            }),
    {
        if self.sig.is_always_bot() {
            Some(self.xor)
        } else {
            None
        }
    }
}

impl OLMCType {
    /// The signal that macrocell `idx` of this kind feeds back into the array.
    pub fn feedback(&self, idx: usize) -> (r: ColSignal)
        requires
            idx < 8,
            *self is Reg || *self is CombFeedback,
        ensures
            *self is Reg ==> r == (ColSignal::FlopOut { olmc: idx, n: false }),
            *self is CombFeedback ==> r == (ColSignal::Pin { id: (19 - idx) as u32, n: false }),
    {
        match *self {
            OLMCType::Reg => ColSignal::flop(idx),
            _ => ColSignal::pin(19 - idx as u32),
        }
    }
}

impl ColSignal {
    /// The flop output of macrocell `olmc`.
    pub fn flop(olmc: usize) -> (r: ColSignal)
        ensures
            r == (ColSignal::FlopOut { olmc, n: false }),
    {
        ColSignal::FlopOut { olmc, n: false }
    }

    /// External pin `id`.
    pub fn pin(id: u32) -> (r: ColSignal)
        ensures
            r == (ColSignal::Pin { id, n: false }),
    {
        ColSignal::Pin { id, n: false }
    }

    /// The same signal with the opposite polarity.
    pub fn inverted(self) -> (r: ColSignal)
        ensures
            r == complement_of(self),
    {
        match self {
            ColSignal::Pin { id, n } => ColSignal::Pin { id, n: !n },
            ColSignal::FlopOut { olmc, n } => ColSignal::FlopOut { olmc, n: !n },
        }
    }
}

/// Recognition of terms that are trivially false.
pub trait Reducible {
    /// Whether the term is trivially false.
    spec fn always_bot(&self) -> bool;

    /// Is the equation (fragment) trivially bottom?
    fn is_always_bot(&self) -> (r: bool)
        ensures
            r == self.always_bot(),
    ;
}

impl Reducible for ProdTerm {
    open spec fn always_bot(&self) -> bool {
        is_bottom_product(self@)
    }

    fn is_always_bot(&self) -> (r: bool) {
        let len = self.0.len();
        let mut a: usize = 0;
        while a < len
            invariant
                len == self@.len(),
                a <= len,
                forall|x: int, y: int|
                    0 <= x < a && 0 <= y < len ==> self@[y] != complement_of(self@[x]),
            decreases len - a,
        {
            let target = self.0[a].inverted();
            let mut b: usize = 0;
            while b < len
                invariant
                    len == self@.len(),
                    a < len,
                    b <= len,
                    target == complement_of(self@[a as int]),
                    forall|y: int| 0 <= y < b ==> self@[y] != target,
                decreases len - b,
            {
                if self.0[b] == target {
                    assert(self@[b as int] == complement_of(self@[a as int]));
                    return true;
                }
                b = b + 1;
            }
            a = a + 1;
        }
        false
    }
}

impl Reducible for SumTerm {
    open spec fn always_bot(&self) -> bool {
        self@.len() == 0
    }

    fn is_always_bot(&self) -> (r: bool) {
        assert(self@.len() == self.0@.len());
        assert(self.always_bot() == (self@.len() == 0));
        self.0.len() == 0
    }
}

/// A GAL16V8 decoded from its fuse map.
#[derive(Debug)]
pub struct Gal16V8 {
    pub fuses: Fuses,
    pub mode: Mode,
    pub elaboration: Vec<ElaboratedOLMC>,
}

impl Gal16V8 {
    /// The device is the registered-mode decoding of its fuses.
    pub open spec fn wf(&self) -> bool {
        &&& self.fuses.wf()
        &&& self.mode == Mode::Registered
        &&& elaboration_of(self.elaboration@, self.fuses@)
    }

    /// Decodes a fuse map: checks its length and mode bits, then elaborates
    /// its eight macrocells.
    pub fn new(fuses: &[bool]) -> (r: Result<Gal16V8, DecodeError>)
        ensures
            match r {
                Ok(dev) => {
                    &&& fuses@.len() == FUSE_COUNT
                    &&& mode_of(syn_bit(fuses@), ac0_bit(fuses@)) == Some(Mode::Registered)
                    &&& dev.fuses@ == fuses@
                    &&& dev.wf()
                },
                Err(DecodeError::InvalidFuseLength) => fuses@.len() != FUSE_COUNT,
                Err(DecodeError::InvalidModeBits) => {
                    &&& fuses@.len() == FUSE_COUNT
                    &&& mode_of(syn_bit(fuses@), ac0_bit(fuses@)) is None
                },
                Err(DecodeError::UnsupportedMode) => {
                    &&& fuses@.len() == FUSE_COUNT
                    &&& mode_of(syn_bit(fuses@), ac0_bit(fuses@)) matches Some(m)
                    &&& m != Mode::Registered
                },
            },
    {
        let fuses = Fuses::new(vstd::slice::slice_to_vec(fuses))?;
        let mode = fuses.mode()?;
        if mode != Mode::Registered {
            return Err(DecodeError::UnsupportedMode);
        }
        let cols = Self::col_signals(mode, &fuses);
        let elaboration = Self::elaborate(mode, &fuses, cols.as_slice());
        Ok(Gal16V8 { fuses, mode, elaboration })
    }

    /// The eight macrocells of a registered-mode device.
    fn elaborate(mode: Mode, fuses: &Fuses, cols: &[ColSignal]) -> (r: Vec<ElaboratedOLMC>)
        requires
            fuses.wf(),
            mode == Mode::Registered,
            cols@ == column_table(fuses@),
        ensures
            elaboration_of(r@, fuses@),
    {
        let mut cells: Vec<ElaboratedOLMC> = Vec::new();
        let mut i: usize = 0;
        while i < 8
            invariant
                fuses.wf(),
                mode == Mode::Registered,
                cols@ == column_table(fuses@),
                i <= 8,
                cells@.len() == i,
                forall|j: int| 0 <= j < i ==> model::elaborated_cell(#[trigger] cells@[j], fuses@, j),
            decreases 8 - i,
        {
            let ty = fuses.olmc_type(i, mode);
            let cell = match ty {
                OLMCType::Reg => ElaboratedOLMC::Registered {
                    idx: i,
                    d: Xor { sig: Self::or_term(fuses, cols, i, ty), xor: fuses.xor(i) },
                },
                _ => ElaboratedOLMC::Complex {
                    idx: i,
                    d: Xor { sig: Self::or_term(fuses, cols, i, ty), xor: fuses.xor(i) },
                    oe: fuses.and_term(cols, i * 8),
                },
            };
            cells.push(cell);
            i = i + 1;
        }
        cells
    }

    /// The 32 column signals of the AND array in registered mode.
    fn col_signals(mode: Mode, fuses: &Fuses) -> (r: Vec<ColSignal>)
        requires
            fuses.wf(),
            mode == Mode::Registered,
        ensures
            r@ == column_table(fuses@),
    {
        let mut sigs: Vec<ColSignal> = Vec::new();
        let mut i: usize = 0;
        while i < 8
            invariant
                fuses.wf(),
                mode == Mode::Registered,
                i <= 8,
                sigs@.len() == 4 * i,
                forall|k: int| 0 <= k < 4 * i ==> sigs@[k] == #[trigger] column(fuses@, k),
            decreases 8 - i,
        {
            push_pair(&mut sigs, ColSignal::pin(i as u32 + 2));
            push_pair(&mut sigs, fuses.olmc_type(i, mode).feedback(i));
            proof {
                let f = fuses@;
                let b = 4 * i as int;
                assert((b + 0) / 4 == i && (b + 0) % 4 == 0);
                assert((b + 1) / 4 == i && (b + 1) % 4 == 1);
                assert((b + 2) / 4 == i && (b + 2) % 4 == 2);
                assert((b + 3) / 4 == i && (b + 3) % 4 == 3);
                assert(sigs@[b] == column(f, b));
                assert(sigs@[b + 1] == column(f, b + 1));
                assert(sigs@[b + 2] == column(f, b + 2));
                assert(sigs@[b + 3] == column(f, b + 3));
            }
            i = i + 1;
        }
        assert(sigs@ =~= column_table(fuses@));
        sigs
    }

    /// The sum term of macrocell `olmc_idx` of kind `olmc_ty`: its enabled
    /// rows that are not trivially false, in row order.
    fn or_term(fuses: &Fuses, cols: &[ColSignal], olmc_idx: usize, olmc_ty: OLMCType) -> (r:
        SumTerm)
        requires
            fuses.wf(),
            cols@.len() == 32,
            olmc_idx < 8,
            olmc_ty is Reg || olmc_ty is CombFeedback,
        ensures
            r@ == sum_for(fuses@, cols@, olmc_idx as int, olmc_ty),
    {
        let lo: usize = match olmc_ty {
            OLMCType::Reg => olmc_idx * 8,
            _ => olmc_idx * 8 + 1,
        };
        let hi: usize = olmc_idx * 8 + 8;
        let mut terms: Vec<ProdTerm> = Vec::new();
        let mut i: usize = lo;
        while i < hi
            invariant
                fuses.wf(),
                cols@.len() == 32,
                lo == first_sum_row(olmc_ty, olmc_idx as int),
                hi == 8 * olmc_idx + 8,
                hi <= 64,
                lo <= i <= hi,
                terms@.map_values(|p: ProdTerm| p@) == sum_of_rows(
                    fuses@,
                    cols@,
                    contributing_rows(fuses@, cols@, lo as int, i as int),
                ),
            decreases hi - i,
        {
            let t = fuses.and_term(cols, i);
            let keep = fuses.ptd(i) && !t.is_always_bot();
            proof {
                assert(keep == row_contributes(fuses@, cols@, i as int));
            }
            let ghost before = terms@;
            if keep {
                terms.push(t);
                assert(terms@.map_values(|p: ProdTerm| p@) =~= before.map_values(|p: ProdTerm| p@).push(
                    row_product(fuses@, cols@, i as int),
                ));
            }
            i = i + 1;
        }
        SumTerm(terms)
    }
}

fn push_pair(sigs: &mut Vec<ColSignal>, sig: ColSignal)
    ensures
        final(sigs)@ == old(sigs)@.push(sig).push(complement_of(sig)),
{
    sigs.push(sig);
    sigs.push(sig.inverted());
}

/// The number whose binary digits, most significant first, are `slice`.
pub fn to_u8(slice: &[bool]) -> (r: u8)
    requires
        slice@.len() <= 8,
    ensures
        r == packed_value(slice@),
{
    let mut acc: u8 = 0;
    let mut i: usize = 0;
    while i < slice.len()
        invariant
            i <= slice@.len() <= 8,
            acc == packed_value(slice@.subrange(0, i as int)),
            packed_value(slice@.subrange(0, i as int)) < pow2_of(i as nat),
        decreases slice@.len() - i,
    {
        let b = slice[i];
        let bit: u8 = if b { 1 } else { 0 };
        proof {
            let pre = slice@.subrange(0, i as int);
            let next = slice@.subrange(0, i + 1);
            assert(next.drop_last() =~= pre);
            assert(acc < 128) by {
                lemma_pow2_of_le_7(i as nat);
            }
            assert(acc < 128 && bit < 2 ==> (acc << 1u8) | bit == acc * 2 + bit) by (bit_vector);
        }
        acc = (acc << 1u8) | bit;
        i = i + 1;
    }
    assert(slice@.subrange(0, i as int) =~= slice@);
    acc
}

proof fn lemma_pow2_of_le_7(n: nat)
    requires
        n <= 7,
    ensures
        pow2_of(n) <= 128,
{
    reveal_with_fuel(pow2_of, 8);
}

} // verus!
