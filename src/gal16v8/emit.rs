//! Rendering of a decoded GAL16V8 as an HDL module.
use vstd::prelude::*;

use super::{ColSignal, ElaboratedOLMC, Gal16V8, ProdTerm, SumTerm, Xor};
use crate::emit::{decimal, indent_lines, indent_text, push_decimal, Emit, EmitCtx};

verus! {

/// `~` when `n` is set.
pub open spec fn negation_text(n: bool) -> Seq<char> {
    if n {
        "~"@
    } else {
        Seq::empty()
    }
}

/// The factors of `p` joined by ` & `.
pub open spec fn and_joined(p: Seq<ColSignal>, ctx: &EmitCtx) -> Seq<char>
    decreases p.len(),
{
    if p.len() == 0 {
        Seq::empty()
    } else if p.len() == 1 {
        p[0].emitted(ctx)
    } else {
        and_joined(p.drop_last(), ctx) + " & "@ + p.last().emitted(ctx)
    }
}

/// A product: its factors, in parentheses when there are two or more.
pub open spec fn product_text(p: Seq<ColSignal>, ctx: &EmitCtx) -> Seq<char> {
    if p.len() > 1 {
        "("@ + and_joined(p, ctx) + ")"@
    } else {
        and_joined(p, ctx)
    }
}

/// The products of `s` joined by ` | `.
pub open spec fn or_joined(s: Seq<Seq<ColSignal>>, ctx: &EmitCtx) -> Seq<char>
    decreases s.len(),
{
    if s.len() == 0 {
        Seq::empty()
    } else if s.len() == 1 {
        product_text(s[0], ctx)
    } else {
        or_joined(s.drop_last(), ctx) + " | "@ + product_text(s.last(), ctx)
    }
}

/// A sum: `1'b0` when empty, its products in parentheses when there are
/// two or more.
pub open spec fn sum_text(s: Seq<Seq<ColSignal>>, ctx: &EmitCtx) -> Seq<char> {
    if s.len() == 0 {
        "1'b0"@
    } else if s.len() > 1 {
        "("@ + or_joined(s, ctx) + ")"@
    } else {
        or_joined(s, ctx)
    }
}

/// The name of the flop of macrocell `idx`.
pub open spec fn flop_name(idx: usize) -> Seq<char> {
    "q"@ + decimal(idx as nat)
}

/// The declaration that a macrocell needs at module scope: its flop, when
/// it is registered and its input is not constant.
pub open spec fn declaration_text(cell: ElaboratedOLMC) -> Seq<char> {
    match cell {
        ElaboratedOLMC::Registered { idx, d } => if d.sig@.len() == 0 {
            Seq::empty()
        } else {
            "reg "@ + flop_name(idx) + ";\n"@
        },
        ElaboratedOLMC::Complex { .. } => Seq::empty(),
    }
}

/// The block of macrocell number `i`: a comment, its declaration, its logic.
pub open spec fn cell_block(cell: ElaboratedOLMC, i: int, ctx: &EmitCtx) -> Seq<char> {
    "/* OLMC "@ + decimal(i as nat) + " */\n"@ + declaration_text(cell) + cell.emitted(ctx)
}

/// The blocks of `cells`, numbered from 0.
pub open spec fn cells_text(cells: Seq<ElaboratedOLMC>, ctx: &EmitCtx) -> Seq<char>
    decreases cells.len(),
{
    if cells.len() == 0 {
        Seq::empty()
    } else {
        cells_text(cells.drop_last(), ctx) + cell_block(cells.last(), cells.len() - 1, ctx)
    }
}

/// The first lines of the module.
pub open spec fn module_header() -> Seq<char> {
    "module GAL16V8 (\n);\n\n"@
}

/// The last line of the module.
pub open spec fn module_footer() -> Seq<char> {
    "endmodule\n"@
}

/// The indentation of the module body.
pub open spec fn body_indentation() -> Seq<char> {
    "  "@
}

impl Emit for ColSignal {
    open spec fn emittable(&self) -> bool {
        true
    }

    open spec fn emitted(&self, ctx: &EmitCtx) -> Seq<char> {
        match *self {
            ColSignal::Pin { id, n } => negation_text(n) + ctx.pin_name(id as usize),
            ColSignal::FlopOut { olmc, n } => negation_text(n) + flop_name(olmc),
        }
    }

    fn emit(&self, f: &mut String, ctx: &EmitCtx) {
        match *self {
            ColSignal::Pin { id, n } => {
                if n {
                    f.append("~");
                }
                let name = ctx.pin(id as usize);
                f.append(name.as_str());
            },
            ColSignal::FlopOut { olmc, n } => {
                if n {
                    f.append("~");
                }
                f.append("q");
                push_decimal(f, olmc);
            },
        }
    }
}

impl Emit for ProdTerm {
    open spec fn emittable(&self) -> bool {
        true
    }

    open spec fn emitted(&self, ctx: &EmitCtx) -> Seq<char> {
        product_text(self@, ctx)
    }

    fn emit(&self, f: &mut String, ctx: &EmitCtx) {
        let ghost start = f@;
        let len = self.0.len();
        let encl = len > 1;
        if encl {
            f.append("(");
        }
        let ghost opened = f@;
        let mut k: usize = 0;
        while k < len
            invariant
                len == self@.len(),
                k <= len,
                opened == start + (if encl {
                    "("@
                } else {
                    Seq::empty()
                }),
                f@ == opened + and_joined(self@.subrange(0, k as int), ctx),
            decreases len - k,
        {
            assert(self@.subrange(0, k + 1).drop_last() =~= self@.subrange(0, k as int));
            if k > 0 {
                f.append(" & ");
            }
            self.0[k].emit(f, ctx);
            k = k + 1;
        }
        assert(self@.subrange(0, len as int) =~= self@);
        if encl {
            f.append(")");
            assert(f@ =~= start + ("("@ + and_joined(self@, ctx) + ")"@));
        } else {
            assert(f@ =~= start + and_joined(self@, ctx));
        }
        assert(self.emitted(ctx) == product_text(self@, ctx));
    }
}

impl Emit for SumTerm {
    open spec fn emittable(&self) -> bool {
        true
    }

    open spec fn emitted(&self, ctx: &EmitCtx) -> Seq<char> {
        sum_text(self@, ctx)
    }

    fn emit(&self, f: &mut String, ctx: &EmitCtx) {
        let len = self.0.len();
        if len == 0 {
            f.append("1'b0");
        } else {
            let ghost start = f@;
            let encl = len > 1;
            if encl {
                f.append("(");
            }
            let ghost opened = f@;
            let mut k: usize = 0;
            while k < len
                invariant
                    len == self@.len(),
                    k <= len,
                    opened == start + (if encl {
                        "("@
                    } else {
                        Seq::empty()
                    }),
                    f@ == opened + or_joined(self@.subrange(0, k as int), ctx),
                decreases len - k,
            {
                assert(self@.subrange(0, k + 1).drop_last() =~= self@.subrange(0, k as int));
                if k > 0 {
                    f.append(" | ");
                }
                self.0[k].emit(f, ctx);
                k = k + 1;
            }
            assert(self@.subrange(0, len as int) =~= self@);
            if encl {
                f.append(")");
                assert(f@ =~= start + ("("@ + or_joined(self@, ctx) + ")"@));
            } else {
                assert(f@ =~= start + or_joined(self@, ctx));
            }
        }
    }
}

impl<T: Emit> Emit for Xor<T> {
    open spec fn emittable(&self) -> bool {
        self.sig.emittable()
    }

    open spec fn emitted(&self, ctx: &EmitCtx) -> Seq<char> {
        negation_text(self.xor) + self.sig.emitted(ctx)
    }

    fn emit(&self, f: &mut String, ctx: &EmitCtx) {
        if self.xor {
            f.append("~");
        }
        self.sig.emit(f, ctx);
    }
}

impl Emit for ElaboratedOLMC {
    open spec fn emittable(&self) -> bool {
        self.index() < 8
    }

    open spec fn emitted(&self, ctx: &EmitCtx) -> Seq<char> {
        let lines = match *self {
            ElaboratedOLMC::Registered { idx, d } => {
                let pin = ctx.pin_name((19 - idx) as usize);
                if d.sig@.len() == 0 {
                    let level = if d.xor {
                        "1'b0"@
                    } else {
                        "1'b1"@
                    };
                    "assign "@ + pin + " = ~oe ? "@ + level + " : 1'bz;\n"@
                } else {
                    "always @(posedge clk)\n"@ + "  "@ + flop_name(idx) + " <= "@ + d.emitted(ctx)
                        + ";\n"@ + "assign "@ + pin + " = ~oe ? ~"@ + flop_name(idx)
                        + " : 1'bz;\n"@
                }
            },
            ElaboratedOLMC::Complex { idx, d, oe } => {
                let pin = ctx.pin_name((19 - idx) as usize);
                "assign "@ + pin + " = ("@ + oe.emitted(ctx) + ") ? "@ + d.emitted(ctx)
                    + " : 1'bz;\n"@
            },
        };
        lines + "\n"@
    }

    fn emit(&self, f: &mut String, ctx: &EmitCtx) {
        let ghost start = f@;
        match self {
            ElaboratedOLMC::Registered { idx, d } => {
                let pin = ctx.pin(self.outpin());
                match d.trivially_const() {
                    Some(val) => emit_constant_output(f, pin.as_str(), val),
                    None => emit_flop(f, pin.as_str(), *idx, d, ctx),
                }
            },
            ElaboratedOLMC::Complex { idx: _, d, oe } => {
                let pin = ctx.pin(self.outpin());
                emit_tristate(f, pin.as_str(), oe, d, ctx);
            },
        }
        let ghost lines = f@.subrange(start.len() as int, f@.len() as int);
        assert(f@ =~= start + lines);
        f.append("\n");
        assert(f@ =~= start + (lines + "\n"@));
    }
}

/// A registered output whose flop input is the constant `val`.
fn emit_constant_output(f: &mut String, pin: &str, val: bool)
    ensures
        final(f)@ == old(f)@ + ("assign "@ + pin@ + " = ~oe ? "@ + (if val {
            "1'b0"@
        } else {
            "1'b1"@
        }) + " : 1'bz;\n"@),
{
    let ghost start = f@;
    f.append("assign ");
    f.append(pin);
    f.append(" = ~oe ? ");
    f.append(
        if val {
            "1'b0"
        } else {
            "1'b1"
        },
    );
    f.append(" : 1'bz;\n");
    assert(f@ =~= start + ("assign "@ + pin@ + " = ~oe ? "@ + (if val {
        "1'b0"@
    } else {
        "1'b1"@
    }) + " : 1'bz;\n"@));
}

/// A registered output: the clocked update of flop `idx`, and its inverted
/// output on the pin.
fn emit_flop(f: &mut String, pin: &str, idx: usize, d: &Xor<SumTerm>, ctx: &EmitCtx)
    ensures
        final(f)@ == old(f)@ + ("always @(posedge clk)\n"@ + "  "@ + flop_name(idx) + " <= "@
            + d.emitted(ctx) + ";\n"@ + "assign "@ + pin@ + " = ~oe ? ~"@ + flop_name(idx)
            + " : 1'bz;\n"@),
{
    let ghost start = f@;
    f.append("always @(posedge clk)\n");
    f.append("  ");
    f.append("q");
    push_decimal(f, idx);
    f.append(" <= ");
    d.emit(f, ctx);
    f.append(";\n");
    let ghost mid = f@;
    assert(mid =~= start + ("always @(posedge clk)\n"@ + "  "@ + flop_name(idx) + " <= "@
        + d.emitted(ctx) + ";\n"@));
    f.append("assign ");
    f.append(pin);
    f.append(" = ~oe ? ~");
    f.append("q");
    push_decimal(f, idx);
    f.append(" : 1'bz;\n");
    assert(f@ =~= mid + ("assign "@ + pin@ + " = ~oe ? ~"@ + flop_name(idx) + " : 1'bz;\n"@));
}

/// A combinational output `d` driving the pin while `oe` holds.
fn emit_tristate(f: &mut String, pin: &str, oe: &ProdTerm, d: &Xor<SumTerm>, ctx: &EmitCtx)
    ensures
        final(f)@ == old(f)@ + ("assign "@ + pin@ + " = ("@ + oe.emitted(ctx) + ") ? "@
            + d.emitted(ctx) + " : 1'bz;\n"@),
{
    let ghost start = f@;
    f.append("assign ");
    f.append(pin);
    f.append(" = (");
    oe.emit(f, ctx);
    f.append(") ? ");
    d.emit(f, ctx);
    f.append(" : 1'bz;\n");
    assert(f@ =~= start + ("assign "@ + pin@ + " = ("@ + oe.emitted(ctx) + ") ? "@
        + d.emitted(ctx) + " : 1'bz;\n"@));
}

impl Emit for Gal16V8 {
    open spec fn emittable(&self) -> bool {
        forall|i: int| 0 <= i < self.elaboration@.len() ==> (#[trigger] self.elaboration@[i]).emittable()
    }

    open spec fn emitted(&self, ctx: &EmitCtx) -> Seq<char> {
        module_header() + indent_lines(cells_text(self.elaboration@, ctx), body_indentation(), true)
            + module_footer()
    }

    fn emit(&self, f: &mut String, ctx: &EmitCtx) {
        f.append("module GAL16V8 (\n);\n\n");
        let mut body = String::new();
        let len = self.elaboration.len();
        let mut i: usize = 0;
        while i < len
            invariant
                len == self.elaboration@.len(),
                i <= len,
                self.emittable(),
                body@ == cells_text(self.elaboration@.subrange(0, i as int), ctx),
            decreases len - i,
        {
            let ghost before = body@;
            let e = &self.elaboration[i];
            body.append("/* OLMC ");
            push_decimal(&mut body, i);
            body.append(" */\n");
            if let ElaboratedOLMC::Registered { idx, d } = e {
                if d.trivially_const().is_none() {
                    body.append("reg ");
                    body.append("q");
                    push_decimal(&mut body, *idx);
                    body.append(";\n");
                }
            }
            e.emit(&mut body, ctx);
            assert(self.elaboration@.subrange(0, i + 1).drop_last() =~= self.elaboration@.subrange(
                0,
                i as int,
            ));
            assert(body@ =~= before + cell_block(*e, i as int, ctx));
            i = i + 1;
        }
        assert(self.elaboration@.subrange(0, len as int) =~= self.elaboration@);
        let text = indent_text(body.as_str(), "  ");
        f.append(text.as_str());
        f.append("endmodule\n");
    }
}

} // verus!
