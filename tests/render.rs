use galette_re::emit::{Emit, EmitCtx, Portmap};
use galette_re::gal16v8::{ColSignal, Gal16V8, ProdTerm, SumTerm, Xor, FUSE_COUNT};

const XOR_BASE: usize = 2048;
const AC1_BASE: usize = 2120;
const PTD_BASE: usize = 2128;
const SYN: usize = 2192;
const AC0: usize = 2193;

/// Registered mode, every grid fuse blown, every row enabled.
fn registered_disconnected() -> Vec<bool> {
    let mut f = vec![false; FUSE_COUNT];
    for i in 0..2048 {
        f[i] = true;
    }
    for r in 0..64 {
        f[PTD_BASE + r] = true;
    }
    f[SYN] = false;
    f[AC0] = true;
    f
}

/// Registered mode, every grid fuse blown, every row disabled.
fn registered_empty() -> Vec<bool> {
    let mut f = registered_disconnected();
    for r in 0..64 {
        f[PTD_BASE + r] = false;
    }
    f
}

/// Registered mode with pin 2 passed into the register of macrocell 0.
fn pass_through() -> Vec<bool> {
    let mut f = registered_empty();
    f[PTD_BASE] = true;
    f[0] = false;
    f
}

fn default_ctx() -> EmitCtx {
    EmitCtx { portmap: Portmap::new() }
}

fn render(dev: &Gal16V8, ctx: &EmitCtx) -> String {
    let mut out = String::new();
    dev.emit(&mut out, ctx);
    out
}

fn render_of<T: Emit>(v: &T) -> String {
    let mut out = String::new();
    v.emit(&mut out, &default_ctx());
    out
}

#[test]
fn empty_registered_cells_are_constant() {
    let dev = Gal16V8::new(&registered_empty()).unwrap();
    let mut expected = String::from("module GAL16V8 (\n);\n\n");
    for i in 0..8 {
        let d = match &dev.elaboration[i] {
            galette_re::gal16v8::ElaboratedOLMC::Registered { d, .. } => d,
            _ => panic!("registered cell expected"),
        };
        assert!(d.sig.0.is_empty());
        assert_eq!(d.trivially_const(), Some(false));
        expected.push_str(&format!(
            "  /* OLMC {} */\n  assign p{} = ~oe ? 1'b1 : 1'bz;\n\n",
            i,
            19 - i
        ));
    }
    expected.push_str("endmodule\n");
    assert_eq!(render(&dev, &default_ctx()), expected);
}

/// A row with every fuse blown is the empty product, which is true: with
/// every row enabled each sum holds its rows as true products.
#[test]
fn disconnected_enabled_rows_are_true_products() {
    let dev = Gal16V8::new(&registered_disconnected()).unwrap();
    for i in 0..8 {
        let d = match &dev.elaboration[i] {
            galette_re::gal16v8::ElaboratedOLMC::Registered { d, .. } => d,
            _ => panic!("registered cell expected"),
        };
        assert_eq!(d.sig.0.len(), 8);
        assert!(d.sig.0.iter().all(|p| p.0.is_empty()));
        assert_eq!(d.trivially_const(), None);
    }
    let text = render(&dev, &default_ctx());
    assert!(text.contains(
        "  /* OLMC 0 */\n  reg q0;\n  always @(posedge clk)\n    q0 <= ( |  |  |  |  |  |  | );\n  assign p19 = ~oe ? ~q0 : 1'bz;\n\n"
    ));
}

#[test]
fn pass_through_of_pin_2_into_register_0() {
    let dev = Gal16V8::new(&pass_through()).unwrap();
    let text = render(&dev, &default_ctx());
    assert!(text.contains("  /* OLMC 0 */\n  reg q0;\n  always @(posedge clk)\n    q0 <= p2;\n  assign p19 = ~oe ? ~q0 : 1'bz;\n\n"));
    assert!(text.contains("q0 <= p2;"));
    assert!(text.contains("assign p19 = ~oe ? ~q0 : 1'bz;"));
    assert!(text.contains("assign p18 = ~oe ? 1'b1 : 1'bz;"));
}

#[test]
fn trivially_bottom_row_is_dropped() {
    let mut f = pass_through();
    f[1] = false;
    let dev = Gal16V8::new(&f).unwrap();
    let text = render(&dev, &default_ctx());
    assert!(text.contains("  /* OLMC 0 */\n  assign p19 = ~oe ? 1'b1 : 1'bz;\n\n"));
    assert!(!text.contains("reg q0;"));
}

#[test]
fn inverted_polarity_of_a_constant_cell() {
    let mut f = registered_empty();
    f[XOR_BASE] = true;
    let dev = Gal16V8::new(&f).unwrap();
    let text = render(&dev, &default_ctx());
    assert!(text.contains("assign p19 = ~oe ? 1'b0 : 1'bz;"));
}

#[test]
fn complex_cell_with_output_enable() {
    let mut f = registered_empty();
    for r in 0..64 {
        f[PTD_BASE + r] = false;
    }
    f[AC1_BASE + 1] = true;
    // row 8: output enable, pin 3 direct (column 4)
    f[8 * 32 + 4] = false;
    // rows 9 and 10: pin 4 (column 8) and pin 5 (column 12)
    f[PTD_BASE + 9] = true;
    f[9 * 32 + 8] = false;
    f[PTD_BASE + 10] = true;
    f[10 * 32 + 12] = false;
    let dev = Gal16V8::new(&f).unwrap();
    let text = render(&dev, &default_ctx());
    assert!(text.contains("  /* OLMC 1 */\n  assign p18 = (p3) ? (p4 | p5) : 1'bz;\n\n"));
}

#[test]
fn complex_cell_with_inverted_output() {
    let mut f = registered_empty();
    for r in 0..64 {
        f[PTD_BASE + r] = false;
    }
    f[AC1_BASE + 1] = true;
    f[XOR_BASE + 1] = true;
    f[8 * 32 + 4] = false;
    f[8 * 32 + 9] = false;
    f[PTD_BASE + 9] = true;
    f[9 * 32 + 8] = false;
    f[9 * 32 + 6] = false;
    let dev = Gal16V8::new(&f).unwrap();
    let text = render(&dev, &default_ctx());
    assert!(text.contains("assign p18 = ((p3 & ~p4)) ? ~(p18 & p4) : 1'bz;"));
}

#[test]
fn pin_names_come_from_the_portmap() {
    let mut portmap = Portmap::new();
    portmap.insert(2, String::from("clk_in"));
    portmap.insert(19, String::from("q_out"));
    let ctx = EmitCtx { portmap };
    assert_eq!(ctx.pin(2), "clk_in");
    assert_eq!(ctx.pin(19), "q_out");
    assert_eq!(ctx.pin(7), "p7");
    assert_eq!(ctx.pin(0), "p0");
    assert_eq!(ctx.pin(123), "p123");
    assert_eq!(ctx.portmap.map(2), Some("clk_in"));
    assert_eq!(ctx.portmap.map(3), None);
    let dev = Gal16V8::new(&pass_through()).unwrap();
    let text = render(&dev, &ctx);
    assert!(text.contains("q0 <= clk_in;"));
    assert!(text.contains("assign q_out = ~oe ? ~q0 : 1'bz;"));
}

#[test]
fn portmap_reads_ron() {
    let portmap = Portmap::deser("{2: \"clk\", 19: \"led\"}").unwrap();
    assert_eq!(portmap.map(2), Some("clk"));
    assert_eq!(portmap.map(19), Some("led"));
    assert_eq!(portmap.map(3), None);
    assert!(Portmap::deser("{2: }").is_err());
    assert!(Portmap::deser("[1, 2]").is_err());
    let empty = Portmap::deser("{}").unwrap();
    assert_eq!(empty.map(2), None);
}

#[test]
fn rendering_is_deterministic() {
    let f = pass_through();
    let a = Gal16V8::new(&f).unwrap();
    let b = Gal16V8::new(&f).unwrap();
    let ctx = default_ctx();
    let first = render(&a, &ctx);
    assert_eq!(first, render(&a, &ctx));
    assert_eq!(first, render(&b, &ctx));
}

#[test]
fn module_body_is_indented() {
    let dev = Gal16V8::new(&pass_through()).unwrap();
    let text = render(&dev, &default_ctx());
    assert!(text.starts_with("module GAL16V8 (\n);\n\n  /* OLMC 0 */\n"));
    assert!(text.ends_with("  /* OLMC 7 */\n  assign p12 = ~oe ? 1'b1 : 1'bz;\n\nendmodule\n"));
    for line in text.lines() {
        let top = line.is_empty()
            || line == "module GAL16V8 ("
            || line == ");"
            || line == "endmodule";
        assert!(top || line.starts_with("  "), "line {:?}", line);
    }
}

#[test]
fn term_rendering() {
    let p2 = ColSignal::Pin { id: 2, n: false };
    let np3 = ColSignal::Pin { id: 3, n: true };
    let q4 = ColSignal::FlopOut { olmc: 4, n: false };
    let nq5 = ColSignal::FlopOut { olmc: 5, n: true };
    assert_eq!(render_of(&p2), "p2");
    assert_eq!(render_of(&np3), "~p3");
    assert_eq!(render_of(&q4), "q4");
    assert_eq!(render_of(&nq5), "~q5");
    assert_eq!(render_of(&ProdTerm(vec![])), "");
    assert_eq!(render_of(&ProdTerm(vec![p2])), "p2");
    assert_eq!(render_of(&ProdTerm(vec![p2, np3, q4])), "(p2 & ~p3 & q4)");
    assert_eq!(render_of(&SumTerm(vec![])), "1'b0");
    assert_eq!(render_of(&SumTerm(vec![ProdTerm(vec![p2, nq5])])), "(p2 & ~q5)");
    assert_eq!(
        render_of(&SumTerm(vec![ProdTerm(vec![p2]), ProdTerm(vec![np3, q4])])),
        "(p2 | (~p3 & q4))"
    );
    assert_eq!(
        render_of(&Xor { sig: SumTerm(vec![ProdTerm(vec![p2])]), xor: true }),
        "~p2"
    );
}
