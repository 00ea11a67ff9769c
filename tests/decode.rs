use galette_re::gal16v8::{
    to_u8, ColSignal, DecodeError, ElaboratedOLMC, Fuses, Gal16V8, Mode, OLMCType, ProdTerm,
    Reducible, SumTerm, Xor, FUSE_COUNT,
};

const XOR_BASE: usize = 2048;
const SIG_BASE: usize = 2056;
const AC1_BASE: usize = 2120;
const PTD_BASE: usize = 2128;
const SYN: usize = 2192;
const AC0: usize = 2193;

/// Registered mode, every grid fuse blown, every row disabled.
fn registered_blank() -> Vec<bool> {
    let mut f = vec![false; FUSE_COUNT];
    for i in 0..2048 {
        f[i] = true;
    }
    f[SYN] = false;
    f[AC0] = true;
    f
}

fn connect(f: &mut Vec<bool>, row: usize, col: usize) {
    f[row * 32 + col] = false;
}

fn cell_sum(dev: &Gal16V8, i: usize) -> &SumTerm {
    match &dev.elaboration[i] {
        ElaboratedOLMC::Registered { d, .. } => &d.sig,
        ElaboratedOLMC::Complex { d, .. } => &d.sig,
    }
}

fn pin(id: u32, n: bool) -> ColSignal {
    ColSignal::Pin { id, n }
}

fn flop(olmc: usize, n: bool) -> ColSignal {
    ColSignal::FlopOut { olmc, n }
}

#[test]
fn test_to_u8() {
    assert_eq!(
        0x43,
        to_u8(&[false, true, false, false, false, false, true, true])
    );
}

#[test]
fn to_u8_edges() {
    assert_eq!(0, to_u8(&[]));
    assert_eq!(0xff, to_u8(&[true; 8]));
    assert_eq!(0x80, to_u8(&[true, false, false, false, false, false, false, false]));
    assert_eq!(5, to_u8(&[true, false, true]));
}

#[test]
fn fuse_length_is_checked() {
    assert!(matches!(
        Gal16V8::new(&vec![false; 2193]),
        Err(DecodeError::InvalidFuseLength)
    ));
    assert!(matches!(
        Gal16V8::new(&vec![false; 2195]),
        Err(DecodeError::InvalidFuseLength)
    ));
    assert!(matches!(Gal16V8::new(&[]), Err(DecodeError::InvalidFuseLength)));
    assert!(matches!(
        Fuses::new(vec![true; 10]),
        Err(DecodeError::InvalidFuseLength)
    ));
    assert!(Fuses::new(vec![true; FUSE_COUNT]).is_ok());
}

#[test]
fn all_zero_fuses_have_invalid_mode_bits() {
    assert!(matches!(
        Gal16V8::new(&vec![false; FUSE_COUNT]),
        Err(DecodeError::InvalidModeBits)
    ));
}

#[test]
fn mode_table() {
    for (syn, ac0, expected) in [
        (false, true, Some(Mode::Registered)),
        (true, true, Some(Mode::Complex)),
        (true, false, Some(Mode::Simple)),
        (false, false, None),
    ] {
        let mut f = vec![false; FUSE_COUNT];
        f[SYN] = syn;
        f[AC0] = ac0;
        let fuses = Fuses::new(f).unwrap();
        assert_eq!(fuses.syn(), syn);
        assert_eq!(fuses.ac0(), ac0);
        match expected {
            Some(m) => assert_eq!(fuses.mode().unwrap(), m),
            None => assert_eq!(fuses.mode().unwrap_err(), DecodeError::InvalidModeBits),
        }
    }
}

#[test]
fn complex_and_simple_modes_are_unsupported() {
    let mut f = registered_blank();
    f[SYN] = true;
    f[AC0] = true;
    assert!(matches!(Gal16V8::new(&f), Err(DecodeError::UnsupportedMode)));
    f[AC0] = false;
    assert!(matches!(Gal16V8::new(&f), Err(DecodeError::UnsupportedMode)));
}

#[test]
fn field_accessors_read_their_offsets() {
    let mut f = vec![false; FUSE_COUNT];
    f[XOR_BASE + 3] = true;
    f[AC1_BASE + 5] = true;
    f[PTD_BASE + 63] = true;
    f[7 * 32 + 4] = true;
    let fuses = Fuses::new(f).unwrap();
    for i in 0..8 {
        assert_eq!(fuses.xor(i), i == 3);
        assert_eq!(fuses.ac1(i), i == 5);
    }
    for r in 0..64 {
        assert_eq!(fuses.ptd(r), r == 63);
    }
    assert_eq!(fuses.grid().len(), 2048);
    assert!(fuses.grid()[7 * 32 + 4]);
    let row = fuses.and_term_fuses(7);
    assert_eq!(row.len(), 32);
    for k in 0..32 {
        assert_eq!(row[k], k == 4);
    }
}

#[test]
fn signature_packs_octets_msb_first() {
    let mut f = vec![false; FUSE_COUNT];
    let text = b"GAL16V8!";
    for (k, byte) in text.iter().enumerate() {
        for j in 0..8 {
            f[SIG_BASE + 8 * k + j] = (byte >> (7 - j)) & 1 == 1;
        }
    }
    let fuses = Fuses::new(f.clone()).unwrap();
    let sig = fuses.signature();
    assert_eq!(sig, text.to_vec());
    for k in 0..8 {
        for j in 0..8 {
            assert_eq!((sig[k] >> (7 - j)) & 1 == 1, f[SIG_BASE + 8 * k + j]);
        }
    }
}

#[test]
fn olmc_type_follows_ac1_in_registered_mode() {
    let mut f = registered_blank();
    f[AC1_BASE + 2] = true;
    let fuses = Fuses::new(f).unwrap();
    assert!(matches!(fuses.olmc_type(2, Mode::Registered), OLMCType::CombFeedback));
    assert!(matches!(fuses.olmc_type(3, Mode::Registered), OLMCType::Reg));
}

#[test]
fn feedback_signals() {
    assert_eq!(OLMCType::Reg.feedback(3), flop(3, false));
    assert_eq!(OLMCType::CombFeedback.feedback(3), pin(16, false));
    assert_eq!(OLMCType::CombFeedback.feedback(0), pin(19, false));
}

#[test]
fn column_signal_constructors() {
    assert_eq!(ColSignal::pin(4), pin(4, false));
    assert_eq!(ColSignal::flop(6), flop(6, false));
    assert_eq!(pin(4, false).inverted(), pin(4, true));
    assert_eq!(flop(6, true).inverted(), flop(6, false));
}

/// Each column, alone in row 0 of macrocell 0, becomes the single factor
/// of that macrocell's sum.
#[test]
fn column_table_order_and_feedback_wiring() {
    for ac1 in [false, true] {
        for k in 0..32 {
            let mut f = registered_blank();
            for i in 0..8 {
                f[AC1_BASE + i] = ac1;
            }
            // row 1 lies in the sum of macrocell 0 whatever its kind
            f[PTD_BASE + 1] = true;
            connect(&mut f, 1, k);
            let dev = Gal16V8::new(&f).unwrap();
            let sum = cell_sum(&dev, 0);
            assert_eq!(sum.0.len(), 1);
            assert_eq!(sum.0[0].0.len(), 1);
            let i = (k / 4) as u32;
            let direct = match k % 4 {
                0 | 1 => pin(i + 2, false),
                _ if ac1 => pin(19 - i, false),
                _ => flop(i as usize, false),
            };
            let expected = if k % 2 == 0 { direct } else { direct.inverted() };
            assert_eq!(sum.0[0].0[0], expected, "column {} ac1 {}", k, ac1);
        }
    }
}

#[test]
fn product_keeps_intact_columns_in_column_order() {
    let mut f = registered_blank();
    f[PTD_BASE + 0] = true;
    connect(&mut f, 0, 30);
    connect(&mut f, 0, 0);
    connect(&mut f, 0, 6);
    connect(&mut f, 0, 13);
    let dev = Gal16V8::new(&f).unwrap();
    let sum = cell_sum(&dev, 0);
    assert_eq!(sum.0.len(), 1);
    assert_eq!(
        sum.0[0].0,
        vec![pin(2, false), flop(1, false), pin(5, true), flop(7, false)]
    );
}

#[test]
fn bottom_products() {
    assert!(ProdTerm(vec![pin(2, false), pin(3, false), pin(2, true)]).is_always_bot());
    assert!(ProdTerm(vec![flop(1, true), flop(1, false)]).is_always_bot());
    assert!(!ProdTerm(vec![]).is_always_bot());
    assert!(!ProdTerm(vec![pin(2, false), pin(3, true)]).is_always_bot());
    assert!(!ProdTerm(vec![pin(2, false), flop(2, true)]).is_always_bot());
    assert!(SumTerm(vec![]).is_always_bot());
    assert!(!SumTerm(vec![ProdTerm(vec![])]).is_always_bot());
}

#[test]
fn trivially_const_needs_an_empty_sum() {
    let empty = Xor { sig: SumTerm(vec![]), xor: true };
    assert_eq!(empty.trivially_const(), Some(true));
    let empty = Xor { sig: SumTerm(vec![]), xor: false };
    assert_eq!(empty.trivially_const(), Some(false));
    let some = Xor { sig: SumTerm(vec![ProdTerm(vec![pin(2, false)])]), xor: false };
    assert_eq!(some.trivially_const(), None);
}

#[test]
fn sum_membership_follows_ptd_bottom_and_range() {
    let mut f = registered_blank();
    // macrocell 2 is registered: rows 16..24
    for r in 16..24 {
        f[PTD_BASE + r] = true;
        connect(&mut f, r, 0);
    }
    f[PTD_BASE + 17] = false; // disabled
    connect(&mut f, 18, 1); // pin 2 and its complement: bottom
    connect(&mut f, 20, 8); // pin 4 as well
    // macrocell 3 has combinational feedback: rows 25..32, row 24 is its enable
    f[AC1_BASE + 3] = true;
    for r in 24..32 {
        f[PTD_BASE + r] = true;
    }
    connect(&mut f, 24, 12);
    connect(&mut f, 25, 16);
    let dev = Gal16V8::new(&f).unwrap();

    let sum = cell_sum(&dev, 2);
    let expected: Vec<Vec<ColSignal>> = vec![
        vec![pin(2, false)],
        vec![pin(2, false)],
        vec![pin(2, false), pin(4, false)],
        vec![pin(2, false)],
        vec![pin(2, false)],
        vec![pin(2, false)],
    ];
    let got: Vec<Vec<ColSignal>> = sum.0.iter().map(|p| p.0.clone()).collect();
    assert_eq!(got, expected);

    match &dev.elaboration[3] {
        ElaboratedOLMC::Complex { idx, d, oe } => {
            assert_eq!(*idx, 3);
            assert_eq!(oe.0, vec![pin(5, false)]);
            let got: Vec<Vec<ColSignal>> = d.sig.0.iter().map(|p| p.0.clone()).collect();
            let mut expected = vec![vec![pin(6, false)]];
            for _ in 26..32 {
                expected.push(vec![]);
            }
            assert_eq!(got, expected);
        }
        _ => panic!("macrocell 3 should be complex"),
    }
}

#[test]
fn elaboration_has_eight_cells_with_out_pins() {
    let mut f = registered_blank();
    f[AC1_BASE + 4] = true;
    f[XOR_BASE + 6] = true;
    let dev = Gal16V8::new(&f).unwrap();
    assert_eq!(dev.mode, Mode::Registered);
    assert_eq!(dev.elaboration.len(), 8);
    for (i, cell) in dev.elaboration.iter().enumerate() {
        assert_eq!(cell.outpin(), 19 - i);
        match cell {
            ElaboratedOLMC::Registered { idx, d } => {
                assert_ne!(i, 4);
                assert_eq!(*idx, i);
                assert_eq!(d.xor, i == 6);
            }
            ElaboratedOLMC::Complex { idx, .. } => {
                assert_eq!(i, 4);
                assert_eq!(*idx, i);
            }
        }
    }
}
