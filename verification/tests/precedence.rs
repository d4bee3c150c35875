use kei::precedence::{bin_prec, bin_prec_level, BinOp, PrecTier};

#[test]
fn bin_prec_matches_expected_tier() {
    assert_eq!(bin_prec(BinOp::Implies), PrecTier::Implies);
    assert_eq!(bin_prec(BinOp::Or), PrecTier::Or);
    assert_eq!(bin_prec(BinOp::And), PrecTier::And);
    for op in [BinOp::Eq, BinOp::Ne, BinOp::Lt, BinOp::Gt, BinOp::Le, BinOp::Ge] {
        assert_eq!(bin_prec(op), PrecTier::Cmp);
    }
    for op in [BinOp::Add, BinOp::Sub] {
        assert_eq!(bin_prec(op), PrecTier::Add);
    }
    for op in [BinOp::Mul, BinOp::Div, BinOp::Rem] {
        assert_eq!(bin_prec(op), PrecTier::Mul);
    }
}

#[test]
fn levels_are_monotonically_increasing_in_order() {
    let levels: Vec<u8> = PrecTier::ORDER.iter().map(|t| t.level()).collect();
    assert_eq!(levels, vec![0, 1, 2, 3, 4, 5]);
}

#[test]
fn next_stronger_walks_order_forward() {
    assert_eq!(PrecTier::Implies.next_stronger(), Some(PrecTier::Or));
    assert_eq!(PrecTier::Or.next_stronger(), Some(PrecTier::And));
    assert_eq!(PrecTier::And.next_stronger(), Some(PrecTier::Cmp));
    assert_eq!(PrecTier::Cmp.next_stronger(), Some(PrecTier::Add));
    assert_eq!(PrecTier::Add.next_stronger(), Some(PrecTier::Mul));
    assert_eq!(PrecTier::Mul.next_stronger(), None);
}

#[test]
fn bin_prec_level_matches_tier_level() {
    for op in [
        BinOp::Implies,
        BinOp::Or,
        BinOp::And,
        BinOp::Eq,
        BinOp::Ne,
        BinOp::Lt,
        BinOp::Gt,
        BinOp::Le,
        BinOp::Ge,
        BinOp::Add,
        BinOp::Sub,
        BinOp::Mul,
        BinOp::Div,
        BinOp::Rem,
    ] {
        assert_eq!(bin_prec_level(op), bin_prec(op).level());
    }
}

#[test]
fn exact_levels_of_operators() {
    assert_eq!(bin_prec_level(BinOp::Implies), 0);
    assert_eq!(bin_prec_level(BinOp::Or), 1);
    assert_eq!(bin_prec_level(BinOp::And), 2);
    assert_eq!(bin_prec_level(BinOp::Le), 3);
    assert_eq!(bin_prec_level(BinOp::Sub), 4);
    assert_eq!(bin_prec_level(BinOp::Rem), 5);
}

#[test]
fn next_stronger_raises_level_by_one() {
    for tier in PrecTier::ORDER {
        match tier.next_stronger() {
            Some(next) => assert_eq!(next.level(), tier.level() + 1),
            None => assert_eq!(tier, PrecTier::Mul),
        }
        assert!(tier.level() < 6);
        assert_eq!(PrecTier::ORDER[tier.level() as usize], tier);
    }
}

#[test]
fn derived_order_agrees_with_levels() {
    for a in PrecTier::ORDER {
        for b in PrecTier::ORDER {
            assert_eq!(a < b, a.level() < b.level());
        }
    }
}
