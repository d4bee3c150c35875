//! Precedence table of the binary operators (single source of truth).
//!
//! The tiers run from the weakest to the strongest binding and correspond one
//! to one to the parser's recursive-descent chain
//! `implies -> or -> and -> cmp -> add -> mul`.

use std::cmp::Ordering;
use vstd::prelude::*;
use vstd::std_specs::cmp::PartialOrdSpec;

verus! {

/// Binary operators of the Kei expression language.
#[derive(Debug, Clone, Copy, PartialEq, Eq)]
pub enum BinOp {
    Implies,
    Or,
    And,
    Eq,
    Ne,
    Lt,
    Gt,
    Le,
    Ge,
    Add,
    Sub,
    Mul,
    Div,
    Rem,
}

/// A precedence tier; the declaration order (weak to strong) is the order of
/// the parser's recursive-descent chain.
#[derive(Debug, Clone, Copy, PartialEq, Eq, Structural, Ord)]
pub enum PrecTier {
    /// `implies` (right associative, weakest)
    Implies,
    /// `||`
    Or,
    /// `&&`
    And,
    /// `==` `!=` `<` `>` `<=` `>=` (a single tier)
    Cmp,
    /// `+` `-`
    Add,
    /// `*` `/` `%` (strongest)
    Mul,
}

/// The tiers from the weakest to the strongest.
pub open spec fn tier_order() -> Seq<PrecTier> {
    seq![PrecTier::Implies, PrecTier::Or, PrecTier::And, PrecTier::Cmp, PrecTier::Add, PrecTier::Mul]
}

impl PrecTier {
    /// All tiers from the weakest to the strongest, in parser order.
    pub const ORDER: [PrecTier; 6] = [
        PrecTier::Implies,
        PrecTier::Or,
        PrecTier::And,
        PrecTier::Cmp,
        PrecTier::Add,
        PrecTier::Mul,
    ];

    /// The position of the tier in `tier_order()`.
    pub open spec fn spec_level(self) -> nat {
        match self {
            PrecTier::Implies => 0,
            PrecTier::Or => 1,
            PrecTier::And => 2,
            PrecTier::Cmp => 3,
            PrecTier::Add => 4,
            PrecTier::Mul => 5,
        }
    }

    /// Zero-based tier number; a larger number binds more tightly.
    pub fn level(self) -> (r: u8)
        ensures
            r == self.spec_level(),
            tier_order()[r as int] == self,
    {
        let order = Self::ORDER;
        let mut i: usize = 0;
        while i < 6
            invariant
                0 <= i <= 6,
                order@ == tier_order(),
                forall|j: int| 0 <= j < i ==> tier_order()[j] != self,
            decreases 6 - i,
        {
            if order[i] == self {
                return i as u8;
            }
            i = i + 1;
        }
        i as u8
    }

    /// The adjacent tier that binds one step more tightly, as listed in
    /// `tier_order()`.
    pub open spec fn spec_next_stronger(self) -> Option<PrecTier> {
        if self.spec_level() + 1 < 6 {
            Some(tier_order()[self.spec_level() + 1 as int])
        } else {
            None
        }
    }

    /// The adjacent tier that binds one step more tightly; `None` for the
    /// strongest tier (`Mul`).
    pub fn next_stronger(self) -> (r: Option<PrecTier>)
        ensures
            r == self.spec_next_stronger(),
    {
        let idx = self.level() as usize;
        if idx + 1 < 6 {
            let order = Self::ORDER;
            Some(order[idx + 1])
        } else {
            None
        }
    }
}

/// Tiers are ordered from the weakest to the strongest, by their tier number
/// (the order of declaration, which the derived `Ord` follows too).
impl PartialOrd for PrecTier {
    fn partial_cmp(&self, other: &PrecTier) -> (r: Option<Ordering>) {
        let a = self.level();
        let b = other.level();
        if a < b {
            Some(Ordering::Less)
        } else if a == b {
            Some(Ordering::Equal)
        } else {
            Some(Ordering::Greater)
        }
    }
}

impl vstd::std_specs::cmp::PartialOrdSpecImpl for PrecTier {
    open spec fn obeys_partial_cmp_spec() -> bool {
        true
    }

    open spec fn partial_cmp_spec(&self, other: &PrecTier) -> Option<Ordering> {
        if self.spec_level() < other.spec_level() {
            Some(Ordering::Less)
        } else if self.spec_level() == other.spec_level() {
            Some(Ordering::Equal)
        } else {
            Some(Ordering::Greater)
        }
    }
}

/// The order of the tiers is the parser order: `a < b` exactly when `a`
/// binds more weakly than `b` (a smaller tier number), the comparison is
/// total, and `PrecTier::ORDER` lists the tiers in strictly increasing order.
pub proof fn lemma_tier_order_is_level_order(a: PrecTier, b: PrecTier)
    ensures
        (a.partial_cmp_spec(&b) == Some(Ordering::Less)) <==> a.spec_level() < b.spec_level(),
        (a.partial_cmp_spec(&b) == Some(Ordering::Equal)) <==> a == b,
        (a.partial_cmp_spec(&b) == Some(Ordering::Greater)) <==> b.spec_level() < a.spec_level(),
        forall|i: int, j: int|
            0 <= i < j < 6 ==> #[trigger] tier_order()[i].partial_cmp_spec(&tier_order()[j]) == Some(
                Ordering::Less,
            ),
{
}

/// The precedence tier of a binary operator.
pub open spec fn spec_bin_prec(op: BinOp) -> PrecTier {
    match op {
        BinOp::Implies => PrecTier::Implies,
        BinOp::Or => PrecTier::Or,
        BinOp::And => PrecTier::And,
        BinOp::Eq | BinOp::Ne | BinOp::Lt | BinOp::Gt | BinOp::Le | BinOp::Ge => PrecTier::Cmp,
        BinOp::Add | BinOp::Sub => PrecTier::Add,
        BinOp::Mul | BinOp::Div | BinOp::Rem => PrecTier::Mul,
    }
}

/// Returns the precedence tier of a binary operator (single source of truth).
pub fn bin_prec(op: BinOp) -> (r: PrecTier)
    ensures
        r == spec_bin_prec(op),
{
    match op {
        BinOp::Implies => PrecTier::Implies,
        BinOp::Or => PrecTier::Or,
        BinOp::And => PrecTier::And,
        BinOp::Eq | BinOp::Ne | BinOp::Lt | BinOp::Gt | BinOp::Le | BinOp::Ge => PrecTier::Cmp,
        BinOp::Add | BinOp::Sub => PrecTier::Add,
        BinOp::Mul | BinOp::Div | BinOp::Rem => PrecTier::Mul,
    }
}

/// The tier number of [`bin_prec`] (a larger number binds more tightly).
pub fn bin_prec_level(op: BinOp) -> (r: u8)
    ensures
        r == spec_bin_prec(op).spec_level(),
{
    bin_prec(op).level()
}

/// The tier numbers are exactly the positions in the parser order: they run
/// 0, 1, ..., 5 along `PrecTier::ORDER`, so they increase strictly from the
/// weakest to the strongest tier, and every tier occurs exactly once.
pub proof fn lemma_levels_follow_order(t: PrecTier, i: int)
    requires
        0 <= i < 6,
    ensures
        tier_order()[i].spec_level() == i,
        t.spec_level() < 6,
        tier_order()[t.spec_level() as int] == t,
        forall|j: int, k: int|
            0 <= j < k < 6 ==> #[trigger] tier_order()[j].spec_level()
                < #[trigger] tier_order()[k].spec_level(),
{
}

/// Walking `next_stronger` goes one tier forward in the parser order: it
/// raises the tier number by exactly one, and only the strongest tier (`Mul`)
/// has no stronger neighbour.
pub proof fn lemma_next_stronger_steps_one_tier(t: PrecTier)
    ensures
        t.spec_next_stronger() is None <==> t == PrecTier::Mul,
        t.spec_next_stronger() matches Some(u) ==> u.spec_level() == t.spec_level() + 1,
{
}

/// `bin_prec_level(op)` is the tier number of `bin_prec(op)`, and every
/// operator's tier number lies in `0..6`.
pub proof fn lemma_bin_prec_level_is_tier_level(op: BinOp)
    ensures
        spec_bin_prec(op).spec_level() < 6,
        tier_order()[spec_bin_prec(op).spec_level() as int] == spec_bin_prec(op),
{
}

} // verus!
