//! The closed set of per-tick inputs and the four facing directions.

use vstd::prelude::*;

use crate::settings::GameMode;
use crate::settings::SearchSettings;

verus! {

/// One tick's directional input: none, horizontal (`A`/`D`), jump (`W`),
/// down (`S`), and the diagonal combinations.
#[derive(PartialEq, Eq, Structural, Debug, Copy, Clone, Hash)]
pub enum Move {
    NONE,
    A,
    D,
    W,
    WA,
    WD,
    S,
    SA,
    SD,
}

/// Facing / push direction.
#[derive(PartialEq, Eq, Structural, Debug, Copy, Clone, Hash)]
pub enum Direction {
    N,
    S,
    E,
    W,
}

/// The default move set of the side-scroller mode.
pub open spec fn scroller_moves() -> Seq<Move> {
    seq![Move::NONE, Move::A, Move::D, Move::W, Move::WA, Move::WD, Move::S, Move::SA, Move::SD]
}

/// The default move set of the platformer mode (no downward inputs).
pub open spec fn platformer_moves() -> Seq<Move> {
    seq![Move::NONE, Move::A, Move::D, Move::W, Move::WA, Move::WD]
}

/// The moves the search may try: an explicit override list from the
/// settings when one is given, else the mode's default set.
pub open spec fn allowed_moves(s: SearchSettings) -> Seq<Move> {
    if s.allowed_moves@.len() > 0 {
        s.allowed_moves@
    } else if s.mode == GameMode::Scroller {
        scroller_moves()
    } else {
        platformer_moves()
    }
}

impl Move {
    /// The moves the search may try under the given settings.
    pub fn all(settings: &SearchSettings) -> (r: Vec<Move>)
        ensures
            r@ == allowed_moves(*settings),
    {
        if settings.allowed_moves.len() > 0 {
            let mut r: Vec<Move> = Vec::new();
            let n: usize = settings.allowed_moves.len();
            let mut i: usize = 0;
            while i < n
                invariant
                    n == settings.allowed_moves@.len(),
                    0 <= i <= n,
                    r@ == settings.allowed_moves@.take(i as int),
                decreases n - i,
            {
                r.push(settings.allowed_moves[i]);
                proof {
                    assert(r@ =~= settings.allowed_moves@.take((i + 1) as int));
                }
                i = i + 1;
            }
            proof {
                assert(settings.allowed_moves@.take(n as int) =~= settings.allowed_moves@);
            }
            r
        } else if settings.mode == GameMode::Scroller {
            let r: Vec<Move> = vec![
                Move::NONE,
                Move::A,
                Move::D,
                Move::W,
                Move::WA,
                Move::WD,
                Move::S,
                Move::SA,
                Move::SD,
            ];
            proof {
                assert(r@ =~= scroller_moves());
            }
            r
        } else {
            let r: Vec<Move> = vec![Move::NONE, Move::A, Move::D, Move::W, Move::WA, Move::WD];
            proof {
                assert(r@ =~= platformer_moves());
            }
            r
        }
    }

    /// A purely vertical input, on which sprinting has no effect.
    pub fn is_only_vertical(&self) -> (r: bool)
        ensures
            r == (*self == Move::S || *self == Move::W),
    {
        *self == Move::S || *self == Move::W
    }
}

} // verus!
