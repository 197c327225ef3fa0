use vstd::prelude::*;
use crate::client::SCClientDelegate;
use crate::game::{Coords, Move, Piece, State, Team};

verus! {

broadcast use {vstd::seq::group_seq_axioms, vstd::std_specs::vec::group_vec_axioms};

/// The width and height of the board.
pub const BOARD_SIZE: usize = 8;

/// Relies on rand::thread_rng and rand::Rng::gen_range: a number drawn from `0..n`.
#[verifier::external_body]
fn random_below(n: usize) -> (r: usize)
    requires
        n > 0,
    ensures
        r < n,
{
    rand::Rng::gen_range(&mut rand::thread_rng(), 0..n)
}

/// The moves of one field up, down, left or right from `c` that stay on the board, in
/// the order right, left, down, up.
pub open spec fn field_steps(c: Coords) -> Seq<Move> {
    (if c.x + 1 < BOARD_SIZE {
        seq![Move { from: c, to: Coords { x: (c.x + 1) as usize, y: c.y } }]
    } else {
        Seq::empty()
    }) + (if c.x > 0 {
        seq![Move { from: c, to: Coords { x: (c.x - 1) as usize, y: c.y } }]
    } else {
        Seq::empty()
    }) + (if c.y + 1 < BOARD_SIZE {
        seq![Move { from: c, to: Coords { x: c.x, y: (c.y + 1) as usize } }]
    } else {
        Seq::empty()
    }) + (if c.y > 0 {
        seq![Move { from: c, to: Coords { x: c.x, y: (c.y - 1) as usize } }]
    } else {
        Seq::empty()
    })
}

/// The single steps of the pieces of `team` among the first `n` board entries, in order;
/// a piece off the board has none.
pub open spec fn team_steps(pieces: Seq<(Coords, Piece)>, team: Team, n: int) -> Seq<Move>
    decreases n,
{
    if n <= 0 || n > pieces.len() {
        Seq::empty()
    } else {
        let (c, p) = pieces[n - 1];
        team_steps(pieces, team, n - 1) + if p.team == team && c.x < BOARD_SIZE && c.y
            < BOARD_SIZE {
            field_steps(c)
        } else {
            Seq::empty()
        }
    }
}

/// The single steps of the pieces of `team`: each one field up, down, left or right,
/// where that stays on the board.
pub fn steps(state: &State, team: Team) -> (r: Vec<Move>)
    ensures
        r@ == team_steps(state.board.pieces@, team, state.board.pieces@.len() as int),
{
    let pieces = &state.board.pieces;
    let mut r: Vec<Move> = Vec::new();
    let mut i: usize = 0;
    while i < pieces.len()
        invariant
            i <= pieces@.len(),
            pieces == &state.board.pieces,
            r@ == team_steps(pieces@, team, i as int),
        decreases pieces@.len() - i,
    {
        let (c, p) = pieces[i];
        let ghost before = r@;
        if p.team == team && c.x < BOARD_SIZE && c.y < BOARD_SIZE {
            if c.x + 1 < BOARD_SIZE {
                r.push(Move { from: c, to: Coords { x: c.x + 1, y: c.y } });
            }
            if c.x > 0 {
                r.push(Move { from: c, to: Coords { x: c.x - 1, y: c.y } });
            }
            if c.y + 1 < BOARD_SIZE {
                r.push(Move { from: c, to: Coords { x: c.x, y: c.y + 1 } });
            }
            if c.y > 0 {
                r.push(Move { from: c, to: Coords { x: c.x, y: c.y - 1 } });
            }
            assert(r@ =~= before + field_steps(c));
        } else {
            assert(r@ =~= before + Seq::<Move>::empty());
        }
        i = i + 1;
    }
    r
}

/// An example game logic: it moves one of its own pieces one field, drawn at random. It
/// does not know the rules of the game, so the server may reject the move.
pub struct OwnGameLogic;

impl SCClientDelegate for OwnGameLogic {
    fn request_move(&mut self, state: &State, my_team: Team) -> Move {
        let candidates = steps(state, my_team);
        if candidates.len() == 0 {
            Move { from: Coords { x: 0, y: 0 }, to: Coords { x: 0, y: 0 } }
        } else {
            candidates[random_below(candidates.len())]
        }
    }
}

} // verus!
