//! A player: pawn position, remaining wall stock, and the trail of visited
//! cells kept for display.

use vstd::prelude::*;
use crate::color::Color;

verus! {

/// The number of walls each player starts with.
pub const STARTING_WALLS: usize = 10;

/// A cell coordinate is on the 9x9 board.
pub open spec fn cell_in_bounds(c: (int, int)) -> bool {
    0 <= c.0 <= 8 && 0 <= c.1 <= 8
}

/// Mathematical model of a player.
#[verifier::ext_equal]
pub ghost struct PlayerView {
    pub walls: int,
    pub position: (int, int),
    pub color: Color,
    pub trace: Seq<(int, int)>,
}

impl PlayerView {
    /// A player is well formed when the pawn is on the board, the wall stock
    /// never exceeds the starting stock, and the trail ends at the pawn.
    pub open spec fn wf(self) -> bool {
        &&& cell_in_bounds(self.position)
        &&& 0 <= self.walls <= STARTING_WALLS
        &&& self.trace.len() > 0
        &&& self.trace.last() == self.position
    }
}

pub struct Player {
    pub walls: usize,
    pub position: (i32, i32),
    pub color: Color,
    pub trace: Vec<(i32, i32)>,
}

impl Clone for Player {
    fn clone(&self) -> (r: Self)
        ensures
            r@ == self@,
            r.walls == self.walls,
            r.position == self.position,
            r.color == self.color,
            r.trace@ == self.trace@,
    {
        let mut trace: Vec<(i32, i32)> = Vec::new();
        let mut i: usize = 0;
        while i < self.trace.len()
            invariant
                i <= self.trace.len(),
                trace@ == self.trace@.subrange(0, i as int),
            decreases self.trace.len() - i,
        {
            trace.push(self.trace[i]);
            proof {
                assert(trace@ =~= self.trace@.subrange(0, i + 1));
            }
            i = i + 1;
        }
        proof {
            assert(trace@ =~= self.trace@);
        }
        let r = Player { walls: self.walls, position: self.position, color: self.color, trace };
        proof {
            assert(r@ =~= self@);
        }
        r
    }
}

impl View for Player {
    type V = PlayerView;

    open spec fn view(&self) -> PlayerView {
        PlayerView {
            walls: self.walls as int,
            position: (self.position.0 as int, self.position.1 as int),
            color: self.color,
            trace: Seq::new(
                self.trace@.len(),
                |i: int| (self.trace@[i].0 as int, self.trace@[i].1 as int),
            ),
        }
    }
}

/// The starting state of a player: player 1 enters at (0,4) aiming for
/// column 8, player 2 at (8,4) aiming for column 0.
pub open spec fn initial_player(is_player1: bool) -> PlayerView {
    let position: (int, int) = if is_player1 { (0int, 4int) } else { (8int, 4int) };
    PlayerView {
        walls: STARTING_WALLS as int,
        position,
        color: if is_player1 {
            Color { r: 0u8, g: 128u8, b: 0u8, a: 128u8 }
        } else {
            Color { r: 192u8, g: 128u8, b: 255u8, a: 128u8 }
        },
        trace: seq![position],
    }
}

impl Player {
    pub fn new(is_player1: bool) -> (p: Player)
        ensures
            p@ == initial_player(is_player1),
            p@.wf(),
    {
        let position: (i32, i32) = if is_player1 { (0, 4) } else { (8, 4) };
        let p = Player {
            walls: STARTING_WALLS,
            position,
            color: if is_player1 { Color::player1_trace() } else { Color::player2_trace() },
            trace: vec![position],
        };
        proof {
            assert(p@.trace =~= initial_player(is_player1).trace);
            assert(p@ =~= initial_player(is_player1));
        }
        p
    }

    /// Move the pawn to the given cell, appending it to the trail.
    pub fn move_to(&mut self, x: i32, y: i32)
        requires
            cell_in_bounds((x as int, y as int)),
        ensures
            final(self)@ == (PlayerView {
                position: (x as int, y as int),
                trace: old(self)@.trace.push((x as int, y as int)),
                ..old(self)@
            }),
    {
        self.position = (x, y);
        self.trace.push(self.position);
        proof {
            assert(self@.trace =~= old(self)@.trace.push((x as int, y as int)));
            assert(self@ =~= (PlayerView {
                position: (x as int, y as int),
                trace: old(self)@.trace.push((x as int, y as int)),
                ..old(self)@
            }));
        }
    }
}

} // verus!
