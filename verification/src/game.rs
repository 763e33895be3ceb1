//! The turn controller: one value that holds the whole game — board,
//! players, whose turn it is, the clock, the state machine tag and the
//! single-level snapshot — together with the committed actions on it.
//!
//! Every action validates first and mutates only when legal.  A wall
//! placement is the one mutate-check-rollback case: the wall is applied,
//! both players' reachability is checked, and on failure the snapshot taken
//! for the attempt is restored, so no trapping wall is ever observable.

use vstd::prelude::*;
use crate::board::{
    Board, BoardView, double_dir, edge_open, hwall_ok, movable, unit_dir, vwall_ok, with_hwall,
    with_vwall,
};
use crate::dfs::{cellv, reaches_goal};
use crate::error::ActionError;
use crate::player::{cell_in_bounds, initial_player, Player, PlayerView};

verus! {

/// The state machine tag: play continues, or the game has been won.
#[derive(Clone, Copy, PartialEq, Eq, Structural, Debug)]
pub enum GameState {
    Playing,
    GameOver,
}

/// Mathematical model of a snapshot.
#[verifier::ext_equal]
pub ghost struct SnapView {
    pub player1: PlayerView,
    pub player2: PlayerView,
    pub clock: int,
    pub board: BoardView,
    pub player1_turn: bool,
}

impl SnapView {
    /// Snapshots are only ever taken of a position where play continues,
    /// so neither pawn stands on its goal column.
    pub open spec fn wf(self) -> bool {
        &&& self.board.wf()
        &&& self.player1.wf()
        &&& self.player2.wf()
        &&& self.player1.position.0 != 8
        &&& self.player2.position.0 != 0
    }
}

/// Mathematical model of the whole game.
#[verifier::ext_equal]
pub ghost struct GameView {
    pub state: GameState,
    pub player1: PlayerView,
    pub player2: PlayerView,
    pub clock: int,
    pub board: BoardView,
    pub player1_turn: bool,
    pub last_turn_data: SnapView,
}

impl GameView {
    pub open spec fn wf(self) -> bool {
        &&& self.board.wf()
        &&& self.player1.wf()
        &&& self.player2.wf()
        &&& self.last_turn_data.wf()
        &&& self.state == GameState::Playing ==> self.player1.position.0 != 8
            && self.player2.position.0 != 0
    }

    /// The player whose turn it is.
    pub open spec fn mover(self) -> PlayerView {
        if self.player1_turn {
            self.player1
        } else {
            self.player2
        }
    }

    /// The player waiting for their turn.
    pub open spec fn opponent(self) -> PlayerView {
        if self.player1_turn {
            self.player2
        } else {
            self.player1
        }
    }
}

/// The snapshot of a game position: everything an action may change.
pub open spec fn snap_of(g: GameView) -> SnapView {
    SnapView {
        player1: g.player1,
        player2: g.player2,
        clock: g.clock,
        board: g.board,
        player1_turn: g.player1_turn,
    }
}

/// The snapshot a fresh game starts with.
pub open spec fn initial_snap() -> SnapView {
    SnapView {
        player1: initial_player(true),
        player2: initial_player(false),
        clock: 0,
        board: BoardView::empty(),
        player1_turn: true,
    }
}

/// A fresh game: empty board, both players at their entry cells with a
/// full wall stock, player 1 to move.
pub open spec fn initial_game() -> GameView {
    GameView {
        state: GameState::Playing,
        player1: initial_player(true),
        player2: initial_player(false),
        clock: 0,
        board: BoardView::empty(),
        player1_turn: true,
        last_turn_data: initial_snap(),
    }
}

/// The mover after stepping to `m`: new position, trail extended.
pub open spec fn moved_player(p: PlayerView, m: (int, int)) -> PlayerView {
    PlayerView { position: m, trace: p.trace.push(m), ..p }
}

/// A player after spending one wall.
pub open spec fn spent_wall(p: PlayerView) -> PlayerView {
    PlayerView { walls: p.walls - 1, ..p }
}

/// The game after the mover commits the pawn move to `m`: snapshot taken,
/// pawn moved, turn flipped, and the game ends the instant the mover
/// reaches their goal column (8 for player 1, 0 for player 2).
pub open spec fn apply_move(g: GameView, m: (int, int)) -> GameView {
    let won = (g.player1_turn && m.0 == 8) || (!g.player1_turn && m.0 == 0);
    GameView {
        state: if won {
            GameState::GameOver
        } else {
            GameState::Playing
        },
        player1: if g.player1_turn {
            moved_player(g.player1, m)
        } else {
            g.player1
        },
        player2: if g.player1_turn {
            g.player2
        } else {
            moved_player(g.player2, m)
        },
        clock: g.clock,
        board: g.board,
        player1_turn: !g.player1_turn,
        last_turn_data: snap_of(g),
    }
}

/// The game after the mover commits a vertical wall at `(x, y)`: snapshot
/// taken, both slots and the cross marker set, one wall spent, turn
/// flipped.
pub open spec fn apply_vwall(g: GameView, x: int, y: int) -> GameView {
    GameView {
        board: with_vwall(g.board, x, y),
        player1: if g.player1_turn {
            spent_wall(g.player1)
        } else {
            g.player1
        },
        player2: if g.player1_turn {
            g.player2
        } else {
            spent_wall(g.player2)
        },
        player1_turn: !g.player1_turn,
        last_turn_data: snap_of(g),
        ..g
    }
}

/// The game after the mover commits a horizontal wall at `(x, y)`.
pub open spec fn apply_hwall(g: GameView, x: int, y: int) -> GameView {
    GameView {
        board: with_hwall(g.board, x, y),
        player1: if g.player1_turn {
            spent_wall(g.player1)
        } else {
            g.player1
        },
        player2: if g.player1_turn {
            g.player2
        } else {
            spent_wall(g.player2)
        },
        player1_turn: !g.player1_turn,
        last_turn_data: snap_of(g),
        ..g
    }
}

/// The game after the retained snapshot is restored: players, clock, board
/// and turn come back from the snapshot; the state tag and the snapshot
/// itself stay.
pub open spec fn apply_undo(g: GameView) -> GameView {
    GameView {
        state: g.state,
        player1: g.last_turn_data.player1,
        player2: g.last_turn_data.player2,
        clock: g.last_turn_data.clock,
        board: g.last_turn_data.board,
        player1_turn: g.last_turn_data.player1_turn,
        last_turn_data: g.last_turn_data,
    }
}

/// The game after a wall attempt was rolled back: every observable field
/// as before the attempt; only the retained snapshot now holds that same
/// position.
pub open spec fn trap_rejected(g: GameView) -> GameView {
    GameView { last_turn_data: snap_of(g), ..g }
}

/// Both players can still reach their goal edges.
pub open spec fn players_connected(g: GameView) -> bool {
    reaches_goal(g.board, g.player1.position, 8) && reaches_goal(g.board, g.player2.position, 0)
}

/// The single-level snapshot: a full copy of everything an action may
/// change, owned independently of the live state.
pub struct GameSaveData {
    pub player1: Player,
    pub player2: Player,
    pub clock: u64,
    pub board: Board,
    pub player1_turn: bool,
}

impl View for GameSaveData {
    type V = SnapView;

    open spec fn view(&self) -> SnapView {
        SnapView {
            player1: self.player1@,
            player2: self.player2@,
            clock: self.clock as int,
            board: self.board@,
            player1_turn: self.player1_turn,
        }
    }
}

impl GameSaveData {
    /// The placeholder snapshot a fresh game carries: the starting
    /// position itself.
    pub fn dummy() -> (s: GameSaveData)
        ensures
            s@ == initial_snap(),
            s@.wf(),
    {
        let s = GameSaveData {
            player1: Player::new(true),
            player2: Player::new(false),
            clock: 0,
            board: Board::new(),
            player1_turn: true,
        };
        proof {
            assert(s@ =~= initial_snap());
        }
        s
    }

    /// Capture the live state, by value.
    pub fn from_game(game: &Game) -> (s: GameSaveData)
        ensures
            s@ == snap_of(game@),
    {
        let s = GameSaveData {
            player1: game.player1.clone(),
            player2: game.player2.clone(),
            clock: game.clock,
            board: game.board.clone(),
            player1_turn: game.player1_turn,
        };
        proof {
            assert(s@ =~= snap_of(game@));
        }
        s
    }
}

pub struct Game {
    pub state: GameState,
    pub player1: Player,
    pub player2: Player,
    pub clock: u64,
    pub board: Board,
    pub player1_turn: bool,
    pub last_turn_data: GameSaveData,
}

impl View for Game {
    type V = GameView;

    open spec fn view(&self) -> GameView {
        GameView {
            state: self.state,
            player1: self.player1@,
            player2: self.player2@,
            clock: self.clock as int,
            board: self.board@,
            player1_turn: self.player1_turn,
            last_turn_data: self.last_turn_data@,
        }
    }
}

impl Game {
    /// A fresh game.
    pub fn new() -> (g: Game)
        ensures
            g@ == initial_game(),
            g@.wf(),
    {
        let g = Game {
            state: GameState::Playing,
            player1: Player::new(true),
            player2: Player::new(false),
            clock: 0,
            board: Board::new(),
            player1_turn: true,
            last_turn_data: GameSaveData::dummy(),
        };
        proof {
            assert(g@ =~= initial_game());
        }
        g
    }

    /// Throw the position away and set up a fresh game.
    pub fn restart(&mut self)
        ensures
            final(self)@ == initial_game(),
            final(self)@.wf(),
    {
        self.state = GameState::Playing;
        self.player1 = Player::new(true);
        self.player2 = Player::new(false);
        self.clock = 0;
        self.board = Board::new();
        self.player1_turn = true;
        self.last_turn_data = GameSaveData::dummy();
        proof {
            assert(self@ =~= initial_game());
        }
    }

    /// Advance the elapsed clock, saturating at the largest count.
    pub fn add_clock_millis(&mut self, ms: u64)
        ensures
            final(self)@ == (GameView {
                clock: if old(self)@.clock + ms <= u64::MAX {
                    old(self)@.clock + ms
                } else {
                    u64::MAX as int
                },
                ..old(self)@
            }),
    {
        if self.clock <= u64::MAX - ms {
            self.clock = self.clock + ms;
        } else {
            self.clock = u64::MAX;
        }
        proof {
            assert(self@ =~= (GameView {
                clock: if old(self)@.clock + ms <= u64::MAX {
                    old(self)@.clock + ms
                } else {
                    u64::MAX as int
                },
                ..old(self)@
            }));
        }
    }

    /// Player 1 wins on reaching column 8.
    pub fn did_player1_win(&self) -> (r: bool)
        ensures
            r == (self@.player1.position.0 == 8),
    {
        self.player1.position.0 == 8
    }

    /// Player 2 wins on reaching column 0.
    pub fn did_player2_win(&self) -> (r: bool)
        ensures
            r == (self@.player2.position.0 == 0),
    {
        self.player2.position.0 == 0
    }

    /// True unless a wall slot blocks travel from `pos` along `dir`.
    pub fn is_movable_at(&self, pos: (i32, i32), dir: (i32, i32)) -> (r: bool)
        requires
            self@.wf(),
            cell_in_bounds(cellv(pos)),
            unit_dir(cellv(dir)) || (double_dir(cellv(dir)) && cell_in_bounds(
                (pos.0 + dir.0 as int, pos.1 + dir.1 as int),
            )),
        ensures
            r == movable(self@.board, cellv(pos), cellv(dir)),
    {
        self.board.is_movable_at(pos, dir)
    }

    /// The two target slots and the crossing point are all free.
    pub fn is_vertical_wall_ok_at(&self, x: usize, y: usize) -> (r: bool)
        requires
            self@.wf(),
        ensures
            r == vwall_ok(self@.board, x as int, y as int),
    {
        self.board.is_vertical_wall_ok_at(x, y)
    }

    /// The two target slots and the crossing point are all free.
    pub fn is_horizontal_wall_ok_at(&self, x: usize, y: usize) -> (r: bool)
        requires
            self@.wf(),
        ensures
            r == hwall_ok(self@.board, x as int, y as int),
    {
        self.board.is_horizontal_wall_ok_at(x, y)
    }

    /// Depth-first reachability from `from` to the column `destination`.
    pub fn dfs(&self, from: (i32, i32), destination: i32) -> (r: bool)
        requires
            self@.wf(),
            cell_in_bounds(cellv(from)),
            0 <= destination <= 8,
        ensures
            r == reaches_goal(self@.board, cellv(from), destination as int),
    {
        self.board.has_path(from, destination)
    }
}

/// Where a step in direction `d` lands.
pub open spec fn step_target(me: (int, int), d: (int, int)) -> (int, int) {
    (me.0 + d.0, me.1 + d.1)
}

/// Where a jump over the opponent in direction `d` lands.
pub open spec fn jump_target(me: (int, int), d: (int, int)) -> (int, int) {
    (me.0 + 2 * d.0, me.1 + 2 * d.1)
}

/// The move, if any, that direction `d` contributes for the mover at `me`
/// against the opponent at `opp`: the unit step when its cell is free, or
/// the straight jump when the opponent stands on that cell and the far
/// edge is open too.  There is no diagonal side-step fallback.
pub open spec fn dir_move(
    b: BoardView,
    me: (int, int),
    opp: (int, int),
    d: (int, int),
    m: (int, int),
) -> bool
    recommends
        b.wf(),
        cell_in_bounds(me),
        unit_dir(d),
{
    if !cell_in_bounds(step_target(me, d)) || !edge_open(b, me, d) {
        false
    } else if step_target(me, d) == opp {
        m == jump_target(me, d) && cell_in_bounds(jump_target(me, d)) && edge_open(
            b,
            step_target(me, d),
            d,
        )
    } else {
        m == step_target(me, d)
    }
}

/// The mover at `me` may move to `m`.
pub open spec fn move_allowed(
    b: BoardView,
    me: (int, int),
    opp: (int, int),
    m: (int, int),
) -> bool {
    ||| dir_move(b, me, opp, (1int, 0int), m)
    ||| dir_move(b, me, opp, (-1int, 0int), m)
    ||| dir_move(b, me, opp, (0int, 1int), m)
    ||| dir_move(b, me, opp, (0int, -1int), m)
}

/// The move list holds cell `m`.
pub open spec fn moves_contain(s: Seq<(i32, i32)>, m: (int, int)) -> bool {
    exists|i: int| 0 <= i < s.len() && cellv(#[trigger] s[i]) == m
}

proof fn lemma_moves_push(s: Seq<(i32, i32)>, v: (i32, i32))
    ensures
        forall|m: (int, int)|
            #[trigger] moves_contain(s.push(v), m) <==> (moves_contain(s, m) || m == cellv(v)),
{
    assert forall|m: (int, int)| #[trigger] moves_contain(s.push(v), m) <==> (moves_contain(s, m)
        || m == cellv(v)) by {
        if moves_contain(s.push(v), m) {
            let i = choose|i: int| 0 <= i < s.push(v).len() && cellv(#[trigger] s.push(v)[i]) == m;
            if i < s.len() {
                assert(s.push(v)[i] == s[i]);
                assert(moves_contain(s, m));
            } else {
                assert(s.push(v)[i] == v);
            }
        }
        if moves_contain(s, m) {
            let i = choose|i: int| 0 <= i < s.len() && cellv(#[trigger] s[i]) == m;
            assert(s.push(v)[i] == s[i]);
            assert(moves_contain(s.push(v), m));
        }
        if m == cellv(v) {
            assert(cellv(s.push(v)[s.len() as int]) == m);
            assert(moves_contain(s.push(v), m));
        }
    }
}

/// Append the candidate that direction `d` contributes, if any.
fn push_moves_for_dir(
    board: &Board,
    me: (i32, i32),
    opp: (i32, i32),
    d: (i32, i32),
    result: &mut Vec<(i32, i32)>,
)
    requires
        board@.wf(),
        cell_in_bounds(cellv(me)),
        cell_in_bounds(cellv(opp)),
        unit_dir(cellv(d)),
    ensures
        forall|m: (int, int)|
            #[trigger] moves_contain(final(result)@, m) <==> (moves_contain(old(result)@, m)
                || dir_move(board@, cellv(me), cellv(opp), cellv(d), m)),
        old(result)@.is_prefix_of(final(result)@),
        final(result)@.len() <= old(result)@.len() + 1,
        forall|i: int|
            old(result)@.len() <= i < final(result)@.len() ==> dir_move(
                board@,
                cellv(me),
                cellv(opp),
                cellv(d),
                cellv(#[trigger] final(result)@[i]),
            ),
{
    proof {
        assert(result@.is_prefix_of(result@)) by {
            assert(result@ =~= result@.subrange(0, result@.len() as int));
        }
    }
    let nx: i32 = me.0 + d.0;
    let ny: i32 = me.1 + d.1;
    if nx < 0 || nx > 8 || ny < 0 || ny > 8 {
        return ;
    }
    if !board.is_movable_at(me, d) {
        return ;
    }
    if nx == opp.0 && ny == opp.1 {
        let jx: i32 = me.0 + 2 * d.0;
        let jy: i32 = me.1 + 2 * d.1;
        if jx < 0 || jx > 8 || jy < 0 || jy > 8 {
            return ;
        }
        if !board.is_movable_at((nx, ny), d) {
            return ;
        }
        result.push((jx, jy));
        proof {
            lemma_moves_push(old(result)@, (jx, jy));
            assert(old(result)@.is_prefix_of(result@)) by {
                assert(old(result)@ =~= result@.subrange(0, old(result)@.len() as int));
            }
        }
    } else {
        result.push((nx, ny));
        proof {
            lemma_moves_push(old(result)@, (nx, ny));
            assert(old(result)@.is_prefix_of(result@)) by {
                assert(old(result)@ =~= result@.subrange(0, old(result)@.len() as int));
            }
        }
    }
}

/// Whether the list of moves holds the cell `(x, y)`.
fn contains_cell(v: &Vec<(i32, i32)>, x: i32, y: i32) -> (r: bool)
    ensures
        r == moves_contain(v@, (x as int, y as int)),
{
    let mut i: usize = 0;
    while i < v.len()
        invariant
            i <= v.len(),
            forall|j: int| 0 <= j < i ==> cellv(#[trigger] v@[j]) != (x as int, y as int),
        decreases v.len() - i,
    {
        if v[i].0 == x && v[i].1 == y {
            proof {
                assert(cellv(v@[i as int]) == (x as int, y as int));
            }
            return true;
        }
        i = i + 1;
    }
    proof {
        if moves_contain(v@, (x as int, y as int)) {
            let j = choose|j: int| 0 <= j < v@.len() && cellv(#[trigger] v@[j]) == (
                x as int,
                y as int,
            );
            assert(false);
        }
    }
    false
}

impl Game {
    /// Every legal destination for the player whose turn it is: up to four
    /// unit steps, each discarded when off the board or blocked, and turned
    /// into a straight jump when the opponent occupies it.
    pub fn get_valid_moves(&self) -> (r: Vec<(i32, i32)>)
        requires
            self@.wf(),
        ensures
            forall|m: (int, int)|
                #[trigger] moves_contain(r@, m) <==> move_allowed(
                    self@.board,
                    self@.mover().position,
                    self@.opponent().position,
                    m,
                ),
            r@.no_duplicates(),
    {
        let me: (i32, i32) = if self.player1_turn {
            self.player1.position
        } else {
            self.player2.position
        };
        let opp: (i32, i32) = if self.player1_turn {
            self.player2.position
        } else {
            self.player1.position
        };
        let ghost b = self@.board;
        let ghost mev = cellv(me);
        let ghost oppv = cellv(opp);
        let mut result: Vec<(i32, i32)> = Vec::new();
        push_moves_for_dir(&self.board, me, opp, (1, 0), &mut result);
        let ghost r1 = result@;
        push_moves_for_dir(&self.board, me, opp, (0, 1), &mut result);
        let ghost r2 = result@;
        push_moves_for_dir(&self.board, me, opp, (-1, 0), &mut result);
        let ghost r3 = result@;
        push_moves_for_dir(&self.board, me, opp, (0, -1), &mut result);
        proof {
            let rr = result@;
            let ghost dir_of = |i: int| -> (int, int)
                {
                    if i < r1.len() {
                        (1int, 0int)
                    } else if i < r2.len() {
                        (0int, 1int)
                    } else if i < r3.len() {
                        (-1int, 0int)
                    } else {
                        (0int, -1int)
                    }
                };
            assert forall|i: int| 0 <= i < rr.len() implies dir_move(
                b,
                mev,
                oppv,
                dir_of(i),
                cellv(rr[i]),
            ) by {
                if i < r1.len() {
                    assert(rr[i] == r1[i]);
                } else if i < r2.len() {
                    assert(rr[i] == r2[i]);
                } else if i < r3.len() {
                    assert(rr[i] == r3[i]);
                }
            }
            assert forall|i: int, j: int|
                0 <= i < rr.len() && 0 <= j < rr.len() && i != j implies rr[i] != rr[j] by {
                assert(dir_move(b, mev, oppv, dir_of(i), cellv(rr[i])));
                assert(dir_move(b, mev, oppv, dir_of(j), cellv(rr[j])));
            }
        }
        result
    }

    /// Commit the mover's pawn to `(x, y)` when that is a legal move:
    /// snapshot first, then move, flip the turn, and end the game the
    /// instant the mover's goal column is reached.  An illegal move or a
    /// finished game leaves the state untouched.
    pub fn try_move(&mut self, x: i32, y: i32) -> (r: Result<(), ActionError>)
        requires
            old(self)@.wf(),
        ensures
            final(self)@.wf(),
            old(self)@.state == GameState::GameOver ==> r == Err::<(), ActionError>(
                ActionError::GameAlreadyOver,
            ) && final(self)@ == old(self)@,
            old(self)@.state == GameState::Playing && !move_allowed(
                old(self)@.board,
                old(self)@.mover().position,
                old(self)@.opponent().position,
                (x as int, y as int),
            ) ==> r == Err::<(), ActionError>(ActionError::InvalidMove) && final(self)@ == old(
                self,
            )@,
            old(self)@.state == GameState::Playing && move_allowed(
                old(self)@.board,
                old(self)@.mover().position,
                old(self)@.opponent().position,
                (x as int, y as int),
            ) ==> r == Ok::<(), ActionError>(()) && final(self)@ == apply_move(
                old(self)@,
                (x as int, y as int),
            ),
    {
        if self.state == GameState::GameOver {
            return Err(ActionError::GameAlreadyOver);
        }
        let moves = self.get_valid_moves();
        if !contains_cell(&moves, x, y) {
            return Err(ActionError::InvalidMove);
        }
        proof {
            assert(cell_in_bounds((x as int, y as int)));
        }
        let snap = GameSaveData::from_game(self);
        self.last_turn_data = snap;
        if self.player1_turn {
            self.player1.move_to(x, y);
        } else {
            self.player2.move_to(x, y);
        }
        self.player1_turn = !self.player1_turn;
        if self.did_player1_win() || self.did_player2_win() {
            self.state = GameState::GameOver;
        }
        proof {
            assert(self@ =~~= apply_move(old(self)@, (x as int, y as int)));
        }
        Ok(())
    }

    /// Restore every mutable field from the retained snapshot.
    fn restore(&mut self)
        ensures
            final(self)@ == apply_undo(old(self)@),
    {
        self.player1 = self.last_turn_data.player1.clone();
        self.player2 = self.last_turn_data.player2.clone();
        self.clock = self.last_turn_data.clock;
        self.board = self.last_turn_data.board.clone();
        self.player1_turn = self.last_turn_data.player1_turn;
        proof {
            assert(self@ =~~= apply_undo(old(self)@));
        }
    }

    /// Roll the position back to the retained snapshot, one level deep:
    /// a second consecutive undo restores the same snapshot again.  A
    /// finished game cannot be undone.
    pub fn undo(&mut self) -> (r: Result<(), ActionError>)
        requires
            old(self)@.wf(),
        ensures
            final(self)@.wf(),
            old(self)@.state == GameState::GameOver ==> r == Err::<(), ActionError>(
                ActionError::GameAlreadyOver,
            ) && final(self)@ == old(self)@,
            old(self)@.state == GameState::Playing ==> r == Ok::<(), ActionError>(()) && final(self)@ == apply_undo(old(self)@),
    {
        if self.state == GameState::GameOver {
            return Err(ActionError::GameAlreadyOver);
        }
        self.restore();
        Ok(())
    }

    /// Commit a vertical wall at `(x, y)`: validated first, then applied,
    /// then both players' reachability is rechecked; a wall that would trap
    /// a player is rolled back from the snapshot and never observable.
    pub fn try_place_vertical_wall(&mut self, x: usize, y: usize) -> (r: Result<(), ActionError>)
        requires
            old(self)@.wf(),
        ensures
            final(self)@.wf(),
            old(self)@.state == GameState::GameOver ==> r == Err::<(), ActionError>(
                ActionError::GameAlreadyOver,
            ) && final(self)@ == old(self)@,
            old(self)@.state == GameState::Playing && old(self)@.mover().walls == 0 ==> r
                == Err::<(), ActionError>(ActionError::NoWallsRemaining) && final(self)@ == old(
                self,
            )@,
            old(self)@.state == GameState::Playing && old(self)@.mover().walls > 0 && !vwall_ok(
                old(self)@.board,
                x as int,
                y as int,
            ) ==> r == Err::<(), ActionError>(ActionError::IllegalWallPlacement) && final(self)@
                == old(self)@,
            old(self)@.state == GameState::Playing && old(self)@.mover().walls > 0 && vwall_ok(
                old(self)@.board,
                x as int,
                y as int,
            ) && players_connected(apply_vwall(old(self)@, x as int, y as int)) ==> r == Ok::<
                (),
                ActionError,
            >(()) && final(self)@ == apply_vwall(old(self)@, x as int, y as int),
            old(self)@.state == GameState::Playing && old(self)@.mover().walls > 0 && vwall_ok(
                old(self)@.board,
                x as int,
                y as int,
            ) && !players_connected(apply_vwall(old(self)@, x as int, y as int)) ==> r == Err::<
                (),
                ActionError,
            >(ActionError::TrapViolation) && final(self)@ == trap_rejected(old(self)@),
            r == Ok::<(), ActionError>(()) ==> players_connected(final(self)@),
    {
        if self.state == GameState::GameOver {
            return Err(ActionError::GameAlreadyOver);
        }
        let no_walls: bool = if self.player1_turn {
            self.player1.walls == 0
        } else {
            self.player2.walls == 0
        };
        if no_walls {
            return Err(ActionError::NoWallsRemaining);
        }
        if !self.board.is_vertical_wall_ok_at(x, y) {
            return Err(ActionError::IllegalWallPlacement);
        }
        let snap = GameSaveData::from_game(self);
        self.last_turn_data = snap;
        self.board.place_vertical_wall(x, y);
        if self.player1_turn {
            self.player1.walls = self.player1.walls - 1;
        } else {
            self.player2.walls = self.player2.walls - 1;
        }
        self.player1_turn = !self.player1_turn;
        proof {
            assert(self@ =~~= apply_vwall(old(self)@, x as int, y as int));
        }
        let ok1 = self.board.has_path(self.player1.position, 8);
        let ok2 = self.board.has_path(self.player2.position, 0);
        if ok1 && ok2 {
            Ok(())
        } else {
            self.restore();
            proof {
                assert(self@ =~~= trap_rejected(old(self)@));
            }
            Err(ActionError::TrapViolation)
        }
    }

    /// Commit a horizontal wall at `(x, y)`, with the same validation and
    /// trap rollback as the vertical case, on the transposed grid.
    pub fn try_place_horizontal_wall(&mut self, x: usize, y: usize) -> (r: Result<(), ActionError>)
        requires
            old(self)@.wf(),
        ensures
            final(self)@.wf(),
            old(self)@.state == GameState::GameOver ==> r == Err::<(), ActionError>(
                ActionError::GameAlreadyOver,
            ) && final(self)@ == old(self)@,
            old(self)@.state == GameState::Playing && old(self)@.mover().walls == 0 ==> r
                == Err::<(), ActionError>(ActionError::NoWallsRemaining) && final(self)@ == old(
                self,
            )@,
            old(self)@.state == GameState::Playing && old(self)@.mover().walls > 0 && !hwall_ok(
                old(self)@.board,
                x as int,
                y as int,
            ) ==> r == Err::<(), ActionError>(ActionError::IllegalWallPlacement) && final(self)@
                == old(self)@,
            old(self)@.state == GameState::Playing && old(self)@.mover().walls > 0 && hwall_ok(
                old(self)@.board,
                x as int,
                y as int,
            ) && players_connected(apply_hwall(old(self)@, x as int, y as int)) ==> r == Ok::<
                (),
                ActionError,
            >(()) && final(self)@ == apply_hwall(old(self)@, x as int, y as int),
            old(self)@.state == GameState::Playing && old(self)@.mover().walls > 0 && hwall_ok(
                old(self)@.board,
                x as int,
                y as int,
            ) && !players_connected(apply_hwall(old(self)@, x as int, y as int)) ==> r == Err::<
                (),
                ActionError,
            >(ActionError::TrapViolation) && final(self)@ == trap_rejected(old(self)@),
            r == Ok::<(), ActionError>(()) ==> players_connected(final(self)@),
    {
        if self.state == GameState::GameOver {
            return Err(ActionError::GameAlreadyOver);
        }
        let no_walls: bool = if self.player1_turn {
            self.player1.walls == 0
        } else {
            self.player2.walls == 0
        };
        if no_walls {
            return Err(ActionError::NoWallsRemaining);
        }
        if !self.board.is_horizontal_wall_ok_at(x, y) {
            return Err(ActionError::IllegalWallPlacement);
        }
        let snap = GameSaveData::from_game(self);
        self.last_turn_data = snap;
        self.board.place_horizontal_wall(x, y);
        if self.player1_turn {
            self.player1.walls = self.player1.walls - 1;
        } else {
            self.player2.walls = self.player2.walls - 1;
        }
        self.player1_turn = !self.player1_turn;
        proof {
            assert(self@ =~~= apply_hwall(old(self)@, x as int, y as int));
        }
        let ok1 = self.board.has_path(self.player1.position, 8);
        let ok2 = self.board.has_path(self.player2.position, 0);
        if ok1 && ok2 {
            Ok(())
        } else {
            self.restore();
            proof {
                assert(self@ =~~= trap_rejected(old(self)@));
            }
            Err(ActionError::TrapViolation)
        }
    }
}

/// Undo law for pawn moves: undoing a committed, non-winning move restores
/// every field of the position; only the retained snapshot now holds that
/// very position.
pub proof fn lemma_undo_reverses_move(g: GameView, m: (int, int))
    requires
        g.state == GameState::Playing,
        !((g.player1_turn && m.0 == 8) || (!g.player1_turn && m.0 == 0)),
    ensures
        apply_undo(apply_move(g, m)) == (GameView { last_turn_data: snap_of(g), ..g }),
{
    assert(apply_undo(apply_move(g, m)) =~~= (GameView { last_turn_data: snap_of(g), ..g }));
}

/// Undo law for vertical walls: undoing a committed placement restores
/// every field of the position; only the retained snapshot now holds that
/// very position.
pub proof fn lemma_undo_reverses_vwall(g: GameView, x: int, y: int)
    ensures
        apply_undo(apply_vwall(g, x, y)) == (GameView { last_turn_data: snap_of(g), ..g }),
{
    assert(apply_undo(apply_vwall(g, x, y)) =~~= (GameView { last_turn_data: snap_of(g), ..g }));
}

/// Undo law for horizontal walls, as for vertical ones.
pub proof fn lemma_undo_reverses_hwall(g: GameView, x: int, y: int)
    ensures
        apply_undo(apply_hwall(g, x, y)) == (GameView { last_turn_data: snap_of(g), ..g }),
{
    assert(apply_undo(apply_hwall(g, x, y)) =~~= (GameView { last_turn_data: snap_of(g), ..g }));
}

} // verus!
