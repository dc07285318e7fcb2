use vstd::prelude::*;

use crate::board::{Board, Player};
use crate::orientation::Cardinality;
use crate::position::{lemma_index_parts, Position};

verus! {

broadcast use Position::lemma_spec_new;

/// How many entries of `s` are `true`.
spec fn count_true(s: Seq<bool>) -> nat
    decreases s.len(),
{
    if s.len() == 0 {
        0
    } else {
        count_true(s.drop_last()) + if s.last() {
            1nat
        } else {
            0nat
        }
    }
}

proof fn lemma_count_true_bound(s: Seq<bool>)
    ensures
        count_true(s) <= s.len(),
    decreases s.len(),
{
    if s.len() > 0 {
        lemma_count_true_bound(s.drop_last());
    }
}

proof fn lemma_count_true_push_false(s: Seq<bool>)
    ensures
        count_true(s.push(false)) == count_true(s),
{
    assert(s.push(false).drop_last() =~= s);
}

proof fn lemma_count_true_set(s: Seq<bool>, i: int)
    requires
        0 <= i < s.len(),
        !s[i],
    ensures
        count_true(s.update(i, true)) == count_true(s) + 1,
    decreases s.len(),
{
    if i == s.len() - 1 {
        assert(s.update(i, true).drop_last() =~= s.drop_last());
    } else {
        lemma_count_true_set(s.drop_last(), i);
        assert(s.update(i, true).drop_last() =~= s.drop_last().update(i, true));
    }
}

impl<const HEIGHT: usize, const WIDTH: usize> Board<HEIGHT, WIDTH> {
    /// Row-major index of (`row`, `col`).
    pub open spec fn cell_index(row: int, col: int) -> int {
        row * WIDTH + col
    }

    /// One legal move leads from cell `from` to cell `to`: the same test of an
    /// open wall segment and an empty space beyond it that `move_player` makes.
    pub open spec fn can_step(&self, from: (int, int), to: (int, int)) -> bool {
        ||| to == (from.0 - 2, from.1) && self.open_step(from.0, from.1, -1, 0)
        ||| to == (from.0 + 2, from.1) && self.open_step(from.0, from.1, 1, 0)
        ||| to == (from.0, from.1 + 2) && self.open_step(from.0, from.1, 0, 1)
        ||| to == (from.0, from.1 - 2) && self.open_step(from.0, from.1, 0, -1)
    }

    /// `path` is a non-empty sequence of cells, each one legal move from the last.
    pub open spec fn is_path(&self, path: Seq<(int, int)>) -> bool {
        &&& path.len() >= 1
        &&& forall|i: int|
            0 <= i < path.len() - 1 ==> #[trigger] self.can_step(path[i], path[i + 1])
    }

    /// Some path leads from `start` to `target`.
    pub open spec fn reaches(&self, start: (int, int), target: (int, int)) -> bool {
        exists|path: Seq<(int, int)>|
            #![trigger self.is_path(path)]
            self.is_path(path) && path[0] == start && path.last() == target
    }

    /// Some path leads from `start` to a cell of row `goal_row`.
    pub open spec fn has_path_to_row(&self, start: (int, int), goal_row: int) -> bool {
        exists|path: Seq<(int, int)>|
            #![trigger self.is_path(path)]
            self.is_path(path) && path[0] == start && path.last().0 == goal_row
    }

    /// Where the move from (`row`, `col`) along (`dr`, `dc`) is open, its
    /// destination is marked in `seen`.
    spec fn neighbour_seen(&self, seen: Seq<bool>, row: int, col: int, dr: int, dc: int) -> bool {
        self.open_step(row, col, dr, dc) ==> seen[Self::cell_index(row + 2 * dr, col + 2 * dc)]
    }

    /// Every cell one legal move away from (`row`, `col`) is marked in `seen`.
    spec fn successors_seen(&self, seen: Seq<bool>, row: int, col: int) -> bool {
        &&& self.neighbour_seen(seen, row, col, -1, 0)
        &&& self.neighbour_seen(seen, row, col, 1, 0)
        &&& self.neighbour_seen(seen, row, col, 0, 1)
        &&& self.neighbour_seen(seen, row, col, 0, -1)
    }

    /// The search state: `seen` marks exactly the cells listed in `order`, and
    /// each of them is reachable from `start`.
    spec fn search_inv(&self, seen: Seq<bool>, order: Seq<Position<HEIGHT, WIDTH>>, start: (int, int)) -> bool {
        &&& seen.len() == HEIGHT * WIDTH
        &&& order.len() == count_true(seen)
        &&& forall|i: int|
            #![trigger order[i]]
            0 <= i < order.len() ==> Self::in_grid(order[i].row(), order[i].col())
                && seen[Self::cell_index(order[i].row(), order[i].col())] && self.reaches(
                start,
                (order[i].row(), order[i].col()),
            )
        &&& forall|k: int|
            #![trigger seen[k]]
            0 <= k < seen.len() && seen[k] ==> exists|i: int|
                #![trigger order[i]]
                0 <= i < order.len() && Self::cell_index(order[i].row(), order[i].col()) == k
    }

    /// Every cell before `head` in `order` lies off the goal row and has all
    /// its successors marked in `seen`.
    spec fn expanded(&self, seen: Seq<bool>, order: Seq<Position<HEIGHT, WIDTH>>, head: int, goal: int) -> bool {
        forall|i: int|
            #![trigger order[i]]
            0 <= i < head ==> order[i].row() != goal && self.successors_seen(
                seen,
                order[i].row(),
                order[i].col(),
            )
    }

    proof fn lemma_path_extend(&self, path: Seq<(int, int)>, next: (int, int))
        requires
            self.is_path(path),
            self.can_step(path.last(), next),
        ensures
            self.is_path(path.push(next)),
            path.push(next)[0] == path[0],
            path.push(next).last() == next,
    {
        let extended = path.push(next);
        assert forall|i: int| 0 <= i < extended.len() - 1 implies #[trigger] self.can_step(
            extended[i],
            extended[i + 1],
        ) by {
            if i < path.len() - 1 {
                assert(extended[i] == path[i] && extended[i + 1] == path[i + 1]);
            }
        }
    }

    /// A set of cells that holds `start`, avoids `goal`'s row and holds every
    /// successor of its cells holds every cell of every path from `start`.
    proof fn lemma_closed_set_blocks(
        &self,
        seen: Seq<bool>,
        start: (int, int),
        goal: int,
        path: Seq<(int, int)>,
    )
        requires
            seen.len() == HEIGHT * WIDTH,
            Self::in_grid(start.0, start.1),
            seen[Self::cell_index(start.0, start.1)],
            forall|r: int, c: int|
                #![trigger seen[Self::cell_index(r, c)]]
                Self::in_grid(r, c) && seen[Self::cell_index(r, c)] ==> r != goal
                    && self.successors_seen(seen, r, c),
            self.is_path(path),
            path[0] == start,
        ensures
            path.last().0 != goal,
        decreases path.len(),
    {
        if path.len() > 1 {
            let prefix = path.drop_last();
            assert forall|i: int| 0 <= i < prefix.len() - 1 implies #[trigger] self.can_step(
                prefix[i],
                prefix[i + 1],
            ) by {
                assert(prefix[i] == path[i] && prefix[i + 1] == path[i + 1]);
            }
            self.lemma_closed_set_blocks(seen, start, goal, prefix);
            self.lemma_path_cells_seen(seen, start, goal, prefix);
            let last = prefix.last();
            let i = path.len() - 2;
            assert(self.can_step(path[i], path[i + 1]));
            assert(seen[Self::cell_index(last.0, last.1)]);
            lemma_index_parts(last.0, last.1, HEIGHT as int, WIDTH as int);
            let next = path.last();
            lemma_index_parts(next.0, next.1, HEIGHT as int, WIDTH as int);
        }
    }

    /// Under the same closure, the last cell of every path from `start` lies on
    /// the grid and is marked in `seen`.
    proof fn lemma_path_cells_seen(
        &self,
        seen: Seq<bool>,
        start: (int, int),
        goal: int,
        path: Seq<(int, int)>,
    )
        requires
            seen.len() == HEIGHT * WIDTH,
            Self::in_grid(start.0, start.1),
            seen[Self::cell_index(start.0, start.1)],
            forall|r: int, c: int|
                #![trigger seen[Self::cell_index(r, c)]]
                Self::in_grid(r, c) && seen[Self::cell_index(r, c)] ==> r != goal
                    && self.successors_seen(seen, r, c),
            self.is_path(path),
            path[0] == start,
        ensures
            Self::in_grid(path.last().0, path.last().1),
            seen[Self::cell_index(path.last().0, path.last().1)],
        decreases path.len(),
    {
        if path.len() > 1 {
            let prefix = path.drop_last();
            assert forall|i: int| 0 <= i < prefix.len() - 1 implies #[trigger] self.can_step(
                prefix[i],
                prefix[i + 1],
            ) by {
                assert(prefix[i] == path[i] && prefix[i + 1] == path[i + 1]);
            }
            self.lemma_path_cells_seen(seen, start, goal, prefix);
            let last = prefix.last();
            let i = path.len() - 2;
            assert(self.can_step(path[i], path[i + 1]));
            assert(self.successors_seen(seen, last.0, last.1));
        }
    }

    /// Whether `player`, standing at `player_pos`, can reach its goal row by
    /// legal moves: over open wall segments onto empty spaces.
    ///
    /// Every cell reachable from `player_pos` is visited once; the search stops
    /// at the first cell on the goal row.
    pub fn check_for_path(&self, player_pos: Position<HEIGHT, WIDTH>, player: Player) -> (r: bool)
        requires
            self.wf(),
        ensures
            r == self.has_path_to_row(
                (player_pos.row(), player_pos.col()),
                player.goal_row(HEIGHT as int),
            ),
    {
        let goal_height: usize = match player {
            Player::A => HEIGHT - 1,
            Player::B => 0,
        };
        let ghost start = (player_pos.row(), player_pos.col());
        let n: usize = HEIGHT * WIDTH;
        let mut seen: Vec<bool> = Vec::new();
        let mut k: usize = 0;
        while k < n
            invariant
                seen@.len() == k,
                k <= n,
                count_true(seen@) == 0,
                forall|j: int| 0 <= j < k ==> !#[trigger] seen@[j],
            decreases n - k,
        {
            proof {
                lemma_count_true_push_false(seen@);
            }
            seen.push(false);
            k += 1;
        }
        let start_idx = Self::index_of(player_pos);
        proof {
            lemma_count_true_set(seen@, start_idx as int);
        }
        seen.set(start_idx, true);
        let mut order: Vec<Position<HEIGHT, WIDTH>> = Vec::new();
        order.push(player_pos);
        proof {
            let single = seq![start];
            assert(self.is_path(single));
            assert(self.reaches(start, start));
            assert forall|k: int| 0 <= k < seen@.len() && #[trigger] seen@[k] implies exists|i: int|
                #![trigger order@[i]]
                0 <= i < order@.len() && Self::cell_index(order@[i].row(), order@[i].col()) == k by {
                assert(k == start_idx);
                assert(order@[0] == player_pos);
            }
        }
        proof {
            lemma_index_parts(start.0, start.1, HEIGHT as int, WIDTH as int);
        }
        let mut head: usize = 0;
        while head < order.len()
            invariant
                self.wf(),
                n == HEIGHT * WIDTH,
                start == (player_pos.row(), player_pos.col()),
                goal_height == player.goal_row(HEIGHT as int),
                Self::in_grid(start.0, start.1),
                0 <= Self::cell_index(start.0, start.1) < n,
                seen@[Self::cell_index(start.0, start.1)],
                self.search_inv(seen@, order@, start),
                self.expanded(seen@, order@, head as int, goal_height as int),
                head <= order@.len(),
            decreases n - head,
        {
            proof {
                lemma_count_true_bound(seen@);
            }
            let current = order[head];
            if current.height() == goal_height {
                proof {
                    assert(self.reaches(start, (current.row(), current.col())));
                    let p = choose|p: Seq<(int, int)>|
                        self.is_path(p) && p[0] == start && p.last() == (
                        current.row(),
                        current.col(),
                    );
                    assert(self.is_path(p) && p[0] == start && p.last().0 == goal_height);
                }
                return true;
            }
            let dirs = [Cardinality::North, Cardinality::South, Cardinality::East, Cardinality::West];
            let mut j: usize = 0;
            while j < 4
                invariant
                    self.wf(),
                    n == HEIGHT * WIDTH,
                    start == (player_pos.row(), player_pos.col()),
                    Self::in_grid(start.0, start.1),
                    0 <= Self::cell_index(start.0, start.1) < n,
                    seen@[Self::cell_index(start.0, start.1)],
                    self.search_inv(seen@, order@, start),
                    self.expanded(seen@, order@, head as int, goal_height as int),
                    head < order@.len(),
                    current == order@[head as int],
                    current.row() != goal_height,
                    dirs@ == seq![Cardinality::North, Cardinality::South, Cardinality::East, Cardinality::West],
                    j <= 4,
                    forall|m: int|
                        0 <= m < j ==> #[trigger] self.neighbour_seen(
                            seen@,
                            current.row(),
                            current.col(),
                            dirs@[m].spec_delta().0,
                            dirs@[m].spec_delta().1,
                        ),
                decreases 4 - j,
            {
                let card = dirs[j];
                let ghost before = seen@;
                if let Some(next) = self.open_neighbour(current, card) {
                    let next_idx = Self::index_of(next);
                    if !seen[next_idx] {
                        proof {
                            self.lemma_visit(
                                seen@,
                                order@,
                                head as int,
                                goal_height as int,
                                start,
                                current,
                                next,
                                next_idx as int,
                            );
                        }
                        seen.set(next_idx, true);
                        order.push(next);
                        proof {
                            assert forall|m: int| 0 <= m < j implies #[trigger] self.neighbour_seen(
                                seen@,
                                current.row(),
                                current.col(),
                                dirs@[m].spec_delta().0,
                                dirs@[m].spec_delta().1,
                            ) by {
                                assert(self.neighbour_seen(
                                    before,
                                    current.row(),
                                    current.col(),
                                    dirs@[m].spec_delta().0,
                                    dirs@[m].spec_delta().1,
                                ));
                            }
                        }
                    }
                }
                proof {
                    assert(card == dirs@[j as int]);
                }
                j += 1;
            }
            proof {
                assert(self.neighbour_seen(seen@, current.row(), current.col(), dirs@[0].spec_delta().0, dirs@[0].spec_delta().1));
                assert(self.neighbour_seen(seen@, current.row(), current.col(), dirs@[1].spec_delta().0, dirs@[1].spec_delta().1));
                assert(self.neighbour_seen(seen@, current.row(), current.col(), dirs@[2].spec_delta().0, dirs@[2].spec_delta().1));
                assert(self.neighbour_seen(seen@, current.row(), current.col(), dirs@[3].spec_delta().0, dirs@[3].spec_delta().1));
                assert(self.successors_seen(seen@, current.row(), current.col()));
            }
            head += 1;
        }
        proof {
            self.lemma_search_done(seen@, order@, start, goal_height as int);
        }
        false
    }

    /// Marking `next`, a successor of `current`, keeps the search state.
    proof fn lemma_visit(
        &self,
        seen: Seq<bool>,
        order: Seq<Position<HEIGHT, WIDTH>>,
        head: int,
        goal: int,
        start: (int, int),
        current: Position<HEIGHT, WIDTH>,
        next: Position<HEIGHT, WIDTH>,
        next_idx: int,
    )
        requires
            self.search_inv(seen, order, start),
            self.expanded(seen, order, head, goal),
            0 <= head < order.len(),
            current == order[head],
            self.can_step((current.row(), current.col()), (next.row(), next.col())),
            Self::in_grid(next.row(), next.col()),
            next_idx == Self::cell_index(next.row(), next.col()),
            0 <= next_idx < seen.len(),
            !seen[next_idx],
        ensures
            self.search_inv(seen.update(next_idx, true), order.push(next), start),
            self.expanded(seen.update(next_idx, true), order.push(next), head, goal),
            forall|r: int, c: int, dr: int, dc: int|
                #[trigger] self.neighbour_seen(seen, r, c, dr, dc) ==> self.neighbour_seen(
                    seen.update(next_idx, true),
                    r,
                    c,
                    dr,
                    dc,
                ),
            seen.update(next_idx, true)[next_idx],
    {
        let seen2 = seen.update(next_idx, true);
        let order2 = order.push(next);
        lemma_count_true_set(seen, next_idx);
        assert(self.reaches(start, (current.row(), current.col())));
        let p = choose|p: Seq<(int, int)>|
            self.is_path(p) && p[0] == start && p.last() == (current.row(), current.col());
        self.lemma_path_extend(p, (next.row(), next.col()));
        assert(self.reaches(start, (next.row(), next.col())));
        assert forall|r: int, c: int, dr: int, dc: int|
            #[trigger] self.neighbour_seen(seen, r, c, dr, dc) implies self.neighbour_seen(
            seen2,
            r,
            c,
            dr,
            dc,
        ) by {
            if self.open_step(r, c, dr, dc) {
                lemma_index_parts(r + 2 * dr, c + 2 * dc, HEIGHT as int, WIDTH as int);
            }
        }
        assert forall|i: int| 0 <= i < order2.len() implies Self::in_grid(
            #[trigger] order2[i].row(),
            order2[i].col(),
        ) && seen2[Self::cell_index(order2[i].row(), order2[i].col())] && self.reaches(
            start,
            (order2[i].row(), order2[i].col()),
        ) by {
            if i < order.len() {
                assert(order2[i] == order[i]);
                lemma_index_parts(order[i].row(), order[i].col(), HEIGHT as int, WIDTH as int);
            }
        }
        assert forall|k: int| 0 <= k < seen2.len() && #[trigger] seen2[k] implies exists|i: int|
            #![trigger order2[i]]
            0 <= i < order2.len() && Self::cell_index(order2[i].row(), order2[i].col()) == k by {
            if k == next_idx {
                assert(order2[order.len() as int] == next);
            } else {
                assert(seen[k]);
                let i = choose|i: int|
                    #![trigger order[i]]
                    0 <= i < order.len() && Self::cell_index(order[i].row(), order[i].col()) == k;
                assert(order2[i] == order[i]);
            }
        }
        assert forall|i: int| 0 <= i < head implies #[trigger] order2[i].row() != goal
            && self.successors_seen(seen2, order2[i].row(), order2[i].col()) by {
            assert(order2[i] == order[i]);
            assert(self.successors_seen(seen, order[i].row(), order[i].col()));
        }
    }

    /// When every listed cell has been expanded, the marked cells are closed
    /// under legal moves and none lies on the goal row, so no path reaches it.
    proof fn lemma_search_done(
        &self,
        seen: Seq<bool>,
        order: Seq<Position<HEIGHT, WIDTH>>,
        start: (int, int),
        goal: int,
    )
        requires
            self.search_inv(seen, order, start),
            self.expanded(seen, order, order.len() as int, goal),
            Self::in_grid(start.0, start.1),
            seen[Self::cell_index(start.0, start.1)],
        ensures
            !self.has_path_to_row(start, goal),
    {
        assert forall|r: int, c: int|
            #![trigger seen[Self::cell_index(r, c)]]
            Self::in_grid(r, c) && seen[Self::cell_index(r, c)] implies r != goal
                && self.successors_seen(seen, r, c) by {
            lemma_index_parts(r, c, HEIGHT as int, WIDTH as int);
            let k = Self::cell_index(r, c);
            let i = choose|i: int|
                #![trigger order[i]]
                0 <= i < order.len() && Self::cell_index(order[i].row(), order[i].col()) == k;
            lemma_index_parts(order[i].row(), order[i].col(), HEIGHT as int, WIDTH as int);
        }
        if self.has_path_to_row(start, goal) {
            let p = choose|p: Seq<(int, int)>|
                #![trigger self.is_path(p)]
                self.is_path(p) && p[0] == start && p.last().0 == goal;
            self.lemma_closed_set_blocks(seen, start, goal, p);
        }
    }

    /// The cell one legal move from `current` towards `cardinality`, if that
    /// move is open.
    fn open_neighbour(&self, current: Position<HEIGHT, WIDTH>, cardinality: Cardinality) -> (r: Option<Position<HEIGHT, WIDTH>>)
        requires
            self.wf(),
        ensures
            ({
                let (dr, dc) = cardinality.spec_delta();
                &&& r matches Some(p) ==> p.row() == current.row() + 2 * dr && p.col()
                    == current.col() + 2 * dc && self.open_step(current.row(), current.col(), dr, dc)
                &&& r is None ==> !self.open_step(current.row(), current.col(), dr, dc)
            }),
    {
        let wall_check = cardinality.to_delta();
        let delta = wall_check.doubled();
        match (current + wall_check, current + delta) {
            (Ok(v), Ok(w)) => {
                let wall_tile = self.get_tile(v);
                let target_tile = self.get_tile(w);
                let no_walls_in_the_way = wall_tile.is_wall_tile() && !wall_tile.is_occupied();
                let target_position_is_available = target_tile.is_space_tile()
                    && !target_tile.is_occupied();
                if no_walls_in_the_way && target_position_is_available {
                    Some(w)
                } else {
                    None
                }
            },
            _ => None,
        }
    }
}

} // verus!
