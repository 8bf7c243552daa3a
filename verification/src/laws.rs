//! Proved properties that relate the engine's operations to each
//! other: when a winner can exist, that a win and a draw exclude each
//! other, that placing and clearing a mark round-trips, and that the
//! search finds immediate wins and forced blocks.

use vstd::prelude::*;

use crate::board::{
    anti_diag_owner, col_owner, diag_owner, empty_count, is_draw_of, is_terminal,
    lemma_empty_count_from_bound, lemma_empty_count_from_pos, lemma_empty_count_update, row_owner,
    winner_of, Move,
};
use crate::player::Player;
use crate::search::{
    best_move_spec, coord, minimax_score, move_score, search_from, select_from,
};

verus! {

/// No line of the board is fully owned by a player.
pub open spec fn no_owned_line(s: Seq<Player>) -> bool {
    &&& col_owner(s, 0) == Player::Empty
    &&& col_owner(s, 1) == Player::Empty
    &&& col_owner(s, 2) == Player::Empty
    &&& row_owner(s, 0) == Player::Empty
    &&& row_owner(s, 1) == Player::Empty
    &&& row_owner(s, 2) == Player::Empty
    &&& diag_owner(s) == Player::Empty
    &&& anti_diag_owner(s) == Player::Empty
}

/// Some line of the board is fully owned by `p`.
pub open spec fn owns_line(s: Seq<Player>, p: Player) -> bool {
    ||| col_owner(s, 0) == p
    ||| col_owner(s, 1) == p
    ||| col_owner(s, 2) == p
    ||| row_owner(s, 0) == p
    ||| row_owner(s, 1) == p
    ||| row_owner(s, 2) == p
    ||| diag_owner(s) == p
    ||| anti_diag_owner(s) == p
}

/// Every owned line of the board is owned by `p`.
pub open spec fn owners_at_most(s: Seq<Player>, p: Player) -> bool {
    &&& col_owner(s, 0) == Player::Empty || col_owner(s, 0) == p
    &&& col_owner(s, 1) == Player::Empty || col_owner(s, 1) == p
    &&& col_owner(s, 2) == Player::Empty || col_owner(s, 2) == p
    &&& row_owner(s, 0) == Player::Empty || row_owner(s, 0) == p
    &&& row_owner(s, 1) == Player::Empty || row_owner(s, 1) == p
    &&& row_owner(s, 2) == Player::Empty || row_owner(s, 2) == p
    &&& diag_owner(s) == Player::Empty || diag_owner(s) == p
    &&& anti_diag_owner(s) == Player::Empty || anti_diag_owner(s) == p
}

/// On a board where no line is fully owned — in particular on any
/// board that is not yet full and has no winner — the winner query
/// reports nobody.
pub proof fn lemma_winner_none(s: Seq<Player>)
    requires
        s.len() == 9,
        empty_count(s) >= 1,
        no_owned_line(s),
    ensures
        winner_of(s) == Player::Empty,
{
}

/// A board without a reported winner has no fully owned line at all.
pub proof fn lemma_no_winner_no_line(s: Seq<Player>)
    requires
        winner_of(s) == Player::Empty,
    ensures
        no_owned_line(s),
{
}

/// The reported winner, when there is one, fully owns some line.
pub proof fn lemma_winner_owns_line(s: Seq<Player>)
    requires
        winner_of(s) != Player::Empty,
    ensures
        owns_line(s, winner_of(s)),
{
}

/// A board cannot be won and drawn at once: a winner's line carries
/// only the winner's marks, so that line is not dead.
pub proof fn lemma_winner_excludes_draw(s: Seq<Player>)
    requires
        winner_of(s) != Player::Empty,
    ensures
        !is_draw_of(s),
{
    lemma_winner_owns_line(s);
}

/// Placing a mark on an empty cell and then clearing that cell again
/// returns the board to its original value.
pub proof fn lemma_set_roundtrip(s: Seq<Player>, i: int, p: Player)
    requires
        s.len() == 9,
        0 <= i < 9,
        s[i] == Player::Empty,
    ensures
        s.update(i, p).update(i, Player::Empty) == s,
{
    assert(s.update(i, p).update(i, Player::Empty) =~= s);
}

/// Marking one cell of a board with no owned line can only create
/// lines owned by that same mark.
proof fn lemma_update_owners(s: Seq<Player>, j: int, q: Player)
    requires
        s.len() == 9,
        0 <= j < 9,
        no_owned_line(s),
    ensures
        owners_at_most(s.update(j, q), q),
{
}

/// Where every owned line is owned by `q`, the reported winner can
/// only be `q` or nobody.
proof fn lemma_owners_winner(s: Seq<Player>, q: Player)
    requires
        owners_at_most(s, q),
    ensures
        winner_of(s) == Player::Empty || winner_of(s) == q,
{
}

/// A position that is neither won nor drawn still has an empty cell:
/// a live line that is full would be owned.
proof fn lemma_nonterminal_has_empty(s: Seq<Player>)
    requires
        s.len() == 9,
        !is_terminal(s),
    ensures
        exists|j: int| 0 <= j < 9 && s[j] == Player::Empty,
        empty_count(s) >= 1,
{
    if !(exists|j: int| 0 <= j < 9 && s[j] == Player::Empty) {
        assert(forall|j: int| 0 <= j < 9 ==> s[j] != Player::Empty);
        assert(is_draw_of(s));
    }
    lemma_empty_count_from_pos(s, 0);
}

/// Every minimax value lies between `depth - 10` and `10 - depth`; at
/// a position that is not yet terminal at least one more move is
/// played below it, so its value even lies between `depth - 9` and
/// `9 - depth`.
pub proof fn lemma_score_bounds(s: Seq<Player>, mover: Player, maxer: Player, depth: int)
    requires
        s.len() == 9,
        mover.is_mark(),
        maxer.is_mark(),
        0 <= depth,
        depth + empty_count(s) <= 9,
    ensures
        depth - 10 <= minimax_score(s, mover, maxer, depth) <= 10 - depth,
        !is_terminal(s) ==> depth - 9 <= minimax_score(s, mover, maxer, depth) <= 9 - depth,
    decreases empty_count(s), 1int, 0int,
{
    if !is_terminal(s) {
        lemma_nonterminal_has_empty(s);
        let init: int = if mover == maxer {
            -99
        } else {
            99
        };
        lemma_search_bounds(s, mover, maxer, depth, 0, init);
    }
}

/// Bounds for the fold over the children at cell indices `i` and
/// above: the fold only improves on `best` in the mover's direction,
/// never beyond the values its children can take.
proof fn lemma_search_bounds(s: Seq<Player>, mover: Player, maxer: Player, depth: int, i: int, best: int)
    requires
        s.len() == 9,
        mover.is_mark(),
        maxer.is_mark(),
        0 <= depth,
        depth + empty_count(s) <= 9,
        0 <= i <= 9,
    ensures
        mover == maxer ==> search_from(s, mover, maxer, depth, i, best) >= best,
        mover == maxer && best <= 9 - depth ==> search_from(s, mover, maxer, depth, i, best) <= 9
            - depth,
        mover == maxer && (exists|j: int| i <= j < 9 && s[j] == Player::Empty) ==> search_from(
            s,
            mover,
            maxer,
            depth,
            i,
            best,
        ) >= depth - 9,
        mover != maxer ==> search_from(s, mover, maxer, depth, i, best) <= best,
        mover != maxer && best >= depth - 9 ==> search_from(s, mover, maxer, depth, i, best) >= depth
            - 9,
        mover != maxer && (exists|j: int| i <= j < 9 && s[j] == Player::Empty) ==> search_from(
            s,
            mover,
            maxer,
            depth,
            i,
            best,
        ) <= 9 - depth,
    decreases empty_count(s), 0int, 9 - i,
{
    if i < 9 {
        if s[i] == Player::Empty {
            lemma_empty_count_update(s, i, mover);
            lemma_score_bounds(s.update(i, mover), mover.opponent(), maxer, depth + 1);
            let child: int = minimax_score(s.update(i, mover), mover.opponent(), maxer, depth + 1);
            let best2: int = if mover == maxer {
                if child > best {
                    child
                } else {
                    best
                }
            } else {
                if child < best {
                    child
                } else {
                    best
                }
            };
            lemma_search_bounds(s, mover, maxer, depth, i + 1, best2);
        } else {
            lemma_search_bounds(s, mover, maxer, depth, i + 1, best);
            if exists|j: int| i <= j < 9 && s[j] == Player::Empty {
                let j = choose|j: int| i <= j < 9 && s[j] == Player::Empty;
                assert(i + 1 <= j < 9 && s[j] == Player::Empty);
            }
        }
    }
}

/// When the opponent of the maximizing player is folding, the fold's
/// result never exceeds any single child in its range.
proof fn lemma_search_min_le_child(
    s: Seq<Player>,
    mover: Player,
    maxer: Player,
    depth: int,
    i: int,
    best: int,
    j: int,
)
    requires
        s.len() == 9,
        mover.is_mark(),
        maxer.is_mark(),
        mover != maxer,
        0 <= depth,
        depth + empty_count(s) <= 9,
        0 <= i <= j < 9,
        s[j] == Player::Empty,
    ensures
        search_from(s, mover, maxer, depth, i, best) <= minimax_score(
            s.update(j, mover),
            mover.opponent(),
            maxer,
            depth + 1,
        ),
    decreases j - i,
{
    let best2: int = if s[i] == Player::Empty {
        let child: int = minimax_score(s.update(i, mover), mover.opponent(), maxer, depth + 1);
        if child < best {
            child
        } else {
            best
        }
    } else {
        best
    };
    if i == j {
        lemma_search_bounds(s, mover, maxer, depth, i + 1, best2);
    } else {
        lemma_search_min_le_child(s, mover, maxer, depth, i + 1, best2, j);
    }
}

/// When the opponent of the maximizing player is folding and every
/// child in range is worth at least `bound`, the fold cannot fall
/// below `bound` either.
proof fn lemma_search_min_lb(
    s: Seq<Player>,
    mover: Player,
    maxer: Player,
    depth: int,
    i: int,
    best: int,
    bound: int,
)
    requires
        s.len() == 9,
        mover.is_mark(),
        maxer.is_mark(),
        mover != maxer,
        0 <= depth,
        depth + empty_count(s) <= 9,
        0 <= i <= 9,
        best >= bound,
        forall|j: int|
            i <= j < 9 && s[j] == Player::Empty ==> minimax_score(
                #[trigger] s.update(j, mover),
                mover.opponent(),
                maxer,
                depth + 1,
            ) >= bound,
    ensures
        search_from(s, mover, maxer, depth, i, best) >= bound,
    decreases 9 - i,
{
    if i < 9 {
        let best2: int = if s[i] == Player::Empty {
            let child: int = minimax_score(s.update(i, mover), mover.opponent(), maxer, depth + 1);
            if child < best {
                child
            } else {
                best
            }
        } else {
            best
        };
        lemma_search_min_lb(s, mover, maxer, depth, i + 1, best2, bound);
    }
}

/// Once the scan's running choice is a cell whose score no later empty
/// cell strictly beats, the scan keeps that choice to the end.
proof fn lemma_select_hold(s: Seq<Player>, p: Player, i: int, m: Move, ms: int)
    requires
        0 <= i <= 9,
        forall|j: int| i <= j < 9 && s[j] == Player::Empty ==> #[trigger] move_score(s, p, j) <= ms,
    ensures
        select_from(s, p, i, m, ms, false) == m,
    decreases 9 - i,
{
    if i < 9 {
        lemma_select_hold(s, p, i + 1, m, ms);
    }
}

/// The scan settles on the empty cell `c` when every earlier empty
/// cell scores strictly less and no later empty cell scores more.
proof fn lemma_select_reach(s: Seq<Player>, p: Player, i: int, m: Move, ms: int, first: bool, c: int)
    requires
        0 <= i <= c < 9,
        s[c] == Player::Empty,
        first || ms < move_score(s, p, c),
        forall|j: int|
            i <= j < c && s[j] == Player::Empty ==> #[trigger] move_score(s, p, j) < move_score(
                s,
                p,
                c,
            ),
        forall|j: int|
            c < j < 9 && s[j] == Player::Empty ==> #[trigger] move_score(s, p, j) <= move_score(
                s,
                p,
                c,
            ),
    ensures
        select_from(s, p, i, m, ms, first) == coord(c),
    decreases c - i,
{
    if i == c {
        lemma_select_hold(s, p, c + 1, coord(c), move_score(s, p, c));
    } else if s[i] == Player::Empty {
        if move_score(s, p, i) > ms || first {
            lemma_select_reach(s, p, i + 1, coord(i), move_score(s, p, i), false, c);
        } else {
            lemma_select_reach(s, p, i + 1, m, ms, false, c);
        }
    } else {
        lemma_select_reach(s, p, i + 1, m, ms, first, c);
    }
}

/// The top-level scan picks the empty cell `c` when every empty cell
/// before it scores strictly less and no empty cell after it scores
/// more.
proof fn lemma_select_picks(s: Seq<Player>, p: Player, c: int)
    requires
        0 <= c < 9,
        s[c] == Player::Empty,
        forall|j: int|
            0 <= j < c && s[j] == Player::Empty ==> #[trigger] move_score(s, p, j) < move_score(
                s,
                p,
                c,
            ),
        forall|j: int|
            c < j < 9 && s[j] == Player::Empty ==> #[trigger] move_score(s, p, j) <= move_score(
                s,
                p,
                c,
            ),
    ensures
        best_move_spec(s, p) == coord(c),
{
    lemma_select_reach(s, p, 0, (Move { x: 0, y: 0 }), 0, true, c);
}

/// A move that completes a line for `p` scores exactly `9`: the win
/// is one ply below the scan, so it is worth `10 - 1`.
proof fn lemma_move_score_win(s: Seq<Player>, p: Player, j: int)
    requires
        s.len() == 9,
        p.is_mark(),
        0 <= j < 9,
        s[j] == Player::Empty,
        winner_of(s.update(j, p)) == p,
    ensures
        move_score(s, p, j) == 9,
{
}

/// A move that does not win on the spot scores at most `8` on a board
/// that has no winner yet.
proof fn lemma_move_score_capped(s: Seq<Player>, p: Player, j: int)
    requires
        s.len() == 9,
        p.is_mark(),
        winner_of(s) == Player::Empty,
        0 <= j < 9,
        s[j] == Player::Empty,
        winner_of(s.update(j, p)) != p,
    ensures
        move_score(s, p, j) <= 8,
{
    lemma_no_winner_no_line(s);
    lemma_update_owners(s, j, p);
    lemma_owners_winner(s.update(j, p), p);
    if !is_terminal(s.update(j, p)) {
        lemma_empty_count_from_bound(s, 0);
        lemma_empty_count_update(s, j, p);
        lemma_score_bounds(s.update(j, p), p.opponent(), p, 1);
    }
}

/// When the opponent threatens to complete a line through the empty
/// cell `c`, any move of `p` elsewhere scores at most `-8`: the
/// opponent answers at `c` and wins two plies below the scan.
proof fn lemma_move_score_unblocked(s: Seq<Player>, p: Player, c: int, j: int)
    requires
        s.len() == 9,
        p.is_mark(),
        winner_of(s) == Player::Empty,
        0 <= c < 9,
        s[c] == Player::Empty,
        winner_of(s.update(c, p.opponent())) == p.opponent(),
        0 <= j < 9,
        j != c,
        s[j] == Player::Empty,
        winner_of(s.update(j, p)) != p,
    ensures
        move_score(s, p, j) <= -8,
{
    let opp = p.opponent();
    let b1 = s.update(j, p);
    lemma_no_winner_no_line(s);
    lemma_update_owners(s, j, p);
    lemma_owners_winner(b1, p);
    assert(winner_of(b1) == Player::Empty);
    lemma_winner_owns_line(s.update(c, opp));
    assert(!is_draw_of(b1));
    lemma_no_winner_no_line(b1);
    lemma_update_owners(b1, c, opp);
    lemma_owners_winner(b1.update(c, opp), opp);
    assert(owns_line(b1.update(c, opp), opp));
    assert(winner_of(b1.update(c, opp)) == opp);
    lemma_empty_count_from_bound(s, 0);
    lemma_empty_count_update(s, j, p);
    lemma_search_min_le_child(b1, opp, p, 1, 0, 99, c);
}

/// When `c` is the only empty cell whose loss would let the opponent
/// complete a line, blocking there scores at least `-7`: the opponent
/// can then win in no fewer than four plies below the scan.
proof fn lemma_move_score_block(s: Seq<Player>, p: Player, c: int)
    requires
        s.len() == 9,
        p.is_mark(),
        winner_of(s) == Player::Empty,
        0 <= c < 9,
        s[c] == Player::Empty,
        winner_of(s.update(c, p.opponent())) == p.opponent(),
        forall|j: int|
            0 <= j < 9 && j != c && s[j] == Player::Empty ==> winner_of(
                #[trigger] s.update(j, p.opponent()),
            ) != p.opponent(),
        winner_of(s.update(c, p)) != p,
    ensures
        move_score(s, p, c) >= -7,
{
    let opp = p.opponent();
    let b2 = s.update(c, p);
    lemma_no_winner_no_line(s);
    lemma_update_owners(s, c, p);
    lemma_owners_winner(b2, p);
    assert(winner_of(b2) == Player::Empty);
    lemma_empty_count_from_bound(s, 0);
    lemma_empty_count_update(s, c, p);
    if !is_terminal(b2) {
        assert forall|r: int| 0 <= r < 9 && b2[r] == Player::Empty implies minimax_score(
            #[trigger] b2.update(r, opp),
            p,
            p,
            2,
        ) >= -7 by {
            let b2r = b2.update(r, opp);
            lemma_no_winner_no_line(b2);
            lemma_update_owners(b2, r, opp);
            lemma_owners_winner(b2r, opp);
            if winner_of(b2r) == opp {
                lemma_winner_owns_line(b2r);
                lemma_update_owners(s, r, opp);
                lemma_owners_winner(s.update(r, opp), opp);
                assert(owns_line(s.update(r, opp), opp));
                assert(winner_of(s.update(r, opp)) == opp);
                assert(false);
            }
            assert(winner_of(b2r) == Player::Empty);
            if !is_terminal(b2r) {
                lemma_empty_count_update(b2, r, opp);
                lemma_score_bounds(b2r, p, p, 2);
            }
        }
        lemma_search_min_lb(b2, opp, p, 1, 0, 99, -7);
    }
}

/// When the player to move can complete a line at once, the search
/// plays the winning cell — the earliest one in scan order, when there
/// are several.
pub proof fn lemma_best_move_wins(s: Seq<Player>, p: Player, w: int)
    requires
        s.len() == 9,
        p.is_mark(),
        winner_of(s) == Player::Empty,
        !is_draw_of(s),
        0 <= w < 9,
        s[w] == Player::Empty,
        winner_of(s.update(w, p)) == p,
        forall|j: int|
            0 <= j < w && s[j] == Player::Empty ==> winner_of(#[trigger] s.update(j, p)) != p,
    ensures
        best_move_spec(s, p) == coord(w),
        move_score(s, p, w) == 9,
{
    lemma_move_score_win(s, p, w);
    assert forall|j: int| 0 <= j < w && s[j] == Player::Empty implies #[trigger] move_score(
        s,
        p,
        j,
    ) < move_score(s, p, w) by {
        lemma_move_score_capped(s, p, j);
    }
    assert forall|j: int| w < j < 9 && s[j] == Player::Empty implies #[trigger] move_score(
        s,
        p,
        j,
    ) <= move_score(s, p, w) by {
        if winner_of(s.update(j, p)) == p {
            lemma_move_score_win(s, p, j);
        } else {
            lemma_move_score_capped(s, p, j);
        }
    }
    lemma_select_picks(s, p, w);
}

/// When the player to move cannot win at once and exactly one empty
/// cell would let the opponent complete a line next turn, the search
/// blocks that cell.
pub proof fn lemma_best_move_blocks(s: Seq<Player>, p: Player, c: int)
    requires
        s.len() == 9,
        p.is_mark(),
        winner_of(s) == Player::Empty,
        0 <= c < 9,
        s[c] == Player::Empty,
        winner_of(s.update(c, p.opponent())) == p.opponent(),
        forall|j: int|
            0 <= j < 9 && j != c && s[j] == Player::Empty ==> winner_of(
                #[trigger] s.update(j, p.opponent()),
            ) != p.opponent(),
        forall|j: int|
            0 <= j < 9 && s[j] == Player::Empty ==> winner_of(#[trigger] s.update(j, p)) != p,
    ensures
        best_move_spec(s, p) == coord(c),
{
    lemma_move_score_block(s, p, c);
    assert forall|j: int| 0 <= j < 9 && j != c && s[j] == Player::Empty implies #[trigger]
    move_score(s, p, j) <= -8 by {
        lemma_move_score_unblocked(s, p, c, j);
    }
    lemma_select_picks(s, p, c);
}

} // verus!
