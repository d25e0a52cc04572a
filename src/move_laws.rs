use vstd::prelude::*;

use crate::chess_engine::{
    dist_x, dist_y, holds_friend, in_bounds, is_full_grid, legal_move, max, min, path_clear,
    set_square, square, EntityType, GameEntity, Vec2,
};

verus! {

/// A knight's move is legal exactly when it goes two squares along one axis
/// and one along the other, whatever stands anywhere on the board.
pub proof fn lemma_knight_ignores_board(
    g: Seq<Seq<Option<GameEntity>>>,
    from: Vec2,
    to: Vec2,
    piece: GameEntity,
)
    requires
        piece.entity_type == EntityType::KNIGHT,
    ensures
        legal_move(g, from, to, piece) <==> ((dist_x(from, to) == 1 && dist_y(from, to) == 2) || (
        dist_x(from, to) == 2 && dist_y(from, to) == 1)),
{
}

/// Square (`x`, `y`) lies strictly between `from` and `to` on their common row or column.
pub open spec fn between_straight(from: Vec2, to: Vec2, x: int, y: int) -> bool {
    ||| (from.y == to.y && y == from.y && min(from.x as int, to.x as int) < x < max(from.x as int, to.x as int))
    ||| (from.x == to.x && x == from.x && min(from.y as int, to.y as int) < y < max(from.y as int, to.y as int))
}

/// A rook cannot pass over an occupied square, whatever its team.
pub proof fn lemma_rook_blocked(
    g: Seq<Seq<Option<GameEntity>>>,
    from: Vec2,
    to: Vec2,
    piece: GameEntity,
    mid: Vec2,
)
    requires
        is_full_grid(g),
        in_bounds(from),
        in_bounds(to),
        piece.entity_type == EntityType::ROOK,
        between_straight(from, to, mid.x as int, mid.y as int),
        square(g, mid) is Some,
    ensures
        !legal_move(g, from, to, piece),
{
    if from.y == to.y {
        assert(g[from.y as int][mid.x as int] is Some);
    } else {
        assert(g[mid.y as int][from.x as int] is Some);
    }
}

/// Where the only occupied square on a rook's straight path is `mid`, and
/// the destination holds no piece of its own team, the same move is legal
/// once `mid` is empty.
pub proof fn lemma_rook_unblocked(
    g: Seq<Seq<Option<GameEntity>>>,
    from: Vec2,
    to: Vec2,
    piece: GameEntity,
    mid: Vec2,
)
    requires
        is_full_grid(g),
        in_bounds(from),
        in_bounds(to),
        piece.entity_type == EntityType::ROOK,
        between_straight(from, to, mid.x as int, mid.y as int),
        forall|x: int, y: int|
            between_straight(from, to, x, y) && !(x == mid.x && y == mid.y) ==> (#[trigger] g[y][x]) is None,
        !holds_friend(g, to, piece),
    ensures
        legal_move(set_square(g, mid, None), from, to, piece),
{
    let h = set_square(g, mid, None);
    assert(from != to);
    assert(square(h, to) == square(g, to));
    if from.y == to.y {
        assert forall|x: int| min(from.x as int, to.x as int) < x < max(from.x as int, to.x as int)
            implies (#[trigger] h[from.y as int][x]).is_none() by {
            assert(between_straight(from, to, x, from.y as int));
            if x != mid.x {
                assert(g[from.y as int][x] is None);
            }
        }
    } else {
        assert forall|y: int| min(from.y as int, to.y as int) < y < max(from.y as int, to.y as int)
            implies (#[trigger] h[y][from.x as int]).is_none() by {
            assert(between_straight(from, to, from.x as int, y));
            if y != mid.y {
                assert(g[y][from.x as int] is None);
            }
        }
    }
    assert(path_clear(h, from, to));
}

/// A pawn may go two squares straight ahead over an empty square onto an
/// empty one exactly while its first move is still ahead of it.
pub proof fn lemma_pawn_double_step(
    g: Seq<Seq<Option<GameEntity>>>,
    from: Vec2,
    to: Vec2,
    piece: GameEntity,
)
    requires
        is_full_grid(g),
        in_bounds(from),
        in_bounds(to),
        piece.entity_type == EntityType::PAWN,
        to.x == from.x,
        dist_y(from, to) == 2,
        square(g, to) is None,
        g[min(from.y as int, to.y as int) + 1][from.x as int] is None,
    ensures
        legal_move(g, from, to, piece) == piece.first_move,
{
    assert forall|y: int| min(from.y as int, to.y as int) < y < max(from.y as int, to.y as int)
        implies (#[trigger] g[y][from.x as int]).is_none() by {
        assert(y == min(from.y as int, to.y as int) + 1);
    }
}

/// A pawn may always go one square straight onto an empty square, moved or not.
pub proof fn lemma_pawn_single_step(
    g: Seq<Seq<Option<GameEntity>>>,
    from: Vec2,
    to: Vec2,
    piece: GameEntity,
)
    requires
        is_full_grid(g),
        in_bounds(from),
        in_bounds(to),
        piece.entity_type == EntityType::PAWN,
        to.x == from.x,
        dist_y(from, to) == 1,
        square(g, to) is None,
    ensures
        legal_move(g, from, to, piece),
{
}

} // verus!
