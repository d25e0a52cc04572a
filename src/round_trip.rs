use vstd::prelude::*;

use crate::chess_engine::{
    Board,     decode, digit_char, digit_value, encode, encode_row, encode_rows, glyph_of, is_full_grid,
    is_piece_char, is_placement_char, is_real_piece, is_run_digit, notation_placement, notation_turn,
    piece_of_char, placement_rows, run_text, squares_of_char, turn_char, GameEntity, TeamLoyalty,
};

verus! {

/// The rows read from `a` followed by the rows read from `b`, where the
/// last row of `a` and the first row of `b` are one row.
pub open spec fn join_rows(
    a: Seq<Seq<Option<GameEntity>>>,
    b: Seq<Seq<Option<GameEntity>>>,
) -> Seq<Seq<Option<GameEntity>>> {
    a.drop_last() + seq![a.last() + b[0]] + b.drop_first()
}

/// A placement string always yields at least one row.
pub proof fn lemma_rows_nonempty(p: Seq<char>)
    ensures
        placement_rows(p).len() >= 1,
    decreases p.len(),
{
    if p.len() > 0 {
        lemma_rows_nonempty(p.drop_last());
    }
}

/// Reading a concatenation reads each part and joins the row where they meet.
pub proof fn lemma_rows_concat(p: Seq<char>, q: Seq<char>)
    ensures
        placement_rows(p + q) == join_rows(placement_rows(p), placement_rows(q)),
    decreases q.len(),
{
    let a = placement_rows(p);
    lemma_rows_nonempty(p);
    if q.len() == 0 {
        assert(p + q =~= p);
        assert(join_rows(a, placement_rows(q)) =~= a);
    } else {
        let q1 = q.drop_last();
        let c = q.last();
        lemma_rows_concat(p, q1);
        lemma_rows_nonempty(q1);
        let b1 = placement_rows(q1);
        assert((p + q).drop_last() =~= p + q1);
        assert((p + q).last() == c);
        let j1 = join_rows(a, b1);
        if c == '/' {
            assert(placement_rows(p + q) =~= join_rows(a, placement_rows(q)));
        } else {
            let sq = squares_of_char(c);
            if b1.len() == 1 {
                assert(a.last() + b1[0] + sq =~= a.last() + (b1[0] + sq));
            }
            assert(placement_rows(p + q) =~= join_rows(a, placement_rows(q)));
        }
    }
}

/// The piece as it stands after being read back from notation: not moved yet.
pub open spec fn fresh(o: Option<GameEntity>) -> Option<GameEntity> {
    match o {
        Some(e) => Some(GameEntity { first_move: true, ..e }),
        None => None,
    }
}

/// A row with every piece's first move restored.
pub open spec fn fresh_row(row: Seq<Option<GameEntity>>) -> Seq<Option<GameEntity>> {
    row.map_values(|o: Option<GameEntity>| fresh(o))
}

/// A grid with every piece's first move restored.
pub open spec fn fresh_grid(g: Seq<Seq<Option<GameEntity>>>) -> Seq<Seq<Option<GameEntity>>> {
    g.map_values(|row: Seq<Option<GameEntity>>| fresh_row(row))
}

/// `n` empty squares.
pub open spec fn empties(n: nat) -> Seq<Option<GameEntity>> {
    Seq::new(n, |i: int| None::<GameEntity>)
}

/// Every character of `t` may stand in a row of a placement.
pub open spec fn row_chars(t: Seq<char>) -> bool {
    forall|i: int| 0 <= i < t.len() ==> is_placement_char(#[trigger] t[i]) && t[i] != '/'
}

/// A real piece's glyph reads back as the same piece, not moved yet.
pub proof fn lemma_glyph_round_trip(e: GameEntity)
    requires
        is_real_piece(e),
    ensures
        is_piece_char(glyph_of(e)),
        glyph_of(e) != '/',
        piece_of_char(glyph_of(e)) == fresh(Some(e)),
{
}

/// The text of a pending run reads back as that many empty squares.
pub proof fn lemma_run_round_trip(run: nat)
    requires
        run <= 8,
    ensures
        placement_rows(run_text(run)) == seq![empties(run)],
        row_chars(run_text(run)),
{
    let t = run_text(run);
    if run > 0 {
        let d = digit_char(run);
        assert(is_run_digit(d) && digit_value(d) == run);
        assert(t.drop_last() =~= Seq::<char>::empty());
        let e = Seq::<Option<GameEntity>>::empty();
        assert(placement_rows(t.drop_last()) == seq![e]);
        assert(squares_of_char(d) =~= empties(run));
        assert(e + empties(run) =~= empties(run));
        assert(placement_rows(t) =~= seq![empties(run)]);
    } else {
        assert(empties(0) =~= Seq::empty());
        assert(placement_rows(t) =~= seq![empties(run)]);
    }
}

/// The notation of a row, after a pending run, reads back as one row: the
/// run's empty squares, then the row with first moves restored.
pub proof fn lemma_row_round_trip(row: Seq<Option<GameEntity>>, run: nat)
    requires
        run + row.len() <= 8,
        forall|j: int| 0 <= j < row.len() ==> match #[trigger] row[j] {
            Some(e) => is_real_piece(e),
            None => true,
        },
    ensures
        placement_rows(encode_row(row, run)) == seq![empties(run) + fresh_row(row)],
        row_chars(encode_row(row, run)),
    decreases row.len(),
{
    if row.len() == 0 {
        lemma_run_round_trip(run);
        assert(empties(run) + fresh_row(row) =~= empties(run));
    } else {
        let rest = row.drop_first();
        assert forall|j: int| 0 <= j < rest.len() implies match #[trigger] rest[j] {
            Some(e) => is_real_piece(e),
            None => true,
        } by {
            assert(rest[j] == row[j + 1]);
        }
        match row[0] {
            None => {
                lemma_row_round_trip(rest, run + 1);
                assert(empties(run + 1) + fresh_row(rest) =~= empties(run) + fresh_row(row));
            },
            Some(e) => {
                lemma_row_round_trip(rest, 0);
                lemma_run_round_trip(run);
                lemma_glyph_round_trip(e);
                let g = glyph_of(e);
                let a = run_text(run) + seq![g];
                let b = encode_row(rest, 0);
                assert(a.drop_last() =~= run_text(run));
                assert(placement_rows(a) =~= seq![empties(run) + seq![fresh(Some(e))]]);
                lemma_rows_concat(a, b);
                assert(encode_row(row, run) == a + b);
                assert(empties(run) + seq![fresh(Some(e))] + (empties(0) + fresh_row(rest))
                    =~= empties(run) + fresh_row(row));
                assert(placement_rows(a + b) =~= seq![empties(run) + fresh_row(row)]);
                assert(row_chars(a + b)) by {
                    assert forall|i: int| 0 <= i < (a + b).len() implies is_placement_char(#[trigger] (a + b)[i])
                        && (a + b)[i] != '/' by {
                        if i < a.len() {
                            assert((a + b)[i] == a[i]);
                            if i < run_text(run).len() {
                                assert(a[i] == run_text(run)[i]);
                            }
                        } else {
                            assert((a + b)[i] == b[i - a.len()]);
                        }
                    }
                }
            },
        }
    }
}

/// The notation of the rows of a grid of eight-square rows reads back as
/// the same grid, with first moves restored.
pub proof fn lemma_rows_round_trip(g: Seq<Seq<Option<GameEntity>>>)
    requires
        g.len() >= 1,
        forall|r: int| 0 <= r < g.len() ==> #[trigger] g[r].len() == 8,
        forall|r: int, c: int|
            0 <= r < g.len() && 0 <= c < 8 ==> match #[trigger] g[r][c] {
                Some(e) => is_real_piece(e),
                None => true,
            },
    ensures
        placement_rows(encode_rows(g)) == fresh_grid(g),
        forall|i: int| 0 <= i < encode_rows(g).len() ==> is_placement_char(#[trigger] encode_rows(g)[i]),
    decreases g.len(),
{
    let last = g.last();
    assert forall|j: int| 0 <= j < last.len() implies match #[trigger] last[j] {
        Some(e) => is_real_piece(e),
        None => true,
    } by {
        assert(last[j] == g[g.len() - 1][j]);
    }
    lemma_row_round_trip(last, 0);
    let y = encode_row(last, 0);
    assert(empties(0) + fresh_row(last) =~= fresh_row(last));
    if g.len() == 1 {
        assert(placement_rows(encode_rows(g)) =~= fresh_grid(g));
    } else {
        let front = g.drop_last();
        assert forall|r: int, c: int| 0 <= r < front.len() && 0 <= c < 8 implies match #[trigger] front[r][c] {
            Some(e) => is_real_piece(e),
            None => true,
        } by {
            assert(front[r] == g[r]);
        }
        lemma_rows_round_trip(front);
        let x = encode_rows(front);
        let x1 = x + seq!['/'];
        assert(x1.drop_last() =~= x);
        lemma_rows_nonempty(x);
        assert(placement_rows(x1) == placement_rows(x).push(Seq::empty()));
        lemma_rows_concat(x1, y);
        assert(encode_rows(g) == x1 + y);
        assert(Seq::<Option<GameEntity>>::empty() + fresh_row(last) =~= fresh_row(last));
        assert(placement_rows(x1 + y) =~= fresh_grid(g));
        assert forall|i: int| 0 <= i < (x1 + y).len() implies is_placement_char(#[trigger] (x1 + y)[i]) by {
            if i < x.len() {
                assert((x1 + y)[i] == x[i]);
            } else if i >= x1.len() {
                assert((x1 + y)[i] == y[i - x1.len()]);
            }
        }
    }
}

/// The notation of a full grid and a side to move reads back as that grid,
/// with first moves restored, and that side.
pub proof fn lemma_encode_decode(g: Seq<Seq<Option<GameEntity>>>, t: TeamLoyalty)
    requires
        is_full_grid(g),
        t != TeamLoyalty::NONE,
    ensures
        decode(encode(g, t)) == Ok::<(Seq<Seq<Option<GameEntity>>>, TeamLoyalty), crate::chess_engine::ParseError>((fresh_grid(g), t)),
{
    lemma_rows_round_trip(g);
    let s = encode(g, t);
    let p = encode_rows(g);
    assert(notation_placement(s) =~= p);
    assert(notation_turn(s) == Some(t));
    let rows = placement_rows(p);
    assert(forall|r: int| 0 <= r < 8 ==> #[trigger] rows[r].len() == 8);
}

/// Encoding a well-formed board and decoding the text gives back what
/// stands on every square (kind and team) and the side to move; every
/// piece comes back as not moved yet, whatever it had done before.
pub proof fn lemma_board_round_trip(b: Board)
    requires
        b.wf(),
    ensures
        decode(encode(b.squares(), b.current_turn)) == Ok::<(Seq<Seq<Option<GameEntity>>>, TeamLoyalty), crate::chess_engine::ParseError>(
            (fresh_grid(b.squares()), b.current_turn),
        ),
{
    let g = b.squares();
    assert forall|r: int, c: int| 0 <= r < 8 && 0 <= c < 8 implies match #[trigger] g[r][c] {
        Some(e) => is_real_piece(e),
        None => true,
    } by {
        assert(b.cells@[r]@[c].wf());
    }
    assert(forall|r: int| 0 <= r < 8 ==> #[trigger] g[r].len() == b.cells@[r]@.len());
    lemma_encode_decode(g, b.current_turn);
}

/// What a placement string places: nothing, or a real piece that has not moved.
pub open spec fn is_fresh_square(o: Option<GameEntity>) -> bool {
    match o {
        Some(e) => is_real_piece(e) && e.first_move,
        None => true,
    }
}

/// Every square that a placement string describes is empty or holds a real, unmoved piece.
pub proof fn lemma_rows_fresh(p: Seq<char>)
    ensures
        forall|r: int, c: int|
            0 <= r < placement_rows(p).len() && 0 <= c < placement_rows(p)[r].len()
                ==> is_fresh_square(#[trigger] placement_rows(p)[r][c]),
    decreases p.len(),
{
    if p.len() > 0 {
        lemma_rows_fresh(p.drop_last());
        lemma_rows_nonempty(p.drop_last());
        let rows = placement_rows(p.drop_last());
        let sq = squares_of_char(p.last());
        assert(forall|c: int| 0 <= c < sq.len() ==> is_fresh_square(#[trigger] sq[c]));
        let last = rows.last() + sq;
        assert forall|c: int| 0 <= c < last.len() implies is_fresh_square(#[trigger] last[c]) by {
            if c < rows.last().len() {
                assert(last[c] == rows[rows.len() - 1][c]);
            } else {
                assert(last[c] == sq[c - rows.last().len()]);
            }
        }
    }
}

/// Decoding, encoding what was decoded, and decoding again gives the same
/// squares and side to move: for every valid notation, the encoder keeps
/// each square's occupancy, kind and team, and the turn.
pub proof fn lemma_decode_encode_decode(s: Seq<char>)
    requires
        decode(s) is Ok,
    ensures
        decode(encode(decode(s)->Ok_0.0, decode(s)->Ok_0.1)) == decode(s),
{
    let g = decode(s)->Ok_0.0;
    let t = decode(s)->Ok_0.1;
    lemma_rows_fresh(notation_placement(s));
    assert(g.len() == 8);
    assert forall|r: int, c: int| 0 <= r < 8 && 0 <= c < 8 implies match #[trigger] g[r][c] {
        Some(e) => is_real_piece(e),
        None => true,
    } by {
        assert(is_fresh_square(g[r][c]));
    }
    lemma_encode_decode(g, t);
    assert forall|r: int| 0 <= r < 8 implies #[trigger] fresh_grid(g)[r] == g[r] by {
        assert forall|c: int| 0 <= c < 8 implies #[trigger] fresh_row(g[r])[c] == g[r][c] by {
            assert(is_fresh_square(g[r][c]));
        }
        assert(fresh_row(g[r]) =~= g[r]);
    }
    assert(fresh_grid(g) =~= g);
}

} // verus!
