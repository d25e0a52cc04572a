use vstd::prelude::*;

use crate::chess_engine::{digit_char, in_bounds, push_char, TeamLoyalty, Vec2};

verus! {

/// The side a player plays in a match: the match's first player is white.
pub fn get_player_color(user_id: &String, player_1: &String) -> (r: TeamLoyalty)
    ensures
        r == (if user_id@ == player_1@ { TeamLoyalty::WHITE } else { TeamLoyalty::BLACK }),
{
    if user_id.eq(player_1) {
        TeamLoyalty::WHITE
    } else {
        TeamLoyalty::BLACK
    }
}

/// The text of a move sent to the server: origin column, origin row,
/// destination column, destination row, separated by `:`.
pub open spec fn move_text(from: Vec2, to: Vec2) -> Seq<char> {
    seq![
        digit_char(from.x as nat), ':', digit_char(from.y as nat), ':',
        digit_char(to.x as nat), ':', digit_char(to.y as nat),
    ]
}

/// The fields of a message, split at each `:`, read left to right.
pub open spec fn colon_fields(s: Seq<char>) -> Seq<Seq<char>>
    decreases s.len(),
{
    if s.len() == 0 {
        seq![Seq::empty()]
    } else {
        let f = colon_fields(s.drop_last());
        if s.last() == ':' {
            f.push(Seq::empty())
        } else {
            f.update(f.len() - 1, f.last().push(s.last()))
        }
    }
}

/// An ASCII decimal digit.
pub open spec fn is_decimal_digit(c: char) -> bool {
    '0' <= c && c <= '9'
}

/// The decimal value of a string of digits.
pub open spec fn decimal_value(f: Seq<char>) -> nat
    decreases f.len(),
{
    if f.len() == 0 {
        0
    } else {
        10 * decimal_value(f.drop_last()) + (f.last() as u32 - '0' as u32) as nat
    }
}

/// The board coordinate that a field names: one or more digits whose value is below eight.
pub open spec fn coordinate_of(f: Seq<char>) -> Option<i32> {
    if f.len() > 0 && (forall|j: int| 0 <= j < f.len() ==> #[trigger] is_decimal_digit(f[j]))
        && decimal_value(f) < 8 {
        Some(decimal_value(f) as i32)
    } else {
        None
    }
}

/// The move that a server reply names: exactly four coordinate fields, or nothing.
pub open spec fn reply_move(s: Seq<char>) -> Option<(Vec2, Vec2)> {
    let fs = colon_fields(s);
    if fs.len() == 4 && coordinate_of(fs[0]) is Some && coordinate_of(fs[1]) is Some
        && coordinate_of(fs[2]) is Some && coordinate_of(fs[3]) is Some {
        Some(
            (
                Vec2 { x: coordinate_of(fs[0])->Some_0, y: coordinate_of(fs[1])->Some_0 },
                Vec2 { x: coordinate_of(fs[2])->Some_0, y: coordinate_of(fs[3])->Some_0 },
            ),
        )
    } else {
        None
    }
}

/// What has been read of a field so far: its length, whether all of it are
/// digits, and, if so, its value, held at eight once it reaches eight.
pub open spec fn field_state(f: Seq<char>, len: usize, digits: bool, acc: u32) -> bool {
    &&& len == f.len()
    &&& digits == (forall|j: int| 0 <= j < f.len() ==> #[trigger] is_decimal_digit(f[j]))
    &&& acc <= 8
    &&& digits ==> acc == (if decimal_value(f) < 8 { decimal_value(f) } else { 8 })
}

/// The coordinate of a completely read field.
fn finish_field(Ghost(f): Ghost<Seq<char>>, len: usize, digits: bool, acc: u32) -> (r: Option<i32>)
    requires
        field_state(f, len, digits, acc),
    ensures
        r == coordinate_of(f),
{
    if len > 0 && digits && acc < 8 {
        Some(acc as i32)
    } else {
        None
    }
}

/// The character of a coordinate from zero to seven.
fn coordinate_char(v: i32) -> (r: char)
    requires
        0 <= v < 8,
    ensures
        r == digit_char(v as nat),
{
    match v {
        0 => '0',
        1 => '1',
        2 => '2',
        3 => '3',
        4 => '4',
        5 => '5',
        6 => '6',
        _ => '7',
    }
}

/// The message that reports a move to the server.
pub fn move_message(from: Vec2, to: Vec2) -> (r: String)
    requires
        in_bounds(from),
        in_bounds(to),
    ensures
        r@ == move_text(from, to),
{
    let mut out = String::new();
    push_char(&mut out, coordinate_char(from.x));
    push_char(&mut out, ':');
    push_char(&mut out, coordinate_char(from.y));
    push_char(&mut out, ':');
    push_char(&mut out, coordinate_char(to.x));
    push_char(&mut out, ':');
    push_char(&mut out, coordinate_char(to.y));
    assert(out@ =~= move_text(from, to));
    out
}

/// Reads the move that a server reply names; any other reply (a status
/// word, a malformed or off-board move) names none.
pub fn parse_move_message(reply: &String) -> (r: Option<(Vec2, Vec2)>)
    ensures
        r == reply_move(reply@),
{
    let s = reply.as_str();
    let n = s.unicode_len();
    let mut done: Vec<Option<i32>> = Vec::new();
    let mut len: usize = 0;
    let mut digits = true;
    let mut acc: u32 = 0;
    let mut i: usize = 0;
    assert(s@.take(0) =~= Seq::<char>::empty());
    while i < n
        invariant
            s@ == reply@,
            n == s@.len(),
            i <= n,
            len <= i,
            done@.len() + 1 == colon_fields(s@.take(i as int)).len(),
            forall|k: int| 0 <= k < done@.len() ==> done@[k] == coordinate_of(#[trigger] colon_fields(s@.take(i as int))[k]),
            field_state(colon_fields(s@.take(i as int)).last(), len, digits, acc),
        decreases n - i,
    {
        let c = s.get_char(i);
        let ghost fs = colon_fields(s@.take(i as int));
        assert(s@.take(i + 1).drop_last() =~= s@.take(i as int));
        if c == ':' {
            let v = finish_field(Ghost(fs.last()), len, digits, acc);
            done.push(v);
            len = 0;
            digits = true;
            acc = 0;
            assert(field_state(colon_fields(s@.take(i + 1)).last(), len, digits, acc));
        } else {
            let ghost f = fs.last();
            let ghost g = f.push(c);
            assert(g.drop_last() =~= f);
            len = len + 1;
            if '0' <= c && c <= '9' {
                if digits {
                    acc = if acc >= 8 { 8 } else if acc * 10 + (c as u32 - '0' as u32) >= 8 {
                        8
                    } else {
                        acc * 10 + (c as u32 - '0' as u32)
                    };
                }
                assert(forall|j: int| 0 <= j < f.len() ==> g[j] == f[j]);
            } else {
                digits = false;
                assert(!is_decimal_digit(g[g.len() - 1]));
            }
            assert(colon_fields(s@.take(i + 1)).last() == g);
            assert(field_state(g, len, digits, acc));
        }
        i = i + 1;
    }
    assert(s@.take(n as int) =~= s@);
    let ghost fs = colon_fields(s@);
    let last = finish_field(Ghost(fs.last()), len, digits, acc);
    done.push(last);
    if done.len() != 4 {
        return None;
    }
    assert(forall|k: int| 0 <= k < 4 ==> done@[k] == coordinate_of(#[trigger] fs[k]));
    match (done[0], done[1], done[2], done[3]) {
        (Some(a), Some(b), Some(c), Some(d)) => Some((Vec2 { x: a, y: b }, Vec2 { x: c, y: d })),
        _ => None,
    }
}

/// A coordinate's digit reads back as the coordinate.
proof fn lemma_coordinate_char(v: i32)
    requires
        0 <= v < 8,
    ensures
        coordinate_of(seq![digit_char(v as nat)]) == Some(v),
        digit_char(v as nat) != ':',
{
    let f = seq![digit_char(v as nat)];
    assert(f.drop_last() =~= Seq::<char>::empty());
    assert(decimal_value(f.drop_last()) == 0);
    assert(decimal_value(f) == v);
}

/// Reading the message that reports a move gives back that move.
pub proof fn lemma_move_message_round_trip(from: Vec2, to: Vec2)
    requires
        in_bounds(from),
        in_bounds(to),
    ensures
        reply_move(move_text(from, to)) == Some((from, to)),
{
    let m = move_text(from, to);
    let a = digit_char(from.x as nat);
    let b = digit_char(from.y as nat);
    let c = digit_char(to.x as nat);
    let d = digit_char(to.y as nat);
    lemma_coordinate_char(from.x);
    lemma_coordinate_char(from.y);
    lemma_coordinate_char(to.x);
    lemma_coordinate_char(to.y);
    let e = Seq::<char>::empty();
    assert(m.take(0) =~= e);
    assert(colon_fields(m.take(0)) == seq![e]);
    assert(m.take(1).drop_last() =~= m.take(0));
    assert(m.take(1).last() == a);
    assert(colon_fields(m.take(1)) =~= seq![seq![a]]);
    assert(m.take(2).drop_last() =~= m.take(1));
    assert(m.take(2).last() == ':');
    assert(colon_fields(m.take(2)) =~= seq![seq![a], e]);
    assert(m.take(3).drop_last() =~= m.take(2));
    assert(m.take(3).last() == b);
    assert(colon_fields(m.take(3)) =~= seq![seq![a], seq![b]]);
    assert(m.take(4).drop_last() =~= m.take(3));
    assert(m.take(4).last() == ':');
    assert(colon_fields(m.take(4)) =~= seq![seq![a], seq![b], e]);
    assert(m.take(5).drop_last() =~= m.take(4));
    assert(m.take(5).last() == c);
    assert(colon_fields(m.take(5)) =~= seq![seq![a], seq![b], seq![c]]);
    assert(m.take(6).drop_last() =~= m.take(5));
    assert(m.take(6).last() == ':');
    assert(colon_fields(m.take(6)) =~= seq![seq![a], seq![b], seq![c], e]);
    assert(m.take(7).drop_last() =~= m.take(6));
    assert(m.take(7).last() == d);
    assert(m.take(7) =~= m);
    assert(colon_fields(m) =~= seq![seq![a], seq![b], seq![c], seq![d]]);
}

} // verus!
