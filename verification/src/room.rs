//! Room identifiers and the distance between two rooms.

use vstd::prelude::*;
use crate::text::{
    decimal_digits, digit_char, digit_of, digit_value, is_digit, is_shortest_numeral,
    lemma_digits_spell, lemma_spelt_digits, number_from, parse_number, push_decimal,
};

verus! {

/// A room, named by its block, its floor and its number on that floor.
#[derive(Clone, Copy, Debug, PartialEq, Eq, Structural)]
pub struct RoomId {
    pub block: char,
    pub floor: u8,
    pub number: u64,
}

/// The distance that marks a room that is no candidate. No two rooms are this
/// far apart, so it sorts behind every real distance.
pub const NO_CANDIDATE: u128 = u128::MAX;

/// The ASCII upper-case form of a character; any other character is itself.
pub open spec fn upper(c: char) -> char {
    if 'a' <= c && c <= 'z' {
        ((c as u32) - 32) as char
    } else {
        c
    }
}

/// The room that the code `s` names: a block character, one digit for the
/// floor, then the numeral of the room number. The block is stored in upper
/// case. `None` for a code of fewer than three characters, for one whose
/// second character is no digit, and for one whose rest is no numeral (or a
/// numeral too large for 64 bits).
pub open spec fn parse_room(s: Seq<char>) -> Option<RoomId> {
    if s.len() >= 3 && is_digit(s[1]) && parse_number(s.skip(2)) is Some {
        Some(
            RoomId {
                block: upper(s[0]),
                floor: digit_value(s[1]) as u8,
                number: parse_number(s.skip(2)).unwrap(),
            },
        )
    } else {
        None
    }
}

/// The code of a room: block, floor and number without separators.
pub open spec fn format_room(r: RoomId) -> Seq<char> {
    seq![r.block] + decimal_digits(r.floor as nat) + decimal_digits(r.number as nat)
}

/// A code with its block in upper case.
pub open spec fn normalized(s: Seq<char>) -> Seq<char> {
    if s.len() > 0 {
        s.update(0, upper(s[0]))
    } else {
        s
    }
}

/// How far two numbers are apart.
pub open spec fn gap(a: int, b: int) -> int {
    if a >= b {
        a - b
    } else {
        b - a
    }
}

/// The distance between two rooms: a block counts 1000, a floor 100 and a
/// room number 1.
pub open spec fn distance(a: RoomId, b: RoomId) -> int {
    gap(a.block as int, b.block as int) * 1000 + gap(a.floor as int, b.floor as int) * 100 + gap(
        a.number as int,
        b.number as int,
    )
}

/// The distance from `destination` to the room that `code` names, and
/// `NO_CANDIDATE` where `code` names none.
pub open spec fn distance_to_code(destination: RoomId, code: Seq<char>) -> int {
    match parse_room(code) {
        Some(room) => distance(destination, room),
        None => NO_CANDIDATE as int,
    }
}

impl RoomId {
    /// Whether the floor is a single digit and the block is in upper case, as
    /// in every room that `from_str` returns.
    pub open spec fn wf(self) -> bool {
        self.floor <= 9 && upper(self.block) == self.block
    }

    /// Reads a room code such as `B3025`.
    pub fn from_str(s: &str) -> (res: Option<RoomId>)
        ensures
            res == parse_room(s@),
            res matches Some(room) ==> room.wf(),
    {
        let len = s.unicode_len();
        if len < 3 {
            return None;
        }
        let block = to_upper(s.get_char(0));
        let floor = match digit_of(s.get_char(1)) {
            Some(f) => f,
            None => {
                return None;
            },
        };
        match number_from(s, 2) {
            Some(number) => Some(RoomId { block, floor, number }),
            None => None,
        }
    }

    /// Writes the room as its code, such as `B3025`.
    pub fn to_string(&self) -> (res: String)
        ensures
            res@ == format_room(*self),
    {
        let mut out = String::new();
        out.push(self.block);
        push_decimal(&mut out, self.floor as u64);
        push_decimal(&mut out, self.number);
        assert(Seq::<char>::empty().push(self.block) == seq![self.block]);
        out
    }
}

/// Computes `upper`.
pub fn to_upper(c: char) -> (r: char)
    ensures
        r == upper(c),
{
    if c >= 'a' && c <= 'z' {
        let b: u8 = c as u8;
        (b - 32) as char
    } else {
        c
    }
}

fn abs_diff(a: u128, b: u128) -> (d: u128)
    ensures
        d == gap(a as int, b as int),
{
    if a >= b {
        a - b
    } else {
        b - a
    }
}

/// The distance from `destination` to the room that the code `room` names;
/// `NO_CANDIDATE` where the code names no room.
pub fn calc_distance(destination: &RoomId, room: &str) -> (d: u128)
    ensures
        d == distance_to_code(*destination, room@),
        parse_room(room@) is Some <==> d != NO_CANDIDATE,
{
    match RoomId::from_str(room) {
        Some(room_id) => {
            let blocks = abs_diff(room_id.block as u32 as u128, destination.block as u32 as u128);
            let floors = abs_diff(room_id.floor as u128, destination.floor as u128);
            let numbers = abs_diff(room_id.number as u128, destination.number as u128);
            blocks * 1000 + floors * 100 + numbers
        },
        None => NO_CANDIDATE,
    }
}

/// The distance does not depend on the direction.
pub proof fn lemma_distance_symmetric(a: RoomId, b: RoomId)
    ensures
        distance(a, b) == distance(b, a),
{
}

/// Two rooms are at distance zero exactly if they are the same room.
pub proof fn lemma_distance_zero(a: RoomId, b: RoomId)
    ensures
        distance(a, b) == 0 <==> a == b,
        distance(a, a) == 0,
{
}

/// A distance between two rooms is never negative and always below
/// `NO_CANDIDATE`.
pub proof fn lemma_distance_bounded(a: RoomId, b: RoomId)
    ensures
        0 <= distance(a, b) < NO_CANDIDATE,
{
}

/// Reading the code of a well-formed room gives that room back.
pub proof fn lemma_parse_format(room: RoomId)
    requires
        room.wf(),
    ensures
        parse_room(format_room(room)) == Some(room),
{
    let s = format_room(room);
    let digits = decimal_digits(room.number as nat);
    lemma_digits_spell(room.number as nat);
    assert(decimal_digits(room.floor as nat) == seq![digit_char(room.floor as nat)]);
    assert(s.skip(2) == digits);
    assert(s[0] == room.block);
    assert(digits[0] != '+');
}

/// Writing the room that a code names gives the code back with its block in
/// upper case, provided that the code spells the room number in the shortest
/// way: without a plus sign and without leading zeros.
pub proof fn lemma_format_parse(s: Seq<char>)
    requires
        parse_room(s) is Some,
        is_shortest_numeral(s.skip(2)),
    ensures
        format_room(parse_room(s).unwrap()) == normalized(s),
{
    let room = parse_room(s).unwrap();
    let tail = s.skip(2);
    assert(tail[0] != '+');
    lemma_spelt_digits(tail);
    assert(decimal_digits(room.number as nat) == tail);
    assert(decimal_digits(room.floor as nat) == seq![s[1]]);
    assert(format_room(room) == normalized(s));
}

} // verus!
