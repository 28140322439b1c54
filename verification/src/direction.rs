//! The four moves a snake may answer with, and the case-insensitive parser
//! for the wire form (`"up"`, `"down"`, `"left"`, `"right"`).

use vstd::prelude::*;

verus! {

/// A direction chosen by a snake for one turn.
#[derive(Clone, Copy, Debug, PartialEq, Eq, Structural)]
pub enum Direction {
    Up,
    Down,
    Left,
    Right,
}

/// ASCII lower-case folding of one character; characters outside `A..Z`
/// are unchanged.
pub open spec fn fold_char(c: char) -> char {
    if 'A' as u32 <= c as u32 && c as u32 <= 'Z' as u32 {
        (c as u32 + 32) as char
    } else {
        c
    }
}

/// ASCII lower-case folding of a character sequence.
pub open spec fn fold_chars(s: Seq<char>) -> Seq<char> {
    s.map_values(|c: char| fold_char(c))
}

/// The wire spelling of a direction, as sent by snake servers.
pub open spec fn direction_chars(d: Direction) -> Seq<char> {
    match d {
        Direction::Up => "up"@,
        Direction::Down => "down"@,
        Direction::Left => "left"@,
        Direction::Right => "right"@,
    }
}

/// What `parse_direction` returns: the direction whose spelling the input
/// matches up to ASCII case, if any. Parsing does not trim whitespace.
pub open spec fn spec_parse_direction(s: Seq<char>) -> Option<Direction> {
    if fold_chars(s) == direction_chars(Direction::Up) {
        Some(Direction::Up)
    } else if fold_chars(s) == direction_chars(Direction::Down) {
        Some(Direction::Down)
    } else if fold_chars(s) == direction_chars(Direction::Left) {
        Some(Direction::Left)
    } else if fold_chars(s) == direction_chars(Direction::Right) {
        Some(Direction::Right)
    } else {
        None
    }
}

/// Whether a character is an ASCII lower-case letter.
pub open spec fn is_ascii_lower(c: char) -> bool {
    'a' as u32 <= c as u32 && c as u32 <= 'z' as u32
}

/// Whether `c` folds to the lower-case letter `lo`.
fn char_eq_fold(c: char, lo: char) -> (b: bool)
    requires
        is_ascii_lower(lo),
    ensures
        b == (fold_char(c) == lo),
{
    let n = c as u32;
    if c == lo {
        true
    } else if 65 <= n && n <= 90 {
        n + 32 == lo as u32
    } else {
        false
    }
}

/// Whether the folding of `s` is exactly the (lower-case ASCII) word `w`.
fn str_eq_fold(s: &str, w: &str) -> (b: bool)
    requires
        forall|i: int| 0 <= i < w@.len() ==> #[trigger] is_ascii_lower(w@[i]),
    ensures
        b == (fold_chars(s@) == w@),
{
    let ns = s.unicode_len();
    let nw = w.unicode_len();
    if ns != nw {
        assert(fold_chars(s@).len() == s@.len());
        return false;
    }
    let mut i: usize = 0;
    while i < ns
        invariant
            forall|j: int| 0 <= j < w@.len() ==> #[trigger] is_ascii_lower(w@[j]),
            ns == s@.len() && ns == w@.len(),
            0 <= i <= ns,
            forall|j: int| 0 <= j < i ==> fold_chars(s@)[j] == w@[j],
        decreases ns - i,
    {
        let wc = w.get_char(i);
        assert(is_ascii_lower(w@[i as int]));
        if !char_eq_fold(s.get_char(i), wc) {
            assert(fold_chars(s@)[i as int] != w@[i as int]);
            return false;
        }
        i += 1;
    }
    assert(fold_chars(s@) =~= w@);
    true
}

/// Parse a direction string, case-insensitively and without trimming.
///
/// Returns the direction whose spelling matches the input up to ASCII case,
/// and `None` for anything else.
pub fn parse_direction(s: &str) -> (r: Option<Direction>)
    ensures
        r == spec_parse_direction(s@),
{
    proof {
        reveal_strlit("up");
        reveal_strlit("down");
        reveal_strlit("left");
        reveal_strlit("right");
    }
    if str_eq_fold(s, "up") {
        Some(Direction::Up)
    } else if str_eq_fold(s, "down") {
        Some(Direction::Down)
    } else if str_eq_fold(s, "left") {
        Some(Direction::Left)
    } else if str_eq_fold(s, "right") {
        Some(Direction::Right)
    } else {
        None
    }
}

impl Direction {
    /// The wire spelling of this direction.
    pub fn as_str(self) -> (r: &'static str)
        ensures
            r@ == direction_chars(self),
    {
        match self {
            Direction::Up => "up",
            Direction::Down => "down",
            Direction::Left => "left",
            Direction::Right => "right",
        }
    }
}

/// Folding is idempotent: folding a folded sequence changes nothing.
proof fn lemma_fold_chars_idempotent(s: Seq<char>)
    ensures
        fold_chars(fold_chars(s)) == fold_chars(s),
{
    assert(fold_chars(fold_chars(s)) =~= fold_chars(s));
}

/// Round trip: parsing the wire spelling of any direction — under any ASCII
/// casing — yields that direction back.
pub proof fn lemma_direction_round_trip(d: Direction, s: Seq<char>)
    requires
        fold_chars(s) == fold_chars(direction_chars(d)),
    ensures
        spec_parse_direction(s) == Some(d),
{
    reveal_strlit("up");
    reveal_strlit("down");
    reveal_strlit("left");
    reveal_strlit("right");
    lemma_fold_chars_idempotent(direction_chars(d));
    assert(fold_chars(direction_chars(d)) =~= direction_chars(d));
    assert(fold_chars(s) == direction_chars(d));
    assert(direction_chars(Direction::Up).len() == 2);
    assert(direction_chars(Direction::Down)[0] == 'd');
    assert(direction_chars(Direction::Left)[0] == 'l');
    assert(direction_chars(Direction::Right).len() == 5);
}

} // verus!
