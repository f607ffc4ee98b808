//! The four directions and their keys.

use vstd::prelude::*;

use crate::text::same_text;

verus! {

/// A direction of navigation.
#[derive(Clone, Copy, Debug, PartialEq, Eq, Structural)]
pub enum Direction {
    Left,
    Down,
    Up,
    Right,
}

/// The direction with a name.
pub open spec fn direction_named(name: Seq<char>) -> Option<Direction> {
    if name == "left"@ {
        Some(Direction::Left)
    } else if name == "down"@ {
        Some(Direction::Down)
    } else if name == "up"@ {
        Some(Direction::Up)
    } else if name == "right"@ {
        Some(Direction::Right)
    } else {
        None
    }
}

/// The direction with a name.
pub fn read_direction(name: &str) -> (r: Option<Direction>)
    ensures
        r == direction_named(name@),
{
    if same_text(name, "left") {
        Some(Direction::Left)
    } else if same_text(name, "down") {
        Some(Direction::Down)
    } else if same_text(name, "up") {
        Some(Direction::Up)
    } else if same_text(name, "right") {
        Some(Direction::Right)
    } else {
        None
    }
}

/// The control key of a named direction.
pub open spec fn ctrl_key_of(name: Seq<char>) -> Option<Seq<char>> {
    match direction_named(name) {
        Some(Direction::Left) => Some("ctrl+h"@),
        Some(Direction::Down) => Some("ctrl+j"@),
        Some(Direction::Up) => Some("ctrl+k"@),
        Some(Direction::Right) => Some("ctrl+l"@),
        None => None,
    }
}

/// The control key of a named direction.
pub fn ctrl_key(direction: &str) -> (r: Option<&'static str>)
    ensures
        match r {
            Some(key) => ctrl_key_of(direction@) == Some(key@),
            None => ctrl_key_of(direction@) is None,
        },
{
    match read_direction(direction) {
        Some(Direction::Left) => Some("ctrl+h"),
        Some(Direction::Down) => Some("ctrl+j"),
        Some(Direction::Up) => Some("ctrl+k"),
        Some(Direction::Right) => Some("ctrl+l"),
        None => None,
    }
}

/// Different directions have different keys.
pub proof fn keys_tell_directions_apart(a: Seq<char>, b: Seq<char>)
    requires
        ctrl_key_of(a) is Some,
        ctrl_key_of(a) == ctrl_key_of(b),
    ensures
        a == b,
{
    reveal_strlit("ctrl+h");
    reveal_strlit("ctrl+j");
    reveal_strlit("ctrl+k");
    reveal_strlit("ctrl+l");
    let ka = ctrl_key_of(a)->0;
    let kb = ctrl_key_of(b)->0;
    assert(ka[5] == kb[5]);
}

/// Each direction has its name.
pub proof fn directions_have_names()
    ensures
        direction_named("left"@) == Some(Direction::Left),
        direction_named("down"@) == Some(Direction::Down),
        direction_named("up"@) == Some(Direction::Up),
        direction_named("right"@) == Some(Direction::Right),
{
    reveal_strlit("left");
    reveal_strlit("down");
    reveal_strlit("up");
    reveal_strlit("right");
    assert("left"@[0] == 'l');
    assert("down"@[0] == 'd');
    assert("up"@[0] == 'u');
    assert("right"@[0] == 'r');
}

} // verus!
