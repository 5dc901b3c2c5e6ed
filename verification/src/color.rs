//! Colours, as shares of red, green and blue in thousandths.

use vstd::prelude::*;

verus! {

/// A colour: one of those that have a name, or any other by its shares.
#[derive(Clone, Copy, Debug, PartialEq)]
pub enum Colors {
    RED,
    GREEN,
    BLUE,
    CUSTOM([i32; 3]),
}

impl Colors {
    /// The shares of red, green and blue.
    pub fn raw(&self) -> (r: [i32; 3])
        ensures
            r == match *self {
                Colors::RED => [1000i32, 0i32, 0i32],
                Colors::GREEN => [0i32, 1000i32, 0i32],
                Colors::BLUE => [0i32, 0i32, 1000i32],
                Colors::CUSTOM(color) => color,
            },
    {
        match *self {
            Colors::RED => [1000, 0, 0],
            Colors::GREEN => [0, 1000, 0],
            Colors::BLUE => [0, 0, 1000],
            Colors::CUSTOM(color) => color,
        }
    }
}

} // verus!
