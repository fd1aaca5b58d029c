use vstd::prelude::*;

verus! {

/// Color with 3 states.
#[derive(Copy, Clone, Debug, PartialEq, Eq, Structural, PartialOrd, Ord, Hash)]
pub enum TriColor {
    Black,
    White,
    Red,
}

impl TriColor {
    /// Whether the color sets its pixel's bit in the black plane.
    pub open spec fn black_bit(self) -> bool {
        match self {
            TriColor::Black => false,
            TriColor::White => true,
            TriColor::Red => true,
        }
    }

    /// Whether the color sets its pixel's bit in the red plane.
    pub open spec fn red_bit(self) -> bool {
        self == TriColor::Red
    }

    /// The color with the given code, `None` for codes above 2.
    pub fn try_from_u8(value: u8) -> (r: Option<TriColor>)
        ensures
            r == (if value == 0 {
                Some(TriColor::Black)
            } else if value == 1 {
                Some(TriColor::White)
            } else if value == 2 {
                Some(TriColor::Red)
            } else {
                None
            }),
    {
        match value {
            0 => Some(TriColor::Black),
            1 => Some(TriColor::White),
            2 => Some(TriColor::Red),
            _ => None,
        }
    }
}

/// Codes 0, 1 and 2 are black, white and red; higher codes saturate to red
/// (`TriColor::try_from_u8` rejects them instead).
impl From<u8> for TriColor {
    fn from(value: u8) -> (r: TriColor)
        ensures
            r == (if value == 0 {
                TriColor::Black
            } else if value == 1 {
                TriColor::White
            } else {
                TriColor::Red
            }),
    {
        match value {
            0 => TriColor::Black,
            1 => TriColor::White,
            _ => TriColor::Red,
        }
    }
}

impl vstd::std_specs::convert::FromSpecImpl<u8> for TriColor {
    open spec fn obeys_from_spec() -> bool {
        true
    }

    open spec fn from_spec(value: u8) -> TriColor {
        if value == 0 {
            TriColor::Black
        } else if value == 1 {
            TriColor::White
        } else {
            TriColor::Red
        }
    }
}

/// The byte that fills a black plane with this color: white sets every bit.
impl From<TriColor> for u8 {
    fn from(c: TriColor) -> (r: u8)
        ensures
            r == (if c == TriColor::White { 0xFFu8 } else { 0x00u8 }),
    {
        match c {
            TriColor::White => 0xFF,
            TriColor::Black | TriColor::Red => 0x00,
        }
    }
}

impl vstd::std_specs::convert::FromSpecImpl<TriColor> for u8 {
    open spec fn obeys_from_spec() -> bool {
        true
    }

    open spec fn from_spec(c: TriColor) -> u8 {
        if c == TriColor::White { 0xFFu8 } else { 0x00u8 }
    }
}

} // verus!
