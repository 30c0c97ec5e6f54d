//! Misc utils.

use vstd::prelude::*;
use vstd::string::*;

verus! {

/// Bounds on the length of a list that is read from outside: at least `MIN`
/// and at most `MAX` items.
#[derive(Debug, Clone, Copy, PartialEq, Eq)]
pub struct VecHelper<const MIN: usize, const MAX: usize> {}

/// A list with `actual` items was read where another number was expected.
#[derive(Debug, Clone, Copy, PartialEq, Eq, Structural)]
pub struct InvalidLength {
    pub actual: usize,
}

impl<const MIN: usize, const MAX: usize> VecHelper<MIN, MAX> {
    pub fn new() -> (helper: Self) {
        VecHelper {  }
    }

    /// Whether a list with `len` items is within the bounds.
    pub open spec fn admits(len: nat) -> bool {
        MIN <= len <= MAX
    }

    pub fn accepts(len: usize) -> (accepted: bool)
        ensures
            accepted == Self::admits(len as nat),
    {
        len >= MIN && len <= MAX
    }

    /// Hands `values` back where their number is within the bounds, and says
    /// how many there are where it is not.
    pub fn check<T>(values: Vec<T>) -> (checked: Result<Vec<T>, InvalidLength>)
        ensures
            checked == (if Self::admits(values.len() as nat) {
                Ok::<Vec<T>, InvalidLength>(values)
            } else {
                Err::<Vec<T>, InvalidLength>(InvalidLength { actual: values.len() })
            }),
    {
        if Self::accepts(values.len()) {
            Ok(values)
        } else {
            Err(InvalidLength { actual: values.len() })
        }
    }

    /// What a list is expected to hold, in words.
    pub fn expecting() -> (text: String)
        ensures
            text@ == "at least "@ + crate::encoding::decimal(MIN as nat) + " and at most "@
                + crate::encoding::decimal(MAX as nat) + " items"@,
    {
        let mut text = String::from_str("at least ");
        crate::encoding::append_decimal(&mut text, MIN as u128);
        text.append(" and at most ");
        crate::encoding::append_decimal(&mut text, MAX as u128);
        text.append(" items");
        text
    }
}

} // verus!
