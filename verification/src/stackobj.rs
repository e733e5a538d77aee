//! The values that live on the operand stack and in variables.

use vstd::prelude::*;
use vstd::string::StringExecFns;
use crate::binary32::{integral, is_integral};

verus! {

/// A value of the machine.
///
/// `Num` holds a number by its IEEE 754 single-precision encoding (see
/// `binary32`); `Ref` holds an opaque handle, on which no operator is
/// defined. The derived `==` compares representations, not numbers: the
/// numeric comparisons are those of `binary32`.
#[derive(Clone, Copy, Debug, PartialEq, Eq, Structural)]
pub enum StackObj {
    Num(u32),
    Ref(u32),
}

impl StackObj {
    /// The two encodings, where both operands are numbers; otherwise the
    /// operand to blame, the left one if it is a reference, else the right.
    pub open spec fn spec_numbers(left: StackObj, right: StackObj) -> Result<(u32, u32), StackObj> {
        match (left, right) {
            (StackObj::Num(x), StackObj::Num(y)) => Ok((x, y)),
            (StackObj::Ref(_), _) => Err(left),
            (_, StackObj::Ref(_)) => Err(right),
        }
    }

    /// The text of a value. For a number the host supplies `digits`, its
    /// shortest decimal form; a whole number gets `.0` behind them, so that
    /// a number always reads as one. A reference reads as a fixed label.
    pub open spec fn spec_render(self, digits: Seq<char>) -> Seq<char> {
        match self {
            StackObj::Num(bits) => if integral(bits) {
                digits + seq!['.', '0']
            } else {
                digits
            },
            StackObj::Ref(_) => seq!['R', 'e', 'f', 'e', 'r', 'e', 'n', 'c', 'e'],
        }
    }

    /// Renders the value; `digits` is read for a number only.
    pub fn render(&self, digits: &str) -> (text: String)
        ensures
            text@ == self.spec_render(digits@),
    {
        match self {
            StackObj::Num(bits) => {
                if is_integral(*bits) {
                    proof {
                        reveal_strlit(".0");
                        assert(".0"@ =~= seq!['.', '0']);
                    }
                    digits.to_owned().concat(".0")
                } else {
                    digits.to_owned()
                }
            },
            StackObj::Ref(_) => {
                proof {
                    reveal_strlit("Reference");
                    assert("Reference"@ =~= seq!['R', 'e', 'f', 'e', 'r', 'e', 'n', 'c', 'e']);
                }
                "Reference".to_owned()
            },
        }
    }

    /// Checks the operands of a binary operator.
    pub fn numbers(left: StackObj, right: StackObj) -> (r: Result<(u32, u32), StackObj>)
        ensures
            r == Self::spec_numbers(left, right),
    {
        match (left, right) {
            (StackObj::Num(x), StackObj::Num(y)) => Ok((x, y)),
            (StackObj::Ref(_), _) => Err(left),
            (_, StackObj::Ref(_)) => Err(right),
        }
    }
}

} // verus!
