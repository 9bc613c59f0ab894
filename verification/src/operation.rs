//! The rule by which a node gets its value.

use crate::node::HintFn;
use vstd::prelude::*;
use vstd::string::StringExecFns;

verus! {

/// How the value of one node is derived.
pub enum Operation {
    /// Bound from outside at evaluation time.
    Input,
    /// A fixed value.
    Constant(u32),
    /// The wrapping sum of two earlier nodes.
    Add(usize, usize),
    /// The wrapping product of two earlier nodes.
    Multiply(usize, usize),
    /// Proposed by a caller-supplied computation.
    Hint(Box<dyn HintFn>),
}

impl Operation {
    /// The hint operation that asks `f`.
    pub open spec fn hint_from<F: HintFn + 'static>(f: F) -> Operation {
        let hint: Box<dyn HintFn> = Box::new(f);
        Operation::Hint(hint)
    }

    /// An operation that may stand at position `at` of a graph: its operands
    /// come before it, and its hint may be asked.
    pub open spec fn valid_at(&self, at: int) -> bool {
        match self {
            Operation::Input => true,
            Operation::Constant(_) => true,
            Operation::Add(a, b) => a < at && b < at,
            Operation::Multiply(a, b) => a < at && b < at,
            Operation::Hint(f) => f.inv(),
        }
    }
}

/// The character that stands for the digit `d`.
pub open spec fn digit(d: nat) -> char {
    if d == 0 {
        '0'
    } else if d == 1 {
        '1'
    } else if d == 2 {
        '2'
    } else if d == 3 {
        '3'
    } else if d == 4 {
        '4'
    } else if d == 5 {
        '5'
    } else if d == 6 {
        '6'
    } else if d == 7 {
        '7'
    } else if d == 8 {
        '8'
    } else {
        '9'
    }
}

/// The number `n` written in decimal digits, without leading zeros.
pub open spec fn decimal(n: nat) -> Seq<char>
    decreases n,
{
    if n < 10 {
        seq![digit(n)]
    } else {
        decimal(n / 10).push(digit(n % 10))
    }
}

fn digit_text(d: u64) -> (text: &'static str)
    requires
        d < 10,
    ensures
        text@ == seq![digit(d as nat)],
{
    proof {
        reveal_strlit("0");
        reveal_strlit("1");
        reveal_strlit("2");
        reveal_strlit("3");
        reveal_strlit("4");
        reveal_strlit("5");
        reveal_strlit("6");
        reveal_strlit("7");
        reveal_strlit("8");
        reveal_strlit("9");
    }
    let text = if d == 0 {
        "0"
    } else if d == 1 {
        "1"
    } else if d == 2 {
        "2"
    } else if d == 3 {
        "3"
    } else if d == 4 {
        "4"
    } else if d == 5 {
        "5"
    } else if d == 6 {
        "6"
    } else if d == 7 {
        "7"
    } else if d == 8 {
        "8"
    } else {
        "9"
    };
    assert(text@ =~= seq![digit(d as nat)]);
    text
}

fn append_decimal(text: &mut String, n: u64)
    ensures
        final(text)@ == old(text)@ + decimal(n as nat),
    decreases n,
{
    if n >= 10 {
        append_decimal(text, n / 10);
    }
    text.append(digit_text(n % 10));
    assert(text@ =~= old(text)@ + decimal(n as nat));
}

impl Operation {
    /// The operation written out: its kind, and its value or operands in
    /// decimal. A hint shows as `Hint(<function>)`.
    pub open spec fn description(&self) -> Seq<char> {
        match self {
            Operation::Input => "Input"@,
            Operation::Constant(value) => "Constant("@ + decimal(*value as nat) + ")"@,
            Operation::Add(a, b) => "Add("@ + decimal(*a as nat) + ", "@ + decimal(*b as nat)
                + ")"@,
            Operation::Multiply(a, b) => "Multiply("@ + decimal(*a as nat) + ", "@ + decimal(
                *b as nat,
            ) + ")"@,
            Operation::Hint(_) => "Hint(<function>)"@,
        }
    }

    /// Writes the operation out.
    pub fn describe(&self) -> (text: String)
        ensures
            text@ == self.description(),
    {
        match self {
            Operation::Input => String::from_str("Input"),
            Operation::Constant(value) => {
                let mut text = String::from_str("Constant(");
                append_decimal(&mut text, *value as u64);
                text.append(")");
                text
            },
            Operation::Add(a, b) => {
                let mut text = String::from_str("Add(");
                append_decimal(&mut text, *a as u64);
                text.append(", ");
                append_decimal(&mut text, *b as u64);
                text.append(")");
                text
            },
            Operation::Multiply(a, b) => {
                let mut text = String::from_str("Multiply(");
                append_decimal(&mut text, *a as u64);
                text.append(", ");
                append_decimal(&mut text, *b as u64);
                text.append(")");
                text
            },
            Operation::Hint(_) => String::from_str("Hint(<function>)"),
        }
    }
}

} // verus!
