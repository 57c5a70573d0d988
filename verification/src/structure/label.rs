//! Identifiers and labels of graph elements.

use vstd::prelude::*;
use vstd::string::StringExecFns;

verus! {

/// Identity of a vertex or an edge, wide enough for composite global ids.
pub type ID = u128;

/// Numeric form of a label, as the partner-side string table assigns it.
pub type LabelId = u32;

/// The label of a graph element: its name, or the number that stands for the
/// name where only the number is at hand.
#[derive(Debug)]
pub enum Label {
    Str(String),
    Id(LabelId),
}

/// The character that writes the digit `d` (meant for `d < 10`).
pub open spec fn digit_char(d: nat) -> char {
    if d == 0 {
        '0'
    } else if d == 1 {
        '1'
    } else if d == 2 {
        '2'
    } else if d == 3 {
        '3'
    } else if d == 4 {
        '4'
    } else if d == 5 {
        '5'
    } else if d == 6 {
        '6'
    } else if d == 7 {
        '7'
    } else if d == 8 {
        '8'
    } else {
        '9'
    }
}

/// The decimal numeral of `n`: no sign, no leading zero, `"0"` for zero.
pub open spec fn decimal(n: nat) -> Seq<char>
    decreases n,
{
    if n < 10 {
        seq![digit_char(n)]
    } else {
        decimal(n / 10).push(digit_char(n % 10))
    }
}

/// The one-character numeral of a single digit.
fn digit_str(d: u32) -> (s: &'static str)
    requires
        d < 10,
    ensures
        s@ == seq![digit_char(d as nat)],
{
    proof {
        reveal_strlit("0");
        reveal_strlit("1");
        reveal_strlit("2");
        reveal_strlit("3");
        reveal_strlit("4");
        reveal_strlit("5");
        reveal_strlit("6");
        reveal_strlit("7");
        reveal_strlit("8");
        reveal_strlit("9");
    }
    let s = if d == 0 {
        "0"
    } else if d == 1 {
        "1"
    } else if d == 2 {
        "2"
    } else if d == 3 {
        "3"
    } else if d == 4 {
        "4"
    } else if d == 5 {
        "5"
    } else if d == 6 {
        "6"
    } else if d == 7 {
        "7"
    } else if d == 8 {
        "8"
    } else {
        "9"
    };
    assert(s@ =~= seq![digit_char(d as nat)]);
    s
}

/// Writes `n` as a decimal numeral.
pub fn decimal_string(n: u32) -> (s: String)
    ensures
        s@ == decimal(n as nat),
    decreases n,
{
    if n < 10 {
        String::from_str(digit_str(n))
    } else {
        let head = decimal_string(n / 10);
        let s = head.concat(digit_str(n % 10));
        assert(s@ =~= decimal(n as nat));
        s
    }
}

impl Label {
    /// What the label reads as on the wire: the name itself, or the decimal
    /// numeral of the number where no name is held.
    pub open spec fn text(self) -> Seq<char> {
        match self {
            Label::Str(s) => s@,
            Label::Id(id) => decimal(id as nat),
        }
    }

    /// Whether two labels stand for the same thing: names are compared by
    /// their characters, numbers by value, and a name never equals a number.
    pub open spec fn same(self, other: Label) -> bool {
        match (self, other) {
            (Label::Str(a), Label::Str(b)) => a@ == b@,
            (Label::Id(a), Label::Id(b)) => a == b,
            _ => false,
        }
    }

    /// The label as a string, see [`Label::text`].
    pub fn render(&self) -> (s: String)
        ensures
            s@ == self.text(),
    {
        match self {
            Label::Str(s) => s.clone(),
            Label::Id(id) => decimal_string(*id),
        }
    }
}

impl Clone for Label {
    fn clone(&self) -> (res: Label)
        ensures
            res == *self,
    {
        match self {
            Label::Str(s) => Label::Str(s.clone()),
            Label::Id(id) => Label::Id(*id),
        }
    }
}

impl PartialEq for Label {
    fn eq(&self, other: &Label) -> (r: bool) {
        match (self, other) {
            (Label::Str(a), Label::Str(b)) => *a == *b,
            (Label::Id(a), Label::Id(b)) => *a == *b,
            _ => false,
        }
    }
}

impl vstd::std_specs::cmp::PartialEqSpecImpl for Label {
    open spec fn obeys_eq_spec() -> bool {
        true
    }

    open spec fn eq_spec(&self, other: &Label) -> bool {
        self.same(*other)
    }
}

/// A copy of an optional label.
pub fn clone_label(label: &Option<Label>) -> (res: Option<Label>)
    ensures
        res == *label,
{
    match label {
        Some(l) => Some(l.clone()),
        None => None,
    }
}

/// What an optional label reads as on the wire: nothing where there is none.
pub open spec fn label_text(label: Option<Label>) -> Seq<char> {
    match label {
        Some(l) => l.text(),
        None => Seq::empty(),
    }
}

/// The wire form of an optional label, see [`label_text`].
pub fn render_label(label: &Option<Label>) -> (s: String)
    ensures
        s@ == label_text(*label),
{
    match label {
        Some(l) => l.render(),
        None => String::new(),
    }
}

} // verus!
