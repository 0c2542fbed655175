//! The warnings of a search, and the text that each of them is shown as.

use vstd::prelude::*;
use vstd::string::StringExecFns;

verus! {

/// Something that went wrong in a search without ending it.
#[derive(Clone, Debug, PartialEq, Eq)]
pub enum Warning {
    /// The width that was asked for is no number.
    InvalidColumns,
    /// The results could not be stored in the cache.
    CacheNotWritten { reason: String },
    /// No result has the number that was asked for.
    OpenOutOfBounds { number: usize },
    /// The result to open was not given as a number.
    OpenNotANumber,
}

/// What a `Warning` holds.
pub ghost enum WarningView {
    InvalidColumns,
    CacheNotWritten { reason: Seq<char> },
    OpenOutOfBounds { number: int },
    OpenNotANumber,
}

impl View for Warning {
    type V = WarningView;

    open spec fn view(&self) -> WarningView {
        match self {
            Warning::InvalidColumns => WarningView::InvalidColumns,
            Warning::CacheNotWritten { reason } => WarningView::CacheNotWritten { reason: reason@ },
            Warning::OpenOutOfBounds { number } => WarningView::OpenOutOfBounds {
                number: *number as int,
            },
            Warning::OpenNotANumber => WarningView::OpenNotANumber,
        }
    }
}

/// What a list of warnings holds, one for one.
pub open spec fn warning_views(v: Seq<Warning>) -> Seq<WarningView> {
    v.map_values(|w: Warning| w@)
}

/// The character of a decimal digit.
pub open spec fn digit_char(d: int) -> char {
    if d == 0 {
        '0'
    } else if d == 1 {
        '1'
    } else if d == 2 {
        '2'
    } else if d == 3 {
        '3'
    } else if d == 4 {
        '4'
    } else if d == 5 {
        '5'
    } else if d == 6 {
        '6'
    } else if d == 7 {
        '7'
    } else if d == 8 {
        '8'
    } else {
        '9'
    }
}

/// A number in decimal digits, without leading zeros.
pub open spec fn decimal_text(n: int) -> Seq<char>
    decreases n,
{
    if n < 10 {
        seq![digit_char(n)]
    } else {
        decimal_text(n / 10).push(digit_char(n % 10))
    }
}

/// The text of a warning.
pub open spec fn warning_text(w: WarningView) -> Seq<char> {
    match w {
        WarningView::InvalidColumns => "Invalid number of columns."@,
        WarningView::CacheNotWritten { reason } => "Could not write cache: "@ + reason + "."@,
        WarningView::OpenOutOfBounds { number } => "`--open "@ + decimal_text(number)
            + "` is out of bounds."@,
        WarningView::OpenNotANumber => "`--open` requires a number."@,
    }
}

/// The digit `d` as a string.
fn digit_text(d: usize) -> (r: &'static str)
    requires
        d < 10,
    ensures
        r@ == seq![digit_char(d as int)],
{
    proof {
        reveal_strlit("0");
        reveal_strlit("1");
        reveal_strlit("2");
        reveal_strlit("3");
        reveal_strlit("4");
        reveal_strlit("5");
        reveal_strlit("6");
        reveal_strlit("7");
        reveal_strlit("8");
        reveal_strlit("9");
    }
    let r = if d == 0 {
        "0"
    } else if d == 1 {
        "1"
    } else if d == 2 {
        "2"
    } else if d == 3 {
        "3"
    } else if d == 4 {
        "4"
    } else if d == 5 {
        "5"
    } else if d == 6 {
        "6"
    } else if d == 7 {
        "7"
    } else if d == 8 {
        "8"
    } else {
        "9"
    };
    assert(r@ =~= seq![digit_char(d as int)]);
    r
}

/// A number in decimal digits.
pub fn number_text(n: usize) -> (r: String)
    ensures
        r@ == decimal_text(n as int),
    decreases n,
{
    if n < 10 {
        String::from_str(digit_text(n))
    } else {
        let mut r = number_text(n / 10);
        let ghost before = r@;
        r.append(digit_text(n % 10));
        assert(r@ =~= before.push(digit_char((n % 10) as int)));
        r
    }
}

impl Warning {
    /// The text that the warning is shown as.
    pub fn message(&self) -> (r: String)
        ensures
            r@ == warning_text(self@),
    {
        match self {
            Warning::InvalidColumns => String::from_str("Invalid number of columns."),
            Warning::CacheNotWritten { reason } => {
                let mut r = String::from_str("Could not write cache: ");
                r.append(reason.as_str());
                r.append(".");
                r
            },
            Warning::OpenOutOfBounds { number } => {
                let mut r = String::from_str("`--open ");
                let digits = number_text(*number);
                r.append(digits.as_str());
                r.append("` is out of bounds.");
                r
            },
            Warning::OpenNotANumber => String::from_str("`--open` requires a number."),
        }
    }
}

} // verus!
