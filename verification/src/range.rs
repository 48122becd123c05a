//! Range expressions of the form `<rev>..<rev>`.
//!
//! Either side may be empty: an empty left side means no lower bound, an
//! empty right side means `HEAD`. The three-dot operator is refused, and so
//! is any expression without exactly one `..`.

use crate::text::chars_contain;
use crate::text::chars_to_string;
use crate::text::contains;
use crate::text::find_from;
use crate::text::occurs_at;
use crate::text::str_chars;
use vstd::prelude::*;

verus! {

/// The two sides of a range expression. `None` stands for an empty side.
#[derive(Debug, Clone, PartialEq, Eq)]
pub struct RangeSpec {
    /// The lower bound; `None` when the range has none.
    pub start: Option<String>,
    /// The upper bound; `None` for `HEAD`.
    pub end: Option<String>,
}

/// Why a range expression is refused.
#[derive(Debug, Clone, PartialEq, Eq)]
pub enum RangeError {
    /// The expression holds `...`.
    SymmetricDifference,
    /// The expression holds no `..`.
    MissingSeparator { range: String },
    /// The expression holds more than one `..`.
    TooManySeparators { range: String },
}

/// Mathematical model of a `RangeSpec`.
pub struct RangeSpecView {
    pub start: Option<Seq<char>>,
    pub end: Option<Seq<char>>,
}

/// A side of a range expression: absent when empty.
pub open spec fn side(text: Seq<char>) -> Option<Seq<char>> {
    if text.len() == 0 {
        None
    } else {
        Some(text)
    }
}

pub open spec fn side_view(text: Option<String>) -> Option<Seq<char>> {
    match text {
        Some(t) => Some(t@),
        None => None,
    }
}

impl View for RangeSpec {
    type V = RangeSpecView;

    open spec fn view(&self) -> RangeSpecView {
        RangeSpecView { start: side_view(self.start), end: side_view(self.end) }
    }
}

/// The expression uses the three-dot operator.
pub open spec fn has_three_dots(range: Seq<char>) -> bool {
    contains(range, "..."@)
}

/// `..` occurs in `range` at index `i` and nowhere else.
pub open spec fn sole_separator(range: Seq<char>, i: int) -> bool {
    occurs_at(range, ".."@, i) && forall|j: int| occurs_at(range, ".."@, j) ==> j == i
}

/// The two sides of an expression split at index `i`.
pub open spec fn split_at_separator(range: Seq<char>, i: int) -> RangeSpecView {
    RangeSpecView {
        start: side(range.subrange(0, i)),
        end: side(range.subrange(i + 2, range.len() as int)),
    }
}

impl RangeError {
    /// A human-readable message for the error, naming the expression where
    /// its format is at fault.
    pub fn message(&self) -> (res: String)
        ensures
            self is SymmetricDifference ==> res@
                == "Symmetric difference operator '...' is not supported. Use '..' instead (e.g., 'HEAD~5..HEAD')"@,
            self is MissingSeparator ==> res@ == "Invalid range format: "@
                + self->MissingSeparator_range@
                + ". Use formats like 'HEAD~5..HEAD' or 'abc123..'"@,
            self is TooManySeparators ==> res@ == "Invalid range format: "@
                + self->TooManySeparators_range@,
    {
        match self {
            RangeError::SymmetricDifference => {
                "Symmetric difference operator '...' is not supported. Use '..' instead (e.g., 'HEAD~5..HEAD')".to_owned()
            },
            RangeError::MissingSeparator { range } => {
                let mut out = "Invalid range format: ".to_owned();
                out.append(range.as_str());
                out.append(". Use formats like 'HEAD~5..HEAD' or 'abc123..'");
                out
            },
            RangeError::TooManySeparators { range } => {
                let mut out = "Invalid range format: ".to_owned();
                out.append(range.as_str());
                out
            },
        }
    }
}

fn side_of(chars: &Vec<char>, from: usize, to: usize) -> (res: Option<String>)
    requires
        from <= to <= chars.len(),
    ensures
        side_view(res) == side(chars@.subrange(from as int, to as int)),
{
    if from == to {
        None
    } else {
        Some(chars_to_string(chars, from, to))
    }
}

/// Parses a range expression into its two sides. An expression that holds
/// `...` is refused whatever else it holds; otherwise it must hold `..`
/// exactly once.
pub fn parse_commit_range(range: &str) -> (res: Result<RangeSpec, RangeError>)
    ensures
        has_three_dots(range@) ==> res == Err::<RangeSpec, RangeError>(
            RangeError::SymmetricDifference,
        ),
        !has_three_dots(range@) && !contains(range@, ".."@) ==> res is Err
            && res->Err_0 is MissingSeparator && res->Err_0->MissingSeparator_range@ == range@,
        !has_three_dots(range@) && contains(range@, ".."@) && !(exists|i: int|
            sole_separator(range@, i)) ==> res is Err && res->Err_0 is TooManySeparators
            && res->Err_0->TooManySeparators_range@ == range@,
        forall|i: int|
            !has_three_dots(range@) && sole_separator(range@, i) ==> res is Ok && res->Ok_0@
                == split_at_separator(range@, i),
{
    let chars = str_chars(range);
    let three = str_chars("...");
    let two = str_chars("..");
    proof {
        reveal_strlit("..");
    }
    if chars_contain(&chars, &three) {
        return Err(RangeError::SymmetricDifference);
    }
    let first = match find_from(&chars, &two, 0) {
        Some(i) => i,
        None => {
            return Err(RangeError::MissingSeparator { range: range.to_owned() });
        },
    };
    assert(occurs_at(range@, ".."@, first as int));
    assert(".."@.len() == 2);
    assert(first + 2 <= chars.len());
    match find_from(&chars, &two, first + 1) {
        Some(second) => {
            assert(occurs_at(range@, ".."@, second as int));
            Err(RangeError::TooManySeparators { range: range.to_owned() })
        },
        None => {
            assert(sole_separator(range@, first as int));
            Ok(
                RangeSpec {
                    start: side_of(&chars, 0, first),
                    end: side_of(&chars, first + 2, chars.len()),
                },
            )
        },
    }
}

} // verus!
