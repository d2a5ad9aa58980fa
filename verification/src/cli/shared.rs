//! What the commands share: output formats, ranges, and the order in which
//! settings are looked up.

use crate::base::error::{two_number_error, CoreError, PieceView};
use crate::scalar::Scalar;
use crate::text::{
    concat2, concat3, copy_of, lowered, pieces_between, same_text, split, to_ascii_lowercase, trim,
    trimmed, views,
};
use vstd::prelude::*;

verus! {

/// The form in which results are shown.
#[derive(Clone, Copy, Debug, PartialEq, Eq, Structural)]
pub enum OutputFormat {
    Text,
    Json,
    Markdown,
}

impl Default for OutputFormat {
    fn default() -> (result: OutputFormat)
        ensures
            result == OutputFormat::Text,
    {
        OutputFormat::Text
    }
}

/// The format of that name, in any case of letters.
pub open spec fn format_named(name: Seq<char>) -> Option<OutputFormat> {
    let lower = lowered(name);
    if lower == "text"@ {
        Some(OutputFormat::Text)
    } else if lower == "json"@ {
        Some(OutputFormat::Json)
    } else if lower == "markdown"@ || lower == "md"@ {
        Some(OutputFormat::Markdown)
    } else {
        None
    }
}

impl OutputFormat {
    /// The canonical name.
    pub open spec fn name(self) -> Seq<char> {
        match self {
            OutputFormat::Text => "text"@,
            OutputFormat::Json => "json"@,
            OutputFormat::Markdown => "markdown"@,
        }
    }

    /// The canonical name.
    pub fn to_string(&self) -> (result: String)
        ensures
            result@ == self.name(),
    {
        match self {
            OutputFormat::Text => copy_of("text"),
            OutputFormat::Json => copy_of("json"),
            OutputFormat::Markdown => copy_of("markdown"),
        }
    }

    /// The format of that name.
    pub fn from_name(name: &str) -> (result: Result<OutputFormat, CoreError>)
        ensures
            result is Ok <==> format_named(name@) is Some,
            result matches Ok(format) ==> format_named(name@) == Some(format),
            result matches Err(e) ==> e.says(
                "unknown output format '"@ + lowered(name@)
                    + "', expected: text, json, markdown"@,
            ),
    {
        let lower = to_ascii_lowercase(name);
        if same_text(lower.as_str(), "text") {
            Ok(OutputFormat::Text)
        } else if same_text(lower.as_str(), "json") {
            Ok(OutputFormat::Json)
        } else if same_text(lower.as_str(), "markdown") || same_text(lower.as_str(), "md") {
            Ok(OutputFormat::Markdown)
        } else {
            Err(
                CoreError::Msg(
                    concat3(
                        "unknown output format '",
                        lower.as_str(),
                        "', expected: text, json, markdown",
                    ),
                ),
            )
        }
    }
}

/// A format is found again under its canonical name.
pub proof fn canonical_names_round_trip(format: OutputFormat)
    ensures
        format_named(format.name()) == Some(format),
{
    reveal_strlit("text");
    reveal_strlit("json");
    reveal_strlit("markdown");
    reveal_strlit("md");
    assert("text"@[0] == 't' && "json"@[0] == 'j');
    assert(lowered(format.name()) =~= format.name());
}

/// The texts of the two bounds of a range.
#[derive(Debug)]
pub struct RangeParts {
    pub lower: String,
    pub upper: String,
}

/// Splits a range at its comma, and takes away the white space around its bounds.
pub fn range_parts(s: &str) -> (result: Result<RangeParts, CoreError>)
    ensures
        ({
            let pieces = pieces_between(s@, ',');
            &&& result is Ok <==> pieces.len() == 2
            &&& result matches Ok(parts) ==> parts.lower@ == trimmed(pieces[0]) && parts.upper@
                == trimmed(pieces[1])
            &&& result matches Err(e) ==> e.says(
                "expected two comma-separated values, got '"@ + s@ + "'"@,
            )
        }),
{
    let parts = split(s, ',');
    proof {
        assert(views(parts@).len() == parts@.len());
    }
    if parts.len() != 2 {
        return Err(
            CoreError::Msg(concat3("expected two comma-separated values, got '", s, "'")),
        );
    }
    proof {
        assert(views(parts@)[0] == parts@[0]@);
        assert(views(parts@)[1] == parts@[1]@);
    }
    let lower = trim(parts[0].as_str());
    let upper = trim(parts[1].as_str());
    Ok(RangeParts { lower, upper })
}

/// The range of two bounds, given what their texts were read as.
pub fn parse_range(lower: Result<Scalar, String>, upper: Result<Scalar, String>) -> (result: Result<
    (Scalar, Scalar),
    CoreError,
>)
    ensures
        result is Ok <==> lower is Ok && upper is Ok && !upper->Ok_0.lt(lower->Ok_0),
        result matches Ok(range) ==> range == (lower->Ok_0, upper->Ok_0),
        result matches Err(e) ==> e.tells(match (lower, upper) {
            (Err(text), _) => seq![PieceView::Text("bad lower bound: "@ + text@)],
            (Ok(_), Err(text)) => seq![PieceView::Text("bad upper bound: "@ + text@)],
            (Ok(lo), Ok(hi)) => seq![
                PieceView::Text("lower bound "@),
                PieceView::Number(lo),
                PieceView::Text(" exceeds upper bound "@),
                PieceView::Number(hi),
                PieceView::Text(""@),
            ],
        }),
{
    let lo = match lower {
        Ok(lo) => lo,
        Err(text) => {
            return Err(CoreError::Msg(concat2("bad lower bound: ", text.as_str())));
        },
    };
    let hi = match upper {
        Ok(hi) => hi,
        Err(text) => {
            return Err(CoreError::Msg(concat2("bad upper bound: ", text.as_str())));
        },
    };
    if hi.less_than(lo) {
        return Err(
            two_number_error(copy_of("lower bound "), lo, " exceeds upper bound ", hi, ""),
        );
    }
    Ok((lo, hi))
}

/// The first setting that was given, else the default.
pub open spec fn first_given<T>(first: Option<T>, second: Option<T>, default: T) -> T {
    match first {
        Some(value) => value,
        None => match second {
            Some(value) => value,
            None => default,
        },
    }
}

/// The text of a setting, where it was given.
pub open spec fn given_text(setting: Option<String>) -> Option<Seq<char>> {
    match setting {
        Some(text) => Some(text@),
        None => None,
    }
}

/// The first of two settings that was given.
pub open spec fn either<T>(first: Option<T>, second: Option<T>) -> Option<T> {
    match first {
        Some(value) => Some(value),
        None => second,
    }
}

/// The first setting that was given, else the default.
pub fn pick<T: Copy>(first: Option<T>, second: Option<T>, default: T) -> (result: T)
    ensures
        result == first_given(first, second, default),
{
    match first {
        Some(value) => value,
        None => match second {
            Some(value) => value,
            None => default,
        },
    }
}

/// The first of two settings that was given.
pub fn pick_optional<T: Copy>(first: Option<T>, second: Option<T>) -> (result: Option<T>)
    ensures
        result == either(first, second),
{
    match first {
        Some(value) => Some(value),
        None => second,
    }
}

/// The first text that was given, else the default.
pub fn pick_text(first: &Option<String>, second: &Option<String>, default: &str) -> (result: String)
    ensures
        result@ == first_given(given_text(*first), given_text(*second), default@),
{
    match first {
        Some(text) => copy_of(text.as_str()),
        None => match second {
            Some(text) => copy_of(text.as_str()),
            None => copy_of(default),
        },
    }
}

/// A setting is the first that was given, and the default only where none was.
pub proof fn the_first_setting_given_counts<T>(first: T, second: T, default: T)
    ensures
        first_given(Some(first), Some(second), default) == first,
        first_given(Some(first), None, default) == first,
        first_given(None, Some(second), default) == second,
        first_given(None::<T>, None, default) == default,
        either(Some(first), Some(second)) == Some(first),
        either(Some(first), None) == Some(first),
        either(None, Some(second)) == Some(second),
        either(None::<T>, None) is None,
{
}

/// Formats are named in any case, and the short name stands for the long one.
pub proof fn formats_are_named_in_any_case(name: Seq<char>)
    ensures
        lowered(name) == "text"@ ==> format_named(name) == Some(OutputFormat::Text),
        lowered(name) == "json"@ ==> format_named(name) == Some(OutputFormat::Json),
        lowered(name) == "markdown"@ ==> format_named(name) == Some(OutputFormat::Markdown),
        lowered(name) == "md"@ ==> format_named(name) == Some(OutputFormat::Markdown),
        format_named(name) is Some ==> lowered(name) == "text"@ || lowered(name) == "json"@
            || lowered(name) == "markdown"@ || lowered(name) == "md"@,
{
    reveal_strlit("text");
    reveal_strlit("json");
    reveal_strlit("markdown");
    reveal_strlit("md");
    assert("text"@[0] == 't' && "json"@[0] == 'j' && "markdown"@.len() == 8 && "md"@.len() == 2);
    assert("text"@.len() == 4 && "json"@.len() == 4);
}

} // verus!
