use vstd::prelude::*;

use crate::model::{ValidationMessage, ValidationReport};
use crate::text::{decimal_string, push_str};

verus! {

#[verifier::external_type_specification]
#[verifier::external_body]
pub struct ExTomlDeError(toml::de::Error);

#[verifier::external_type_specification]
#[verifier::external_body]
pub struct ExTomlSerError(toml::ser::Error);

#[verifier::external_type_specification]
#[verifier::external_body]
pub struct ExIoError(std::io::Error);

/// Why a document could not be read, written or accepted.
#[derive(Debug)]
pub enum FormatError {
    Toml(toml::de::Error),
    Serialize(toml::ser::Error),
    Validation(ValidationReport),
    Io(std::io::Error),
}

/// The `Display` text of a TOML parse error.
#[verifier::external_body]
fn toml_de_error_text(error: &toml::de::Error) -> String {
    error.to_string()
}

/// The `Display` text of a TOML serialization error.
#[verifier::external_body]
fn toml_ser_error_text(error: &toml::ser::Error) -> String {
    error.to_string()
}

/// The `Display` text of an I/O error.
#[verifier::external_body]
fn io_error_text(error: &std::io::Error) -> String {
    error.to_string()
}

/// The lines a validation failure is reported with: a count, then one
/// `- location: message` line per error.
pub open spec fn validation_lines(errors: Seq<ValidationMessage>) -> Seq<char>
    decreases errors.len(),
{
    if errors.len() == 0 {
        Seq::empty()
    } else {
        validation_lines(errors.drop_last()) + "- "@ + errors.last().location@ + ": "@
            + errors.last().message@ + "\n"@
    }
}

/// How a failed validation is described: the number of errors, then one
/// line per error.
pub open spec fn validation_summary(report: ValidationReport) -> Seq<char> {
    "validation failed with "@ + crate::text::decimal_text(report.errors@.len()) + " error(s)\n"@
        + validation_lines(report.errors@)
}

impl FormatError {
    /// The human-readable description of the error: for a TOML error, a
    /// prefix naming the direction and then the parser's own text.
    pub fn describe(&self) -> (r: String)
        ensures
            self matches FormatError::Validation(report) ==> r@ == validation_summary(*report),
            self is Toml ==> "TOML parse error: "@.is_prefix_of(r@),
            self is Serialize ==> "TOML serialize error: "@.is_prefix_of(r@),
    {
        match self {
            FormatError::Toml(error) => {
                let mut s = "TOML parse error: ".to_string();
                let detail = toml_de_error_text(error);
                push_str(&mut s, detail.as_str());
                s
            },
            FormatError::Serialize(error) => {
                let mut s = "TOML serialize error: ".to_string();
                let detail = toml_ser_error_text(error);
                push_str(&mut s, detail.as_str());
                s
            },
            FormatError::Validation(report) => {
                let mut s = "validation failed with ".to_string();
                let count = decimal_string(report.errors.len() as u64);
                push_str(&mut s, count.as_str());
                push_str(&mut s, " error(s)\n");
                let mut i: usize = 0;
                while i < report.errors.len()
                    invariant
                        i <= report.errors@.len(),
                        s@ == "validation failed with "@ + crate::text::decimal_text(
                            report.errors@.len(),
                        ) + " error(s)\n"@ + validation_lines(report.errors@.take(i as int)),
                    decreases report.errors.len() - i,
                {
                    proof {
                        assert(report.errors@.take(i + 1).drop_last() == report.errors@.take(
                            i as int,
                        ));
                    }
                    push_str(&mut s, "- ");
                    push_str(&mut s, report.errors[i].location.as_str());
                    push_str(&mut s, ": ");
                    push_str(&mut s, report.errors[i].message.as_str());
                    push_str(&mut s, "\n");
                    i += 1;
                }
                proof {
                    assert(report.errors@.take(report.errors@.len() as int) == report.errors@);
                }
                s
            },
            FormatError::Io(error) => io_error_text(error),
        }
    }
}

} // verus!
