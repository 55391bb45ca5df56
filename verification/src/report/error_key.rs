//! The categories of problems that reports are about.
use vstd::prelude::*;

use crate::text::str_eq;

verus! {

/// The category of a report. Users can filter reports by category, and each has a name in
/// kebab-case that is used in configuration files and in `tiger-ignore` comments.
#[derive(Clone, Copy, Debug, PartialEq, Eq, Structural)]
pub enum ErrorKey {
    Config,
    Validation,
    Localization,
    ParseError,
    Rivers,
    Macro,
    Colors,
    UnknownField,
    ReadError,
    Duplicate,
    Range,
    FieldMissing,
    Encoding,
    Variables,
    Markup,
    ReaderDirectives,
    MissingItem,
    Choice,
    Scopes,
    Removed,
    PrincesOfDarkness,
    ImageFormat,
    IfElse,
    Datafunctions,
    Unneeded,
    Tooltip,
    Structure,
    Logic,
    Bugs,
    UseOfThis,
    UnusedLocalization,
    Packaging,
    Modifiers,
}

impl ErrorKey {
    /// The kebab-case name of the key.
    pub open spec fn spec_name(self) -> Seq<char> {
        match self {
            ErrorKey::Config => "config"@,
            ErrorKey::Validation => "validation"@,
            ErrorKey::Localization => "localization"@,
            ErrorKey::ParseError => "parse-error"@,
            ErrorKey::Rivers => "rivers"@,
            ErrorKey::Macro => "macro"@,
            ErrorKey::Colors => "colors"@,
            ErrorKey::UnknownField => "unknown-field"@,
            ErrorKey::ReadError => "read-error"@,
            ErrorKey::Duplicate => "duplicate"@,
            ErrorKey::Range => "range"@,
            ErrorKey::FieldMissing => "field-missing"@,
            ErrorKey::Encoding => "encoding"@,
            ErrorKey::Variables => "variables"@,
            ErrorKey::Markup => "markup"@,
            ErrorKey::ReaderDirectives => "reader-directives"@,
            ErrorKey::MissingItem => "missing-item"@,
            ErrorKey::Choice => "choice"@,
            ErrorKey::Scopes => "scopes"@,
            ErrorKey::Removed => "removed"@,
            ErrorKey::PrincesOfDarkness => "princes-of-darkness"@,
            ErrorKey::ImageFormat => "image-format"@,
            ErrorKey::IfElse => "if-else"@,
            ErrorKey::Datafunctions => "datafunctions"@,
            ErrorKey::Unneeded => "unneeded"@,
            ErrorKey::Tooltip => "tooltip"@,
            ErrorKey::Structure => "structure"@,
            ErrorKey::Logic => "logic"@,
            ErrorKey::Bugs => "bugs"@,
            ErrorKey::UseOfThis => "use-of-this"@,
            ErrorKey::UnusedLocalization => "unused-localization"@,
            ErrorKey::Packaging => "packaging"@,
            ErrorKey::Modifiers => "modifiers"@,
        }
    }

    /// The kebab-case name of the key.
    pub fn name(self) -> (s: &'static str)
        ensures
            s@ == self.spec_name(),
    {
        match self {
            ErrorKey::Config => "config",
            ErrorKey::Validation => "validation",
            ErrorKey::Localization => "localization",
            ErrorKey::ParseError => "parse-error",
            ErrorKey::Rivers => "rivers",
            ErrorKey::Macro => "macro",
            ErrorKey::Colors => "colors",
            ErrorKey::UnknownField => "unknown-field",
            ErrorKey::ReadError => "read-error",
            ErrorKey::Duplicate => "duplicate",
            ErrorKey::Range => "range",
            ErrorKey::FieldMissing => "field-missing",
            ErrorKey::Encoding => "encoding",
            ErrorKey::Variables => "variables",
            ErrorKey::Markup => "markup",
            ErrorKey::ReaderDirectives => "reader-directives",
            ErrorKey::MissingItem => "missing-item",
            ErrorKey::Choice => "choice",
            ErrorKey::Scopes => "scopes",
            ErrorKey::Removed => "removed",
            ErrorKey::PrincesOfDarkness => "princes-of-darkness",
            ErrorKey::ImageFormat => "image-format",
            ErrorKey::IfElse => "if-else",
            ErrorKey::Datafunctions => "datafunctions",
            ErrorKey::Unneeded => "unneeded",
            ErrorKey::Tooltip => "tooltip",
            ErrorKey::Structure => "structure",
            ErrorKey::Logic => "logic",
            ErrorKey::Bugs => "bugs",
            ErrorKey::UseOfThis => "use-of-this",
            ErrorKey::UnusedLocalization => "unused-localization",
            ErrorKey::Packaging => "packaging",
            ErrorKey::Modifiers => "modifiers",
        }
    }

    /// The key whose kebab-case name is `s`, if any.
    /// The key whose kebab-case name is `s`, if any.
    pub open spec fn spec_from_name(s: Seq<char>) -> Option<ErrorKey> {
        if s == "config"@ {
            Some(ErrorKey::Config)
        } else if s == "validation"@ {
            Some(ErrorKey::Validation)
        } else if s == "localization"@ {
            Some(ErrorKey::Localization)
        } else if s == "parse-error"@ {
            Some(ErrorKey::ParseError)
        } else if s == "rivers"@ {
            Some(ErrorKey::Rivers)
        } else if s == "macro"@ {
            Some(ErrorKey::Macro)
        } else if s == "colors"@ {
            Some(ErrorKey::Colors)
        } else if s == "unknown-field"@ {
            Some(ErrorKey::UnknownField)
        } else if s == "read-error"@ {
            Some(ErrorKey::ReadError)
        } else if s == "duplicate"@ {
            Some(ErrorKey::Duplicate)
        } else if s == "range"@ {
            Some(ErrorKey::Range)
        } else if s == "field-missing"@ {
            Some(ErrorKey::FieldMissing)
        } else if s == "encoding"@ {
            Some(ErrorKey::Encoding)
        } else if s == "variables"@ {
            Some(ErrorKey::Variables)
        } else if s == "markup"@ {
            Some(ErrorKey::Markup)
        } else if s == "reader-directives"@ {
            Some(ErrorKey::ReaderDirectives)
        } else if s == "missing-item"@ {
            Some(ErrorKey::MissingItem)
        } else if s == "choice"@ {
            Some(ErrorKey::Choice)
        } else if s == "scopes"@ {
            Some(ErrorKey::Scopes)
        } else if s == "removed"@ {
            Some(ErrorKey::Removed)
        } else if s == "princes-of-darkness"@ {
            Some(ErrorKey::PrincesOfDarkness)
        } else if s == "image-format"@ {
            Some(ErrorKey::ImageFormat)
        } else if s == "if-else"@ {
            Some(ErrorKey::IfElse)
        } else if s == "datafunctions"@ {
            Some(ErrorKey::Datafunctions)
        } else if s == "unneeded"@ {
            Some(ErrorKey::Unneeded)
        } else if s == "tooltip"@ {
            Some(ErrorKey::Tooltip)
        } else if s == "structure"@ {
            Some(ErrorKey::Structure)
        } else if s == "logic"@ {
            Some(ErrorKey::Logic)
        } else if s == "bugs"@ {
            Some(ErrorKey::Bugs)
        } else if s == "use-of-this"@ {
            Some(ErrorKey::UseOfThis)
        } else if s == "unused-localization"@ {
            Some(ErrorKey::UnusedLocalization)
        } else if s == "packaging"@ {
            Some(ErrorKey::Packaging)
        } else if s == "modifiers"@ {
            Some(ErrorKey::Modifiers)
        } else {
            None
        }
    }

    pub fn from_name(s: &str) -> (r: Option<ErrorKey>)
        ensures
            match r {
                Some(k) => k.spec_name() == s@,
                None => forall|k: ErrorKey| k.spec_name() != s@,
            },
            r == Self::spec_from_name(s@),
    {
        if str_eq(s, "config") {
            return Some(ErrorKey::Config);
        }
        if str_eq(s, "validation") {
            return Some(ErrorKey::Validation);
        }
        if str_eq(s, "localization") {
            return Some(ErrorKey::Localization);
        }
        if str_eq(s, "parse-error") {
            return Some(ErrorKey::ParseError);
        }
        if str_eq(s, "rivers") {
            return Some(ErrorKey::Rivers);
        }
        if str_eq(s, "macro") {
            return Some(ErrorKey::Macro);
        }
        if str_eq(s, "colors") {
            return Some(ErrorKey::Colors);
        }
        if str_eq(s, "unknown-field") {
            return Some(ErrorKey::UnknownField);
        }
        if str_eq(s, "read-error") {
            return Some(ErrorKey::ReadError);
        }
        if str_eq(s, "duplicate") {
            return Some(ErrorKey::Duplicate);
        }
        if str_eq(s, "range") {
            return Some(ErrorKey::Range);
        }
        if str_eq(s, "field-missing") {
            return Some(ErrorKey::FieldMissing);
        }
        if str_eq(s, "encoding") {
            return Some(ErrorKey::Encoding);
        }
        if str_eq(s, "variables") {
            return Some(ErrorKey::Variables);
        }
        if str_eq(s, "markup") {
            return Some(ErrorKey::Markup);
        }
        if str_eq(s, "reader-directives") {
            return Some(ErrorKey::ReaderDirectives);
        }
        if str_eq(s, "missing-item") {
            return Some(ErrorKey::MissingItem);
        }
        if str_eq(s, "choice") {
            return Some(ErrorKey::Choice);
        }
        if str_eq(s, "scopes") {
            return Some(ErrorKey::Scopes);
        }
        if str_eq(s, "removed") {
            return Some(ErrorKey::Removed);
        }
        if str_eq(s, "princes-of-darkness") {
            return Some(ErrorKey::PrincesOfDarkness);
        }
        if str_eq(s, "image-format") {
            return Some(ErrorKey::ImageFormat);
        }
        if str_eq(s, "if-else") {
            return Some(ErrorKey::IfElse);
        }
        if str_eq(s, "datafunctions") {
            return Some(ErrorKey::Datafunctions);
        }
        if str_eq(s, "unneeded") {
            return Some(ErrorKey::Unneeded);
        }
        if str_eq(s, "tooltip") {
            return Some(ErrorKey::Tooltip);
        }
        if str_eq(s, "structure") {
            return Some(ErrorKey::Structure);
        }
        if str_eq(s, "logic") {
            return Some(ErrorKey::Logic);
        }
        if str_eq(s, "bugs") {
            return Some(ErrorKey::Bugs);
        }
        if str_eq(s, "use-of-this") {
            return Some(ErrorKey::UseOfThis);
        }
        if str_eq(s, "unused-localization") {
            return Some(ErrorKey::UnusedLocalization);
        }
        if str_eq(s, "packaging") {
            return Some(ErrorKey::Packaging);
        }
        if str_eq(s, "modifiers") {
            return Some(ErrorKey::Modifiers);
        }
        assert forall|k: ErrorKey| k.spec_name() != s@ by {
            match k {
                ErrorKey::Config => {},
                ErrorKey::Validation => {},
                ErrorKey::Localization => {},
                ErrorKey::ParseError => {},
                ErrorKey::Rivers => {},
                ErrorKey::Macro => {},
                ErrorKey::Colors => {},
                ErrorKey::UnknownField => {},
                ErrorKey::ReadError => {},
                ErrorKey::Duplicate => {},
                ErrorKey::Range => {},
                ErrorKey::FieldMissing => {},
                ErrorKey::Encoding => {},
                ErrorKey::Variables => {},
                ErrorKey::Markup => {},
                ErrorKey::ReaderDirectives => {},
                ErrorKey::MissingItem => {},
                ErrorKey::Choice => {},
                ErrorKey::Scopes => {},
                ErrorKey::Removed => {},
                ErrorKey::PrincesOfDarkness => {},
                ErrorKey::ImageFormat => {},
                ErrorKey::IfElse => {},
                ErrorKey::Datafunctions => {},
                ErrorKey::Unneeded => {},
                ErrorKey::Tooltip => {},
                ErrorKey::Structure => {},
                ErrorKey::Logic => {},
                ErrorKey::Bugs => {},
                ErrorKey::UseOfThis => {},
                ErrorKey::UnusedLocalization => {},
                ErrorKey::Packaging => {},
                ErrorKey::Modifiers => {},
            }
        }
        None
    }
}

} // verus!
