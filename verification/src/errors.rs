//! The diagnostic categories and the formatting of located diagnostics.
//!
//! The lexer itself does not raise these; the closed set of categories and
//! the rendering contract are fixed here for the later stages that report
//! located errors and warnings.

use vstd::prelude::*;

use crate::color::{
    colorized, fg_blue, fg_cyan, fg_red, fg_yellow, no_escape, paint_blue, paint_cyan, paint_red,
    paint_yellow,
};
use crate::program::Program;
use crate::text::{dec_str, usize_to_string};

verus! {

/// One diagnostic category, drawn from a fixed closed set.
#[derive(Debug, Clone, PartialEq, Eq, Structural)]
pub enum Error {
    Syntax,
    NotImplemented,
    FileNotFound,
    Type,
    UnknownToken,
    UnexpectedToken,
    Critical,
    TooCharactersOnLine,
    ForbiddenCharacter,
    WrongFormat,
}

/// The fixed display label of each category.
pub open spec fn label_of(error: Error) -> Seq<char> {
    match error {
        Error::Syntax => "Syntax"@,
        Error::NotImplemented => "NotImplemented"@,
        Error::FileNotFound => "FileNotFound"@,
        Error::Type => "Type"@,
        Error::UnknownToken => "UnknownToken"@,
        Error::UnexpectedToken => "UnexpectedToken"@,
        Error::Critical => "Critical"@,
        Error::TooCharactersOnLine => "TooCharactersOnLine"@,
        Error::ForbiddenCharacter => "ForbiddenCharacter"@,
        Error::WrongFormat => "WrongFormat"@,
    }
}

/// Renders a diagnostic category as its fixed display label.
pub fn error_to_string(error: &Error) -> (r: &'static str)
    ensures
        r@ == label_of(*error),
{
    match error {
        Error::Syntax => "Syntax",
        Error::NotImplemented => "NotImplemented",
        Error::FileNotFound => "FileNotFound",
        Error::Type => "Type",
        Error::UnknownToken => "UnknownToken",
        Error::UnexpectedToken => "UnexpectedToken",
        Error::Critical => "Critical",
        Error::TooCharactersOnLine => "TooCharactersOnLine",
        Error::ForbiddenCharacter => "ForbiddenCharacter",
        Error::WrongFormat => "WrongFormat",
    }
}

/// No display label holds the ANSI escape character, so every label can be
/// colored without interfering with sequences already present.
pub proof fn lemma_labels_escape_free(error: Error)
    ensures
        no_escape(label_of(error)),
{
    reveal_strlit("Syntax");
    reveal_strlit("NotImplemented");
    reveal_strlit("FileNotFound");
    reveal_strlit("Type");
    reveal_strlit("UnknownToken");
    reveal_strlit("UnexpectedToken");
    reveal_strlit("Critical");
    reveal_strlit("TooCharactersOnLine");
    reveal_strlit("ForbiddenCharacter");
    reveal_strlit("WrongFormat");
}

/// The location line of a diagnostic: the (possibly colored) arrow, then
/// the source path, the program name and the line cursor, colon-separated.
pub open spec fn located_line(
    arrow: Seq<char>,
    path: Seq<char>,
    name: Seq<char>,
    pc: nat,
) -> Seq<char> {
    arrow + " "@ + path + ":"@ + name + ":"@ + dec_str(pc)
}

/// The full text of one diagnostic: severity word, category label, quoted
/// message, then the location line.
pub open spec fn diagnostic_text(
    severity: Seq<char>,
    kind_label: Seq<char>,
    message: Seq<char>,
    location: Seq<char>,
) -> Seq<char> {
    severity + ": "@ + kind_label + ": `"@ + message + "`\n"@ + location
}

/// Renders one diagnostic for the given program location. The severity
/// word, the category label and the location arrow are colored through the
/// terminal-dependent coloring, everything else is fixed text.
pub fn to_stderr(program: &Program, kind: &Error, message: String, is_warning: bool) -> (r:
    String)
    ensures
        exists|severity: Seq<char>, kind_label: Seq<char>, arrow: Seq<char>|
            {
                &&& colorized(
                    severity,
                    if is_warning {
                        fg_yellow()
                    } else {
                        fg_red()
                    },
                    if is_warning {
                        "warning"@
                    } else {
                        "error"@
                    },
                )
                &&& colorized(kind_label, fg_cyan(), label_of(*kind))
                &&& colorized(arrow, fg_blue(), "-->"@)
                &&& r@ == #[trigger] diagnostic_text(
                    severity,
                    kind_label,
                    message@,
                    located_line(arrow, program@.path, program@.name, program@.pc),
                )
            },
{
    let severity: String = if is_warning {
        proof {
            reveal_strlit("warning");
        }
        paint_yellow("warning")
    } else {
        proof {
            reveal_strlit("error");
        }
        paint_red("error")
    };
    proof {
        lemma_labels_escape_free(*kind);
        reveal_strlit("-->");
    }
    let kind_label: String = paint_cyan(error_to_string(kind));
    let arrow: String = paint_blue("-->");
    let line_no: String = usize_to_string(program.get_line());
    let ghost arrow_view = arrow@;
    let mut location: String = arrow;
    location.append(" ");
    location.append(program.get_filename());
    location.append(":");
    location.append(program.get_name());
    location.append(":");
    location.append(line_no.as_str());
    proof {
        assert(location@ =~= located_line(arrow_view, program@.path, program@.name, program@.pc));
    }
    let ghost severity_view = severity@;
    let mut out: String = severity;
    out.append(": ");
    out.append(kind_label.as_str());
    out.append(": `");
    out.append(message.as_str());
    out.append("`\n");
    out.append(location.as_str());
    proof {
        assert(out@ =~= diagnostic_text(severity_view, kind_label@, message@, location@));
    }
    out
}

} // verus!
