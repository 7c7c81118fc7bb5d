//! Labels in colour and the status lines that carry them.

use colored::Colorize;
use vstd::prelude::*;

verus! {

/// The colour of a label.
#[derive(Clone, Copy, Debug, PartialEq, Eq, Structural)]
pub enum Shade {
    /// For errors.
    Red,
    /// For progress.
    Green,
    /// For warnings.
    Yellow,
}

/// The terminal sequence that starts bold text in a colour.
pub open spec fn bold_start(shade: Shade) -> Seq<char> {
    match shade {
        Shade::Red => "\x1b[1;31m"@,
        Shade::Green => "\x1b[1;32m"@,
        Shade::Yellow => "\x1b[1;33m"@,
    }
}

/// A text in bold and in colour, for a terminal.
pub open spec fn bold_text(text: Seq<char>, shade: Shade) -> Seq<char> {
    bold_start(shade) + text + "\x1b[0m"@
}

/// Whether `shown` is `text` as the terminal gets it: in bold and in colour, or plain
/// where colours are switched off.
pub open spec fn shows(shown: Seq<char>, text: Seq<char>, shade: Shade) -> bool {
    shown == text || shown == bold_text(text, shade)
}

/// Whether a text holds no escape character.
pub open spec fn plain(text: Seq<char>) -> bool {
    forall|i: int| 0 <= i < text.len() ==> #[trigger] text[i] != '\x1b'
}

/// Calls `color` and `bold` of `colored::Colorize` and writes the result out. The
/// terminal, the environment and `colored::control` decide whether escape sequences
/// are written: the text comes back as it is, or between the sequence that starts bold
/// text in that colour and the one that ends it. Text that holds an escape character is
/// left out, since `colored` rewrites sequences that it finds in the text. Which of the
/// two comes back is left unsaid: it rests on the environment of the process.
#[verifier::external_body]
fn paint(text: &str, shade: Shade) -> (r: String)
    requires
        plain(text@),
    ensures
        shows(r@, text@, shade),
{
    let color = match shade {
        Shade::Red => colored::Color::Red,
        Shade::Green => colored::Color::Green,
        Shade::Yellow => colored::Color::Yellow,
    };
    text.color(color).bold().to_string()
}

/// The label of an error report.
pub fn error_label() -> (r: String)
    ensures
        shows(r@, "Error"@, Shade::Red),
{
    proof {
        reveal_strlit("Error");
    }
    paint("Error", Shade::Red)
}

/// A line that tells the user how far the run has come.
#[derive(Debug)]
pub enum Status {
    /// The configuration profile in use.
    Config(String),
    /// The path of the binary.
    Target(String),
    /// The address at which the GDB stub listens.
    GdbListening(String),
    /// The end of the run with a configuration profile.
    Done(String),
    /// The option that halts the core stands in the wrong section of the configuration.
    HaltOptionMoved,
}

impl Status {
    /// The label of the line.
    pub open spec fn label(&self) -> Seq<char> {
        match self {
            Status::Config(_) => "Config"@,
            Status::Target(_) => "Target"@,
            Status::GdbListening(_) => "GDB stub"@,
            Status::Done(_) => "Done"@,
            Status::HaltOptionMoved => "Warning"@,
        }
    }

    /// The colour of the label.
    pub open spec fn shade(&self) -> Shade {
        match self {
            Status::HaltOptionMoved => Shade::Yellow,
            _ => Shade::Green,
        }
    }

    /// The line, with `label` as its label.
    pub open spec fn line(&self, label: Seq<char>) -> Seq<char> {
        match self {
            Status::Config(name) => "      "@ + label + " "@ + name@,
            Status::Target(path) => "      "@ + label + " "@ + path@,
            Status::GdbListening(address) => "    "@ + label + " listening at "@ + address@,
            Status::Done(name) => "        "@ + label + " processing config "@ + name@,
            Status::HaltOptionMoved => "     "@ + label
                + " The 'flashing.halt_afterwards' option in the config has moved to the 'reset' section"@,
        }
    }

    /// Writes the line with a label that was painted before.
    pub fn render_with(&self, label: &str) -> (r: String)
        ensures
            r@ == self.line(label@),
    {
        let mut out = String::new();
        match self {
            Status::Config(name) => {
                out.append("      ");
                out.append(label);
                out.append(" ");
                out.append(name.as_str());
            },
            Status::Target(path) => {
                out.append("      ");
                out.append(label);
                out.append(" ");
                out.append(path.as_str());
            },
            Status::GdbListening(address) => {
                out.append("    ");
                out.append(label);
                out.append(" listening at ");
                out.append(address.as_str());
            },
            Status::Done(name) => {
                out.append("        ");
                out.append(label);
                out.append(" processing config ");
                out.append(name.as_str());
            },
            Status::HaltOptionMoved => {
                out.append("     ");
                out.append(label);
                out.append(
                    " The 'flashing.halt_afterwards' option in the config has moved to the 'reset' section",
                );
            },
        }
        assert(out@ =~= self.line(label@));
        out
    }

    /// Writes the line, in colour where colours are switched on.
    pub fn render(&self) -> (r: String)
        ensures
            r@ == self.line(self.label()) || r@ == self.line(bold_text(self.label(), self.shade())),
    {
        proof {
            reveal_strlit("Config");
            reveal_strlit("Target");
            reveal_strlit("GDB stub");
            reveal_strlit("Done");
            reveal_strlit("Warning");
        }
        let label = match self {
            Status::Config(_) => paint("Config", Shade::Green),
            Status::Target(_) => paint("Target", Shade::Green),
            Status::GdbListening(_) => paint("GDB stub", Shade::Green),
            Status::Done(_) => paint("Done", Shade::Green),
            Status::HaltOptionMoved => paint("Warning", Shade::Yellow),
        };
        self.render_with(label.as_str())
    }
}

/// In plain text the labels of all status lines end in the same column.
pub proof fn lemma_labels_aligned(status: Status)
    ensures
        status.line(status.label()).len() >= 12,
        status.line(status.label()).take(12) == crate::text::blanks(
            (12 - status.label().len()) as nat,
        ) + status.label(),
{
    reveal_strlit("Config");
    reveal_strlit("Target");
    reveal_strlit("GDB stub");
    reveal_strlit("Done");
    reveal_strlit("Warning");
    reveal_strlit("    ");
    reveal_strlit("     ");
    reveal_strlit("      ");
    reveal_strlit("        ");
    assert(status.line(status.label()).take(12) =~= crate::text::blanks(
        (12 - status.label().len()) as nat,
    ) + status.label());
}

/// Every line has its own label, and only the warning is not in green.
pub proof fn lemma_labels(status: Status)
    ensures
        status is Config ==> status.label() == "Config"@,
        status is Target ==> status.label() == "Target"@,
        status is GdbListening ==> status.label() == "GDB stub"@,
        status is Done ==> status.label() == "Done"@,
        status is HaltOptionMoved ==> status.label() == "Warning"@,
        status.shade() is Yellow <==> status is HaltOptionMoved,
        status.shade() is Green <==> !(status is HaltOptionMoved),
{
}

/// A line shows the label that it is given, unchanged, and ends with the name, the path or
/// the address that it is about, unchanged. The label has no part in what stands before and
/// behind it.
pub proof fn lemma_line_shows(status: Status, label: Seq<char>, other: Seq<char>)
    ensures
        ({
            let indent = 12 - status.label().len();
            let line = status.line(label);
            let words = line.skip(indent + label.len());
            &&& line.take(indent) == crate::text::blanks(indent as nat)
            &&& line.subrange(indent, indent + label.len()) == label
            &&& words == status.line(other).skip(indent + other.len())
            &&& status matches Status::Config(name) ==> words == " "@ + name@
            &&& status matches Status::Target(path) ==> words == " "@ + path@
            &&& status matches Status::GdbListening(address) ==> words == " listening at "@
                + address@
            &&& status matches Status::Done(name) ==> words == " processing config "@ + name@
            &&& status is HaltOptionMoved ==> words
                == " The 'flashing.halt_afterwards' option in the config has moved to the 'reset' section"@
        }),
{
    reveal_strlit("Config");
    reveal_strlit("Target");
    reveal_strlit("GDB stub");
    reveal_strlit("Done");
    reveal_strlit("Warning");
    reveal_strlit("    ");
    reveal_strlit("     ");
    reveal_strlit("      ");
    reveal_strlit("        ");
    let indent = 12 - status.label().len();
    let line = status.line(label);
    let words = line.skip(indent + label.len());
    assert(line.take(indent) =~= crate::text::blanks(indent as nat));
    assert(line.subrange(indent, indent + label.len()) =~= label);
    assert(words =~= status.line(other).skip(indent + other.len()));
    match status {
        Status::Config(name) => assert(words =~= " "@ + name@),
        Status::Target(path) => assert(words =~= " "@ + path@),
        Status::GdbListening(address) => assert(words =~= " listening at "@ + address@),
        Status::Done(name) => assert(words =~= " processing config "@ + name@),
        Status::HaltOptionMoved => assert(words
            =~= " The 'flashing.halt_afterwards' option in the config has moved to the 'reset' section"@),
    }
}

/// Paint leaves the text as it is, between a start that tells bold and the colour and an end
/// that is the same for all.
pub proof fn lemma_bold_text(text: Seq<char>, shade: Shade)
    ensures
        ({
            let bold = bold_text(text, shade);
            let end = 7 + text.len() as int;
            &&& bold.len() == end + 4
            &&& bold.take(6) == seq!['\x1b', '[', '1', ';', '3', if shade is Red {
                '1'
            } else if shade is Green {
                '2'
            } else {
                '3'
            }]
            &&& bold[6] == 'm'
            &&& bold.subrange(7, end) == text
            &&& bold.skip(end) == seq!['\x1b', '[', '0', 'm']
        }),
{
    reveal_strlit("\x1b[1;31m");
    reveal_strlit("\x1b[1;32m");
    reveal_strlit("\x1b[1;33m");
    reveal_strlit("\x1b[0m");
    let bold = bold_text(text, shade);
    let end = 7 + text.len() as int;
    assert(bold.subrange(7, end) =~= text);
    assert(bold.skip(end) =~= seq!['\x1b', '[', '0', 'm']);
}

} // verus!
