//! The marks that open the tool's messages, and the colours of its output.

use vstd::prelude::*;
use anstyle::{AnsiColor, Color, Style};

verus! {

/// Opens a message about work in progress.
pub const PROGRESS_EMOJI: &'static str = "🔄";

/// Opens a message about a success.
pub const SUCCESS_EMOJI: &'static str = "✅";

/// Opens an error message.
pub const ERROR_EMOJI: &'static str = "❌";

/// Opens a warning.
pub const WARNING_EMOJI: &'static str = "🟡";

/// Opens a hint.
pub const HINT_EMOJI: &'static str = "💡";

/// Opens a neutral piece of information.
pub const INFO_EMOJI: &'static str = "⚪";

/// Opens a question to the user.
pub const PROMPT_EMOJI: &'static str = "❓";

/// What a coloured piece of output stands for.
#[derive(Debug, Clone, Copy, PartialEq, Eq, Structural)]
pub enum Tone {
    /// Red.
    Error,
    /// Yellow.
    Warning,
    /// Green.
    Success,
    /// Blue.
    Progress,
    /// Bright black.
    Disabled,
    /// Cyan.
    WorkingTree,
    /// Dimmed, in the terminal's own colour.
    Hint,
}

/// The escape sequence that ends every colour and effect.
pub open spec fn reset_code() -> Seq<char> {
    "\x1b[0m"@
}

/// The escape sequence that switches a tone on: that of its colour, or the
/// one that dims.
pub open spec fn tone_code(tone: Tone) -> Seq<char> {
    match tone_colour(tone) {
        Some(colour) => colour_code(colour),
        None => "\x1b[2m"@,
    }
}

/// `text` in the tone `tone`: the tone's escape sequence, the text, the reset.
pub open spec fn painted(tone: Tone, text: Seq<char>) -> Seq<char> {
    tone_code(tone) + text + reset_code()
}

/// The colours that the tones use.
#[derive(Debug, Clone, Copy, PartialEq, Eq, Structural)]
pub enum Colour {
    Red,
    Yellow,
    Green,
    Blue,
    BrightBlack,
    Cyan,
}

/// The colour of a tone; the hint has none, it is dimmed.
pub open spec fn tone_colour(tone: Tone) -> Option<Colour> {
    match tone {
        Tone::Error => Some(Colour::Red),
        Tone::Warning => Some(Colour::Yellow),
        Tone::Success => Some(Colour::Green),
        Tone::Progress => Some(Colour::Blue),
        Tone::Disabled => Some(Colour::BrightBlack),
        Tone::WorkingTree => Some(Colour::Cyan),
        Tone::Hint => None,
    }
}

/// The escape sequence that sets a foreground colour.
pub open spec fn colour_code(colour: Colour) -> Seq<char> {
    match colour {
        Colour::Red => "\x1b[31m"@,
        Colour::Yellow => "\x1b[33m"@,
        Colour::Green => "\x1b[32m"@,
        Colour::Blue => "\x1b[34m"@,
        Colour::BrightBlack => "\x1b[90m"@,
        Colour::Cyan => "\x1b[36m"@,
    }
}

/// Formats `text` between the two `Display` forms of an `anstyle::Style` that
/// has the foreground colour `colour` and nothing else: the plain form writes
/// the colour's escape sequence, the alternate form the reset sequence.
#[verifier::external_body]
fn coloured(colour: Colour, text: &str) -> (r: String)
    ensures
        r@ == colour_code(colour) + text@ + reset_code(),
{
    let ansi = match colour {
        Colour::Red => AnsiColor::Red,
        Colour::Yellow => AnsiColor::Yellow,
        Colour::Green => AnsiColor::Green,
        Colour::Blue => AnsiColor::Blue,
        Colour::BrightBlack => AnsiColor::BrightBlack,
        Colour::Cyan => AnsiColor::Cyan,
    };
    let style = Style::new().fg_color(Some(Color::Ansi(ansi)));
    format!("{style}{text}{style:#}")
}

/// Formats `text` between the two `Display` forms of the `anstyle::Style` that
/// is dimmed and nothing else: the plain form writes the escape sequence of
/// the effect, the alternate form the reset sequence.
#[verifier::external_body]
fn dimmed(text: &str) -> (r: String)
    ensures
        r@ == "\x1b[2m"@ + text@ + reset_code(),
{
    let style = Style::new().dimmed();
    format!("{style}{text}{style:#}")
}

/// `text` in the tone `tone`.
pub fn paint(tone: Tone, text: &str) -> (r: String)
    ensures
        r@ == painted(tone, text@),
{
    match tone {
        Tone::Error => coloured(Colour::Red, text),
        Tone::Warning => coloured(Colour::Yellow, text),
        Tone::Success => coloured(Colour::Green, text),
        Tone::Progress => coloured(Colour::Blue, text),
        Tone::Disabled => coloured(Colour::BrightBlack, text),
        Tone::WorkingTree => coloured(Colour::Cyan, text),
        Tone::Hint => dimmed(text),
    }
}

} // verus!
