//! The choice between rendering as data arrives and rendering once at the end.

use vstd::prelude::*;

verus! {

/// How the listing is rendered.
#[derive(Debug, Clone, Copy, PartialEq, Eq, Structural)]
pub enum RenderMode {
    /// Collect everything, then render once.
    Buffered,
    /// Show the rows at once and redraw as cells arrive.
    Progressive,
}

/// The mode for a request and a stream: an explicit request wins; without one
/// the listing is progressive exactly if the stream it is written to is an
/// interactive terminal.
pub open spec fn detect_spec(progressive: Option<bool>, stream_is_terminal: bool) -> RenderMode {
    match progressive {
        Some(true) => RenderMode::Progressive,
        Some(false) => RenderMode::Buffered,
        None => if stream_is_terminal {
            RenderMode::Progressive
        } else {
            RenderMode::Buffered
        },
    }
}

impl RenderMode {
    /// Chooses the mode. `progressive` is the caller's request: `Some(true)` to
    /// force progressive rendering, `Some(false)` to force buffered rendering,
    /// `None` to decide by the stream. `stream_is_terminal` says whether the
    /// stream that the table is written to is an interactive terminal.
    pub fn detect(progressive: Option<bool>, stream_is_terminal: bool) -> (mode: RenderMode)
        ensures
            mode == detect_spec(progressive, stream_is_terminal),
    {
        match progressive {
            Some(true) => RenderMode::Progressive,
            Some(false) => RenderMode::Buffered,
            None => if stream_is_terminal {
                RenderMode::Progressive
            } else {
                RenderMode::Buffered
            },
        }
    }
}

/// How the listing is put out.
#[derive(Debug, Clone, Copy, PartialEq, Eq, Structural)]
pub enum OutputFormat {
    /// A table for people.
    Table,
    /// A structured dump for programs.
    Json,
}

/// The mode for an output format: the structured dump is written once, when
/// everything has been collected; the table goes by [`detect_spec`].
pub open spec fn mode_for(
    format: OutputFormat,
    progressive: Option<bool>,
    stream_is_terminal: bool,
) -> RenderMode {
    match format {
        OutputFormat::Json => RenderMode::Buffered,
        OutputFormat::Table => detect_spec(progressive, stream_is_terminal),
    }
}

impl RenderMode {
    /// Chooses the mode for an output format. Partial states are never written
    /// to a structured dump.
    pub fn for_format(format: OutputFormat, progressive: Option<bool>, stream_is_terminal: bool) -> (mode:
        RenderMode)
        ensures
            mode == mode_for(format, progressive, stream_is_terminal),
    {
        match format {
            OutputFormat::Json => RenderMode::Buffered,
            OutputFormat::Table => RenderMode::detect(progressive, stream_is_terminal),
        }
    }
}

} // verus!
