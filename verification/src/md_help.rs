//! Help texts: Markdown rendered for the terminal, with the status symbols in
//! the colours that the listing gives them.

use vstd::prelude::*;
use termimad::crossterm::style::Color;
use termimad::MadSkin;
use crate::styling::constants::{paint, painted, Tone};
use crate::text::replace::{replace_all, replace_chars};
use crate::text::{append_str, chars_of, string_of};

verus! {

/// A symbol of the legend, the word that follows it, and its tone.
pub struct LegendEntry {
    pub symbol: &'static str,
    pub word: &'static str,
    pub tone: Tone,
}

/// Mathematical model of a [`LegendEntry`].
pub struct LegendEntryView {
    pub symbol: Seq<char>,
    pub word: Seq<char>,
    pub tone: Tone,
}

impl View for LegendEntry {
    type V = LegendEntryView;

    open spec fn view(&self) -> LegendEntryView {
        LegendEntryView { symbol: self.symbol@, word: self.word@, tone: self.tone }
    }
}

/// The symbols that the help explains, each with the first word of its
/// explanation: CI states, conflicts, operations under way, attributes of a
/// working copy, states of a branch and changes in the working tree.
pub open spec fn legend() -> Seq<LegendEntryView> {
    seq![
        LegendEntryView { symbol: "●"@, word: "passed"@, tone: Tone::Success },
        LegendEntryView { symbol: "●"@, word: "running"@, tone: Tone::Progress },
        LegendEntryView { symbol: "●"@, word: "failed"@, tone: Tone::Error },
        LegendEntryView { symbol: "●"@, word: "conflicts"@, tone: Tone::Warning },
        LegendEntryView { symbol: "●"@, word: "no-ci"@, tone: Tone::Disabled },
        LegendEntryView { symbol: "✖"@, word: "Merge conflicts"@, tone: Tone::Error },
        LegendEntryView { symbol: "⚠"@, word: "Would conflict"@, tone: Tone::Warning },
        LegendEntryView { symbol: "↻"@, word: "Rebase"@, tone: Tone::Warning },
        LegendEntryView { symbol: "⋈"@, word: "Merge"@, tone: Tone::Warning },
        LegendEntryView { symbol: "⊠"@, word: "Locked"@, tone: Tone::Warning },
        LegendEntryView { symbol: "⚠"@, word: "Prunable"@, tone: Tone::Warning },
        LegendEntryView { symbol: "≡"@, word: "Working tree matches"@, tone: Tone::Hint },
        LegendEntryView { symbol: "∅"@, word: "No commits"@, tone: Tone::Hint },
        LegendEntryView { symbol: "·"@, word: "Branch without"@, tone: Tone::Hint },
        LegendEntryView { symbol: "?"@, word: "Untracked"@, tone: Tone::WorkingTree },
        LegendEntryView { symbol: "!"@, word: "Modified"@, tone: Tone::WorkingTree },
        LegendEntryView { symbol: "+"@, word: "Staged"@, tone: Tone::WorkingTree },
        LegendEntryView { symbol: "»"@, word: "Renamed"@, tone: Tone::WorkingTree },
        LegendEntryView { symbol: "✘"@, word: "Deleted"@, tone: Tone::WorkingTree },
    ]
}

/// `text` with the symbol of `entry` painted wherever the symbol, a space and
/// the entry's word stand.
pub open spec fn with_entry(text: Seq<char>, entry: LegendEntryView) -> Seq<char> {
    replace_all(
        text,
        entry.symbol + " "@ + entry.word,
        painted(entry.tone, entry.symbol) + " "@ + entry.word,
    )
}

/// `text` with the symbols of `entries` painted, one entry after the other.
pub open spec fn with_entries(text: Seq<char>, entries: Seq<LegendEntryView>) -> Seq<char>
    decreases entries.len(),
{
    if entries.len() == 0 {
        text
    } else {
        with_entries(with_entry(text, entries[0]), entries.drop_first())
    }
}

/// The views of the elements of `entries`.
pub open spec fn entry_views(entries: Seq<LegendEntry>) -> Seq<LegendEntryView> {
    Seq::new(entries.len(), |i: int| entries[i]@)
}

fn legend_entries() -> (entries: Vec<LegendEntry>)
    ensures
        entry_views(entries@) == legend(),
{
    let mut entries: Vec<LegendEntry> = Vec::new();
    entries.push(LegendEntry { symbol: "●", word: "passed", tone: Tone::Success });
    entries.push(LegendEntry { symbol: "●", word: "running", tone: Tone::Progress });
    entries.push(LegendEntry { symbol: "●", word: "failed", tone: Tone::Error });
    entries.push(LegendEntry { symbol: "●", word: "conflicts", tone: Tone::Warning });
    entries.push(LegendEntry { symbol: "●", word: "no-ci", tone: Tone::Disabled });
    entries.push(LegendEntry { symbol: "✖", word: "Merge conflicts", tone: Tone::Error });
    entries.push(LegendEntry { symbol: "⚠", word: "Would conflict", tone: Tone::Warning });
    entries.push(LegendEntry { symbol: "↻", word: "Rebase", tone: Tone::Warning });
    entries.push(LegendEntry { symbol: "⋈", word: "Merge", tone: Tone::Warning });
    entries.push(LegendEntry { symbol: "⊠", word: "Locked", tone: Tone::Warning });
    entries.push(LegendEntry { symbol: "⚠", word: "Prunable", tone: Tone::Warning });
    entries.push(LegendEntry { symbol: "≡", word: "Working tree matches", tone: Tone::Hint });
    entries.push(LegendEntry { symbol: "∅", word: "No commits", tone: Tone::Hint });
    entries.push(LegendEntry { symbol: "·", word: "Branch without", tone: Tone::Hint });
    entries.push(LegendEntry { symbol: "?", word: "Untracked", tone: Tone::WorkingTree });
    entries.push(LegendEntry { symbol: "!", word: "Modified", tone: Tone::WorkingTree });
    entries.push(LegendEntry { symbol: "+", word: "Staged", tone: Tone::WorkingTree });
    entries.push(LegendEntry { symbol: "»", word: "Renamed", tone: Tone::WorkingTree });
    entries.push(LegendEntry { symbol: "✘", word: "Deleted", tone: Tone::WorkingTree });
    assert(entry_views(entries@) =~= legend());
    entries
}

/// Paints the status symbols in a help text in the colours that the listing
/// gives them.
pub fn colorize_status_symbols(text: &str) -> (r: String)
    ensures
        r@ == with_entries(text@, legend()),
{
    let entries = legend_entries();
    let ghost all = entry_views(entries@);
    let mut out = chars_of(text);
    let mut k: usize = 0;
    assert(all.skip(0) =~= all);
    while k < entries.len()
        invariant
            k <= entries.len(),
            all == entry_views(entries@),
            with_entries(text@, all) == with_entries(out@, all.skip(k as int)),
        decreases entries.len() - k,
    {
        let entry = &entries[k];
        assert(all.skip(k as int)[0] == entry@);
        assert(all.skip(k as int).drop_first() =~= all.skip(k + 1));
        let mut pattern = chars_of(entry.symbol);
        append_str(&mut pattern, " ");
        append_str(&mut pattern, entry.word);
        let mut replacement = chars_of(paint(entry.tone, entry.symbol).as_str());
        append_str(&mut replacement, " ");
        append_str(&mut replacement, entry.word);
        out = replace_chars(&out, &pattern, &replacement);
        k += 1;
    }
    assert(all.skip(entries.len() as int) =~= Seq::<LegendEntryView>::empty());
    string_of(&out)
}

/// Renders Markdown with `termimad`: a skin without styles, but for green
/// first- and second-level headers, formats the text at the given width.
/// Nothing is claimed of the result: it also depends on the process's
/// environment.
#[verifier::external_body]
fn render_markdown(help: &str, width: usize) -> (rendered: String) {
    let mut skin = MadSkin::no_style();
    skin.headers[0].set_fg(Color::Green);
    skin.headers[1].set_fg(Color::Green);
    format!("{}", skin.text(help, Some(width)))
}

/// Whether `text` is a rendered help text with its status symbols painted.
pub open spec fn is_colorized(text: Seq<char>) -> bool {
    exists|rendered: Seq<char>| text == with_entries(rendered, legend())
}

/// Renders the Markdown of a help text for a terminal of `width` columns and
/// paints its status symbols.
pub fn render_markdown_in_help(help: &str, width: usize) -> (r: String)
    ensures
        is_colorized(r@),
{
    let rendered = render_markdown(help, width);
    colorize_status_symbols(rendered.as_str())
}

} // verus!
