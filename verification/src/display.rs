//! What text looks like on a terminal: truncation to a width, relative
//! times, the terminal's width and shortened paths.

pub mod paths;
pub mod truncate;
pub mod width;

use vstd::prelude::*;
use crate::display::paths::{
    all_start_with, common_prefix, components, components_start_with, is_component_prefix,
    join_components, path_components, shared_count, shortened, string_views,
};
use crate::display::truncate::{
    lemma_truncated, lemma_truncated_measured, truncate_glyphs, truncated,
};
use crate::display::width::{display_width, measure, text_of, text_width};
use crate::text::number::{decimal, parse_unsigned, parse_usize, push_decimal};
use crate::text::split::{ends_with, views};
use crate::text::{append_chars, append_str, chars_of, string_of};

verus! {

// ---------------------------------------------------------------------------
// Truncation
// ---------------------------------------------------------------------------

/// Truncates `text` to `max_width` columns, at a word boundary where there is
/// one, and marks the cut with an ellipsis. Width is counted in terminal
/// columns, not in bytes or characters.
pub fn truncate_at_word_boundary(text: &str, max_width: usize) -> (r: String)
    ensures
        r@ == truncated(text@, max_width as int),
        text_width(text@) <= max_width ==> r@ == text@,
        text_width(text@) > max_width ==> ends_with(r@, "..."@),
        text_width(text@) > max_width && max_width >= 3 ==> text_width(r@) <= max_width,
{
    proof {
        lemma_truncated(text@, max_width as int);
        lemma_truncated_measured(text@, max_width as int);
    }
    if display_width(text) <= max_width {
        return string_of(&chars_of(text));
    }
    let glyphs = measure(text);
    text_of(&truncate_glyphs(&glyphs, max_width))
}

// ---------------------------------------------------------------------------
// Relative time
// ---------------------------------------------------------------------------

/// Seconds in a minute.
pub const MINUTE: i64 = 60;

/// Seconds in an hour.
pub const HOUR: i64 = 3600;

/// Seconds in a day.
pub const DAY: i64 = 86400;

/// Seconds in a week.
pub const WEEK: i64 = 604800;

/// Thirty days: about a calendar month.
pub const MONTH: i64 = 2592000;

/// 365 days: about a calendar year.
pub const YEAR: i64 = 31536000;

/// `value` units ago, the unit in the plural unless `value` is one.
pub open spec fn ago_text(value: int, label: Seq<char>) -> Seq<char> {
    decimal(value as nat) + " "@ + label + (if value == 1 {
        ""@
    } else {
        "s"@
    }) + " ago"@
}

/// How long before `now` the moment `timestamp` was, in the largest unit that
/// has passed at least once. Both are seconds since the Unix epoch.
pub open spec fn relative_time(timestamp: int, now: int) -> Seq<char> {
    let ago = now - timestamp;
    if ago < 0 {
        "in the future"@
    } else if ago < MINUTE {
        "just now"@
    } else if ago >= YEAR {
        ago_text(ago / (YEAR as int), "year"@)
    } else if ago >= MONTH {
        ago_text(ago / (MONTH as int), "month"@)
    } else if ago >= WEEK {
        ago_text(ago / (WEEK as int), "week"@)
    } else if ago >= DAY {
        ago_text(ago / (DAY as int), "day"@)
    } else if ago >= HOUR {
        ago_text(ago / (HOUR as int), "hour"@)
    } else {
        ago_text(ago / (MINUTE as int), "minute"@)
    }
}

fn ago(value: u128, label: &str) -> (r: String)
    ensures
        r@ == ago_text(value as int, label@),
{
    let mut out: Vec<char> = Vec::new();
    push_decimal(&mut out, value);
    append_str(&mut out, " ");
    append_str(&mut out, label);
    if value == 1 {
        append_str(&mut out, "");
    } else {
        append_str(&mut out, "s");
    }
    append_str(&mut out, " ago");
    string_of(&out)
}

/// Says how long before `now` the moment `timestamp` was, such as `3 days ago`.
/// Both are seconds since the Unix epoch.
pub fn format_relative_time(timestamp: i64, now: i64) -> (r: String)
    ensures
        r@ == relative_time(timestamp as int, now as int),
{
    let seconds_ago: i128 = now as i128 - timestamp as i128;
    if seconds_ago < 0 {
        return string_of(&chars_of("in the future"));
    }
    if seconds_ago < MINUTE as i128 {
        return string_of(&chars_of("just now"));
    }
    if seconds_ago >= YEAR as i128 {
        ago((seconds_ago / (YEAR as i128)) as u128, "year")
    } else if seconds_ago >= MONTH as i128 {
        ago((seconds_ago / (MONTH as i128)) as u128, "month")
    } else if seconds_ago >= WEEK as i128 {
        ago((seconds_ago / (WEEK as i128)) as u128, "week")
    } else if seconds_ago >= DAY as i128 {
        ago((seconds_ago / (DAY as i128)) as u128, "day")
    } else if seconds_ago >= HOUR as i128 {
        ago((seconds_ago / (HOUR as i128)) as u128, "hour")
    } else {
        ago((seconds_ago / (MINUTE as i128)) as u128, "minute")
    }
}

// ---------------------------------------------------------------------------
// Terminal width
// ---------------------------------------------------------------------------

/// The width assumed for a terminal that tells none.
pub const DEFAULT_TERMINAL_WIDTH: usize = 80;

/// The terminal's width: the override if it is a number, else what the
/// terminal told of itself, else eighty columns.
pub open spec fn terminal_width(columns: Option<Seq<char>>, probed: Option<u16>) -> int {
    let forced = match columns {
        Some(text) => parse_unsigned(text, usize::MAX as nat),
        None => None,
    };
    match forced {
        Some(w) => w as int,
        None => match probed {
            Some(w) => w as int,
            None => DEFAULT_TERMINAL_WIDTH as int,
        },
    }
}

/// Settles the terminal's width. `columns` is the value of the override
/// setting, if it is set; `probed` is the width that the output stream
/// reported, if it reported one.
pub fn get_terminal_width(columns: Option<&str>, probed: Option<u16>) -> (w: usize)
    ensures
        w == terminal_width(
            match columns {
                Some(c) => Some(c@),
                None => None,
            },
            probed,
        ),
{
    if let Some(cols) = columns {
        if let Some(width) = parse_usize(&chars_of(cols)) {
            return width;
        }
    }
    match probed {
        Some(w) => w as usize,
        None => DEFAULT_TERMINAL_WIDTH,
    }
}

// ---------------------------------------------------------------------------
// Paths
// ---------------------------------------------------------------------------

/// Finds the deepest directory that all of `paths` lie at or below.
pub fn find_common_prefix(paths: &Vec<String>) -> (prefix: String)
    ensures
        prefix@ == common_prefix(string_views(paths@)),
{
    if paths.len() == 0 {
        return String::new();
    }
    let ghost texts = string_views(paths@);
    let mut all: Vec<Vec<Vec<char>>> = Vec::new();
    let mut i: usize = 0;
    while i < paths.len()
        invariant
            i <= paths.len(),
            all.len() == i,
            texts == string_views(paths@),
            forall|j: int| 0 <= j < i ==> views((#[trigger] all@[j])@) == components(texts[j]),
        decreases paths.len() - i,
    {
        let comps = path_components(paths[i].as_str());
        assert(texts[i as int] == paths@[i as int]@);
        all.push(comps);
        i += 1;
    }
    let first = &all[0];
    let ghost comps = components(texts[0]);
    assert(views(first@) == comps);
    let mut k: usize = 0;
    loop
        invariant_except_break
            k <= first.len(),
            shared_count(texts, comps, 0) == shared_count(texts, comps, k as int),
        invariant
            k <= first.len(),
            all.len() == paths.len(),
            texts == string_views(paths@),
            comps == views(first@),
            forall|j: int| 0 <= j < all.len() ==> views((#[trigger] all@[j])@) == components(texts[j]),
        ensures
            shared_count(texts, comps, 0) == k,
        decreases first.len() - k,
    {
        if k == first.len() {
            break ;
        }
        let mut shared = true;
        let mut j: usize = 0;
        while j < all.len() && shared
            invariant
                j <= all.len(),
                k < first.len(),
                all.len() == paths.len(),
                texts == string_views(paths@),
                comps == views(first@),
                forall|m: int|
                    0 <= m < all.len() ==> views((#[trigger] all@[m])@) == components(texts[m]),
                shared ==> forall|m: int|
                    0 <= m < j ==> is_component_prefix(
                        comps.take(k + 1),
                        components(#[trigger] texts[m]),
                    ),
                !shared ==> !all_start_with(texts, comps.take(k + 1)),
            decreases all.len() - j + if shared { 1int } else { 0int },
        {
            assert(views(all@[j as int]@) == components(texts[j as int]));
            if !components_start_with(&all[j], first, k + 1) {
                shared = false;
            } else {
                j += 1;
            }
        }
        if !shared {
            break ;
        }
        assert(all_start_with(texts, comps.take(k + 1)));
        k += 1;
    }
    let path = join_components(first, 0, k);
    assert(comps.subrange(0, k as int) =~= comps.take(k as int));
    string_of(&path)
}

/// Shows `path` as seen from `prefix`: `.` for the prefix itself, `./` and the
/// rest for a path below it, and the path unchanged where it is not below it.
pub fn shorten_path(path: &str, prefix: &str) -> (r: String)
    ensures
        r@ == shortened(path@, prefix@),
{
    let p = path_components(path);
    let q = path_components(prefix);
    assert(views(q@).take(q.len() as int) =~= views(q@));
    if components_start_with(&p, &q, q.len()) {
        if p.len() == q.len() {
            string_of(&chars_of("."))
        } else {
            let mut out: Vec<char> = Vec::new();
            append_str(&mut out, "./");
            let rest = join_components(&p, q.len(), p.len());
            assert(views(p@).subrange(q.len() as int, p.len() as int) =~= views(p@).skip(
                q.len() as int,
            ));
            append_chars(&mut out, &rest);
            string_of(&out)
        }
    } else {
        string_of(&chars_of(path))
    }
}

} // verus!
