//! The decisions behind what the screen shows: which part of the theme list
//! is visible, and what the footer says, in which colours.
use vstd::prelude::*;

use crate::preview::{is_span, line_ok, StyledSpan};
use crate::text::{copy_string, starts_with_spec, starts_with_text};

verus! {

/// The first visible row of a list of `len` rows in a window of `height`
/// rows, with row `sel` selected: the selected row is kept in the middle,
/// except near the ends of the list, where the window stops at the first or
/// the last row.
pub open spec fn offset_spec(len: int, sel: int, height: int) -> int {
    if height <= 0 || len <= height {
        0
    } else {
        let centred = sel - height / 2;
        if centred < 0 {
            0
        } else if centred > len - height {
            len - height
        } else {
            centred
        }
    }
}

/// The scroll offset of the theme list, computed before each drawing.
pub fn list_offset(len: usize, selected: Option<usize>, height: usize) -> (r: usize)
    ensures
        r == offset_spec(
            len as int,
            match selected {
                Some(s) => s as int,
                None => 0,
            },
            height as int,
        ),
        // The window stays inside the list.
        height <= len ==> r + height <= len,
        height > len ==> r == 0,
        // The selected row is visible.
        selected matches Some(s) ==> (s < len && height > 0 ==> r <= s < r + height),
{
    let sel = match selected {
        Some(s) => s,
        None => 0,
    };
    if height == 0 || len <= height {
        0
    } else {
        let half = height / 2;
        if sel < half {
            0
        } else if sel - half > len - height {
            len - height
        } else {
            sel - half
        }
    }
}

/// The colour of a status message in the footer, as a terminal palette
/// index: red (1) for an error (`git error: ...`, `failed to run git: ...`,
/// `error: ...`), green (2) otherwise.
pub open spec fn status_color_spec(msg: Seq<char>) -> u8 {
    if starts_with_spec(msg, "git error"@) || starts_with_spec(msg, "failed"@) || starts_with_spec(
        msg,
        "error"@,
    ) {
        1
    } else {
        2
    }
}

pub fn status_color(msg: &str) -> (c: u8)
    ensures
        c == status_color_spec(msg@),
{
    if starts_with_text(msg, "git error") || starts_with_text(msg, "failed") || starts_with_text(
        msg,
        "error",
    ) {
        1
    } else {
        2
    }
}

/// The footer: the status message, where there is one, in its colour;
/// else the key hints, with the hint for updating the themes only where the
/// themes directory is a git repository.
pub fn footer_spans(status: Option<&str>, is_git_repo: bool) -> (r: Vec<StyledSpan>)
    ensures
        line_ok(r@),
        match status {
            Some(m) => r@.len() == 1 && is_span(r@[0], m@, Some(status_color_spec(m@)), false),
            None => {
                &&& r@.len() == if is_git_repo { 9int } else { 6int }
                &&& is_span(r@[0], " ↑↓ jk "@, Some(3u8), false)
                &&& is_span(r@[1], "navigate   "@, None, false)
                &&& is_span(r@[2], "Enter "@, Some(10u8), false)
                &&& is_span(r@[3], "keep   "@, None, false)
                &&& is_span(r@[4], "Esc/q "@, Some(1u8), false)
                &&& is_span(r@[5], "restore & exit"@, None, false)
                &&& is_git_repo ==> {
                    &&& is_span(r@[6], "   "@, None, false)
                    &&& is_span(r@[7], "u "@, Some(14u8), false)
                    &&& is_span(r@[8], "update themes"@, None, false)
                }
            },
        },
{
    match status {
        Some(m) => {
            let c = status_color(m);
            vec![StyledSpan { text: copy_string(m), color: Some(c), bold: false }]
        },
        None => {
            let mut r = vec![
                hint(" ↑↓ jk ", Some(3)),
                hint("navigate   ", None),
                hint("Enter ", Some(10)),
                hint("keep   ", None),
                hint("Esc/q ", Some(1)),
                hint("restore & exit", None),
            ];
            if is_git_repo {
                r.push(hint("   ", None));
                r.push(hint("u ", Some(14)));
                r.push(hint("update themes", None));
            }
            r
        },
    }
}

fn hint(text: &str, color: Option<u8>) -> (r: StyledSpan)
    ensures
        is_span(r, text@, color, false),
{
    StyledSpan { text: copy_string(text), color, bold: false }
}

} // verus!
