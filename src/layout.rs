use crate::types::Span;
use vstd::prelude::*;
use vstd::utf8::encode_utf8;

verus! {

/// Length of a text in bytes, as UTF-8, as `str::len` reports it.
pub open spec fn byte_len(text: Seq<char>) -> int {
    encode_utf8(text).len() as usize as int
}

/// Width a candidate needs: its bytes plus the padding, capped at `usize::MAX`.
pub open spec fn candidate_width(text: Seq<char>, padding: int) -> int {
    let w = byte_len(text) + padding;
    if w > usize::MAX {
        usize::MAX as int
    } else {
        w
    }
}

/// Widest candidate, or zero when there are none.
pub open spec fn max_candidate_width(values: Seq<(Span, Seq<char>)>, padding: int) -> int
    decreases values.len(),
{
    if values.len() == 0 {
        0
    } else {
        let rest = max_candidate_width(values.drop_last(), padding);
        let w = candidate_width(values.last().1, padding);
        if w > rest {
            w
        } else {
            rest
        }
    }
}

/// Column width before the candidates are looked at: the configured one, or
/// the screen split evenly over the configured column count.
pub open spec fn base_width(fixed: Option<int>, default_columns: int, screen_width: int) -> int {
    match fixed {
        Some(w) => w,
        None => screen_width / default_columns,
    }
}

/// Columns of `width` that fit on the screen; a zero width counts as one.
pub open spec fn possible_columns(screen_width: int, width: int) -> int {
    if width >= 1 {
        screen_width / width
    } else {
        screen_width
    }
}

/// Working column count: the columns that fit, capped at the configured count.
pub open spec fn fitted_columns(possible: int, default_columns: int) -> int {
    if possible > default_columns {
        default_columns
    } else {
        possible
    }
}

} // verus!
