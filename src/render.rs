use crate::layout::byte_len;
use crate::menu::MenuView;
use crate::style::ansi_reset;
use crate::text::upper_of;
use vstd::prelude::*;

verus! {

/// `k` spaces, or none when `k` is not positive.
pub open spec fn spaces(k: int) -> Seq<char> {
    Seq::new(if k > 0 { k as nat } else { 0 }, |i: int| ' ')
}

/// Row terminator after a cell in `column` of a grid of `cols` columns.
pub open spec fn line_end(cols: int, column: int) -> Seq<char> {
    if column == cols - 1 {
        seq!['\r', '\n']
    } else {
        seq![]
    }
}

/// Message shown in place of an empty grid.
pub open spec fn no_records() -> Seq<char> {
    "NO RECORDS FOUND"@
}

/// Text shown for a candidate without styling: the selected one upper-cased
/// behind a marker.
pub open spec fn plain_text(text: Seq<char>, is_selected: bool) -> Seq<char> {
    if is_selected {
        seq!['>'] + upper_of(text)
    } else {
        text
    }
}

impl MenuView {
    /// Rendering of candidate `i`; `selected` and `plain` are the style
    /// prefixes of the selected and the other cells.
    pub open spec fn cell(
        self,
        i: int,
        use_styling: bool,
        selected: Seq<char>,
        plain: Seq<char>,
    ) -> Seq<char> {
        let text = self.values[i].1;
        let end = line_end(self.cols(), i % self.cols());
        if use_styling {
            (if i == self.index() {
                selected
            } else {
                plain
            }) + text + ansi_reset() + spaces(self.width - byte_len(text)) + end
        } else {
            let shown = plain_text(text, i == self.index());
            shown + spaces(self.width - shown.len()) + end
        }
    }

    /// Renderings of candidates `lo..hi`, in order.
    pub open spec fn cells(
        self,
        lo: int,
        hi: int,
        use_styling: bool,
        selected: Seq<char>,
        plain: Seq<char>,
    ) -> Seq<char>
        decreases hi - lo,
    {
        if hi <= lo {
            seq![]
        } else {
            self.cells(lo, hi - 1, use_styling, selected, plain) + self.cell(
                hi - 1,
                use_styling,
                selected,
                plain,
            )
        }
    }

    /// Candidates skipped so that the cursor's row is among the first
    /// `available` rows shown.
    pub open spec fn skipped(self, available: int) -> int {
        if self.row >= available {
            (self.row - available + 1) * self.cols()
        } else {
            0
        }
    }

    /// First candidate shown.
    pub open spec fn window_start(self, available: int) -> int {
        let s = self.skipped(available);
        if s < self.len() {
            s
        } else {
            self.len()
        }
    }

    /// End of the candidates shown: at most `available` full rows.
    pub open spec fn window_end(self, available: int) -> int {
        let e = self.skipped(available) + available * self.cols();
        if e < self.len() {
            e
        } else {
            self.len()
        }
    }

    /// The menu as shown in `available` rows.
    pub open spec fn rendered(
        self,
        available: int,
        use_styling: bool,
        selected: Seq<char>,
        plain: Seq<char>,
    ) -> Seq<char> {
        if self.len() == 0 {
            if use_styling {
                selected + no_records() + ansi_reset()
            } else {
                no_records()
            }
        } else {
            self.cells(
                self.window_start(available),
                self.window_end(available),
                use_styling,
                selected,
                plain,
            )
        }
    }
}

} // verus!
