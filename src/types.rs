use vstd::prelude::*;

verus! {

/// Half-open byte range `[start, end)` of the edited text that a candidate
/// replaces when it is accepted.
#[derive(Clone, Copy, Debug, PartialEq, Eq, Structural)]
pub struct Span {
    pub start: usize,
    pub end: usize,
}

impl Span {
    pub fn new(start: usize, end: usize) -> (r: Span)
        ensures
            r.start == start,
            r.end == end,
    {
        Span { start, end }
    }
}

/// Input delivered to the menu; at most one is pending at a time.
#[derive(Clone, Copy, Debug, PartialEq, Eq, Structural)]
pub enum MenuEvent {
    /// Open the menu; `true` when the candidates are already up to date.
    Activate(bool),
    Deactivate,
    /// The edited text changed; `true` when the candidates are already up to date.
    Edit(bool),
    NextElement,
    PreviousElement,
    MoveUp,
    MoveDown,
    MoveLeft,
    MoveRight,
    NextPage,
    PreviousPage,
}

/// The change that accepting the selected candidate makes to the edited
/// text: `span` is replaced by `text`, and the insertion point moves to
/// `new_offset`.
#[derive(Debug, PartialEq, Eq)]
pub struct BufferEdit {
    pub span: Span,
    pub text: String,
    pub new_offset: usize,
}

/// The candidates of `values`, with texts as character sequences.
pub open spec fn values_view(values: Seq<(Span, String)>) -> Seq<(Span, Seq<char>)> {
    values.map_values(|p: (Span, String)| (p.0, p.1@))
}

/// Source of completion candidates for a line and a cursor offset in it,
/// implemented by the menu's users.
pub trait Completer {
    /// Whether `candidates` is an answer this completer may give for `line`
    /// with the cursor at `pos`; an implementation that promises nothing
    /// keeps the default.
    open spec fn completes(
        &self,
        line: Seq<char>,
        pos: int,
        candidates: Seq<(Span, Seq<char>)>,
    ) -> bool {
        true
    }

    fn complete(&self, line: &str, pos: usize) -> (r: Vec<(Span, String)>)
        ensures
            self.completes(line@, pos as int, values_view(r@)),
    ;
}

} // verus!
