//! What the handling of one line of tool output asks to be printed.
use vstd::prelude::*;

verus! {

/// The output that one line of a tool's output turns into.
#[derive(Debug, PartialEq, Eq)]
pub enum Emit {
    /// Nothing is printed.
    Nothing,
    /// A line printed above the status bar.
    BarLine(String),
    /// A status line: a verb and a description.
    Status(String, String),
    /// A line written straight to standard error.
    Direct(String),
    /// The status bar moves to a position and shows a message.
    Progress(usize, String),
}

/// `Emit` with its strings as character sequences.
pub enum EmitView {
    Nothing,
    BarLine(Seq<char>),
    Status(Seq<char>, Seq<char>),
    Direct(Seq<char>),
    Progress(usize, Seq<char>),
}

impl View for Emit {
    type V = EmitView;

    open spec fn view(&self) -> EmitView {
        match self {
            Emit::Nothing => EmitView::Nothing,
            Emit::BarLine(s) => EmitView::BarLine(s@),
            Emit::Status(v, d) => EmitView::Status(v@, d@),
            Emit::Direct(s) => EmitView::Direct(s@),
            Emit::Progress(n, m) => EmitView::Progress(*n, m@),
        }
    }
}

} // verus!
