//! ESLint directive-comment rule logic: each rule consumes a per-file batch
//! of comments and returns the diagnostics to report.
use vstd::prelude::*;
use crate::comments::directive::CommentKind;
use crate::comments::loc::{Location, Position};
use smallvec::SmallVec;

pub mod directive;
pub mod glob;
pub mod disabled_area;
pub mod loc;
pub mod rules;
pub mod laws;

verus! {

/// An input comment for a per-file scan.
#[derive(Clone, Copy, Debug)]
pub struct Comment<'a> {
    pub kind: CommentKind,
    pub value: &'a str,
    pub loc: Location,
}

/// The characters and position of a comment.
pub struct CommentView {
    pub kind: CommentKind,
    pub value: Seq<char>,
    pub loc: Location,
}

impl<'a> View for Comment<'a> {
    type V = CommentView;

    open spec fn view(&self) -> CommentView {
        CommentView { kind: self.kind, value: self.value@, loc: self.loc }
    }
}

/// A lint problem reported elsewhere in the file, used by `no-unused-disable`
/// to decide whether a disable directive actually suppressed anything.
#[derive(Clone, Copy, Debug)]
pub struct Problem<'a> {
    /// The reporting rule, or `None` for a syntax-level problem.
    pub rule_id: Option<&'a str>,
    /// The problem's start position.
    pub position: Position,
}


/// Values interpolated into a diagnostic's message template.
#[derive(Clone, Debug, PartialEq, Eq)]
pub struct DiagnosticData {
    pub kind: Option<String>,
    pub rule_id: Option<String>,
    pub count: Option<u32>,
}

/// A diagnostic produced by a rule, mapped to `context.report` by the wrapper.
#[derive(Clone, Debug, PartialEq, Eq)]
pub struct Diagnostic {
    pub message_id: String,
    pub data: DiagnosticData,
    pub loc: Location,
}

pub struct DataView {
    pub kind: Option<Seq<char>>,
    pub rule_id: Option<Seq<char>>,
    pub count: Option<u32>,
}

pub struct DiagnosticView {
    pub message_id: Seq<char>,
    pub data: DataView,
    pub loc: Location,
}

pub open spec fn opt_chars(o: Option<String>) -> Option<Seq<char>> {
    match o {
        Some(s) => Some(s@),
        None => None,
    }
}

impl View for DiagnosticData {
    type V = DataView;

    open spec fn view(&self) -> DataView {
        DataView { kind: opt_chars(self.kind), rule_id: opt_chars(self.rule_id), count: self.count }
    }
}

impl View for Diagnostic {
    type V = DiagnosticView;

    open spec fn view(&self) -> DiagnosticView {
        DiagnosticView { message_id: self.message_id@, data: self.data@, loc: self.loc }
    }
}

/// The diagnostics of one rule for one file, in report order, held in a
/// small inline buffer.
#[verifier::external_body]
pub struct Diagnostics {
    items: SmallVec<[Diagnostic; 8]>,
}

/// The diagnostics a buffer holds, in order.
pub uninterp spec fn diagnostics_items(d: Diagnostics) -> Seq<DiagnosticView>;

/// `SmallVec::new`: an empty buffer.
#[verifier::external_body]
pub(crate) fn diagnostics_new() -> (d: Diagnostics)
    ensures
        diagnostics_items(d) == Seq::<DiagnosticView>::empty(),
{
    Diagnostics { items: SmallVec::new() }
}

/// `SmallVec::push`: appends `x` after the buffer's items.
#[verifier::external_body]
pub(crate) fn diagnostics_push(d: &mut Diagnostics, x: Diagnostic)
    ensures
        diagnostics_items(*final(d)) == diagnostics_items(*old(d)).push(x@),
{
    d.items.push(x);
}

impl Diagnostics {
    /// `SmallVec::len`: the number of diagnostics.
    #[verifier::external_body]
    pub fn len(&self) -> (r: usize)
        ensures
            r == diagnostics_items(*self).len(),
    {
        self.items.len()
    }

    /// `SmallVec::is_empty`: whether there is no diagnostic.
    #[verifier::external_body]
    pub fn is_empty(&self) -> (r: bool)
        ensures
            r == (diagnostics_items(*self).len() == 0),
    {
        self.items.is_empty()
    }

    /// `SmallVec` indexing: the diagnostic at `i`.
    #[verifier::external_body]
    pub fn get(&self, i: usize) -> (r: &Diagnostic)
        requires
            i < diagnostics_items(*self).len(),
        ensures
            r@ == diagnostics_items(*self)[i as int],
    {
        &self.items[i]
    }
}

} // verus!
