//! What one screen of the viewer holds, as a list of terminal operations and
//! lines that the caller writes out in order and then flushes.

use vstd::prelude::*;
use crate::text::{status_line, status_spec, upper_of};
use crate::viewer::{DocModel, PoemViewer};

verus! {

/// One step of drawing a screen.
#[derive(Debug, PartialEq, Eq)]
pub enum Piece {
    /// Clear the visible screen.
    ClearScreen,
    /// Clear the scroll-back buffer.
    ClearScrollback,
    /// Put the cursor at the top-left corner.
    MoveHome,
    /// Switch to the colour of document text.
    BodyColor,
    /// Switch to the muted colour of the footer.
    MutedColor,
    /// Go back to the terminal's own colour.
    ResetColor,
    /// Write the text, then a line break.
    Line(String),
}

/// A [`Piece`] with its text as characters.
pub enum PieceModel {
    ClearScreen,
    ClearScrollback,
    MoveHome,
    BodyColor,
    MutedColor,
    ResetColor,
    Line(Seq<char>),
}

impl View for Piece {
    type V = PieceModel;

    open spec fn view(&self) -> PieceModel {
        match self {
            Piece::ClearScreen => PieceModel::ClearScreen,
            Piece::ClearScrollback => PieceModel::ClearScrollback,
            Piece::MoveHome => PieceModel::MoveHome,
            Piece::BodyColor => PieceModel::BodyColor,
            Piece::MutedColor => PieceModel::MutedColor,
            Piece::ResetColor => PieceModel::ResetColor,
            Piece::Line(s) => PieceModel::Line(s@),
        }
    }
}

/// The message shown when there is nothing to show.
pub open spec fn empty_message() -> Seq<char> {
    "No poems found in ./poems directory"@
}

/// The horizontal rule above and below the footer.
pub open spec fn rule() -> Seq<char> {
    "======================================="@
}

/// The line that explains the keys.
pub open spec fn help_line() -> Seq<char> {
    " ← → Switch poems | Q to quit"@
}

/// The whole screen for `docs` with the cursor at `i`: a cleared screen,
/// then either the empty message alone or the document's text in the body
/// colour, a blank line and the muted footer with the status line.
pub open spec fn frame_spec(docs: Seq<DocModel>, i: nat) -> Seq<PieceModel> {
    let head = seq![PieceModel::ClearScreen, PieceModel::ClearScrollback, PieceModel::MoveHome];
    if docs.len() == 0 {
        head.push(PieceModel::Line(empty_message()))
    } else {
        head + seq![
            PieceModel::BodyColor,
            PieceModel::Line(docs[i as int].1),
            PieceModel::ResetColor,
            PieceModel::Line(Seq::empty()),
            PieceModel::MutedColor,
            PieceModel::Line(rule()),
            PieceModel::Line(help_line()),
            PieceModel::Line(status_spec(upper_of(docs[i as int].0), i + 1, docs.len())),
            PieceModel::Line(rule()),
            PieceModel::ResetColor,
        ]
    }
}

impl PoemViewer {
    /// The screen for the current state.
    pub fn render(&self) -> (r: Vec<Piece>)
        requires
            self.wf(),
        ensures
            r@.map_values(|p: Piece| p@) == frame_spec(self.docs(), self.cursor()),
    {
        let mut r: Vec<Piece> = Vec::new();
        r.push(Piece::ClearScreen);
        r.push(Piece::ClearScrollback);
        r.push(Piece::MoveHome);
        if self.is_empty() {
            r.push(Piece::Line(String::from_str("No poems found in ./poems directory")));
        } else {
            let i = self.current_index();
            let n = self.len();
            r.push(Piece::BodyColor);
            r.push(Piece::Line(String::from_str(self.content(i))));
            r.push(Piece::ResetColor);
            r.push(Piece::Line(String::new()));
            r.push(Piece::MutedColor);
            r.push(Piece::Line(String::from_str("=======================================")));
            r.push(Piece::Line(String::from_str(" ← → Switch poems | Q to quit")));
            r.push(Piece::Line(status_line(self.title(i), i, n)));
            r.push(Piece::Line(String::from_str("=======================================")));
            r.push(Piece::ResetColor);
        }
        assert(r@.map_values(|p: Piece| p@) =~= frame_spec(self.docs(), self.cursor()));
        r
    }
}

} // verus!
