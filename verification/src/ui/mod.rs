//! The palette's modal screens, described as plain values. The terminal
//! front end and the headless test driver (both outside this library) show
//! them and report what the user did.

use vstd::prelude::*;

use crate::fatal::Fatal;

pub mod headless;
pub mod tui;

verus! {

#[derive(Debug)]
pub struct Row {
    /// Hidden key: catalog id, `plugin:<qid>`, `user:<id>`, `prompt:<id>`,
    /// or the literal choice on the confirm screen.
    pub id: String,
    /// What the picker displays and fuzzy-matches on.
    pub label: String,
    /// Keybinding hint, right-aligned and dim, display-only. Empty means none.
    pub hint: String,
}

#[verifier::ext_equal]
pub struct RowV {
    pub id: Seq<char>,
    pub label: Seq<char>,
    pub hint: Seq<char>,
}

impl View for Row {
    type V = RowV;

    open spec fn view(&self) -> RowV {
        RowV { id: self.id@, label: self.label@, hint: self.hint@ }
    }
}

/// The views of a list of rows.
pub open spec fn row_views(rows: Seq<Row>) -> Seq<RowV> {
    rows.map_values(|r: Row| r@)
}

impl Row {
    /// A row whose id is its label (the confirm screen's `No`/`Yes`).
    pub fn plain(text: &str) -> (r: Row)
        ensures
            r@ == (RowV { id: text@, label: text@, hint: Seq::empty() }),
    {
        Row { id: text.to_owned(), label: text.to_owned(), hint: String::new() }
    }
}

pub struct PickScreen {
    pub header: String,
    pub prompt: String,
    /// Dim hint shown in place of the query while it is empty. Empty means
    /// no hint.
    pub placeholder: String,
    pub rows: Vec<Row>,
    /// The header is a warning, not a description: rendered so that it
    /// cannot be missed.
    pub warning: bool,
}

pub enum PickOutcome {
    /// The id of the chosen row.
    Selected(String),
    /// Esc/Ctrl-C, or Enter with nothing to accept.
    Cancelled,
}

/// A pick's outcome as a value: the chosen id, or `None` for a cancel.
pub open spec fn outcome_view(o: PickOutcome) -> Option<Seq<char>> {
    match o {
        PickOutcome::Selected(id) => Some(id@),
        PickOutcome::Cancelled => None,
    }
}

/// A free-text line editor.
pub struct InputScreen {
    pub header: String,
    pub prompt: String,
    /// Prefill; the user edits or replaces it.
    pub initial: String,
}

pub enum InputOutcome {
    /// The line as submitted, possibly empty.
    Submitted(String),
    /// Esc/Ctrl-C.
    Cancelled,
}

/// The modal screens a front end provides. Each call runs its own event
/// loop and returns one outcome; what the user chooses is theirs, so the
/// methods promise nothing about it. `fatal` shows a message, keeps it
/// readable, and ends the process with status 1.
pub trait Ui {
    fn pick(&mut self, screen: &PickScreen) -> Result<PickOutcome, Fatal>;

    fn input(&mut self, screen: &InputScreen) -> Result<InputOutcome, Fatal>;

    fn fatal(&mut self, message: &str);
}

} // verus!
