//! The ways in which building a command line can be refused.

use crate::text::owned;
use vstd::prelude::*;

verus! {

/// Why a command line could not be built.
#[derive(Debug, PartialEq, Eq)]
pub enum MenuError {
    /// A row that is not selectable (`NoDim` or `Seperate`) was asked for a command.
    NotAMenu,
    /// An argument held a nul character, which no shell quoting can carry.
    ShellQuote,
    /// A pane size that is neither a `u16` nor a `u16` followed by `%`.
    InvalidPaneSize(String),
    /// A pane percentage outside `1..=100`.
    PanePercentOutOfRange(String),
    /// A pane size of zero cells.
    PaneSizeZero(String),
    /// A pane position without a width.
    PaneWidthRequired,
    /// A pane position without a height.
    PaneHeightRequired,
    /// A menu row index past the last row.
    IndexOutOfRange(usize),
    /// The answers to a popup's inputs are not a YAML map of strings; what
    /// the YAML reader said.
    AnswersUnreadable(String),
    /// The typed answers could not be written as YAML; what the YAML writer
    /// said.
    AnswersUnwritable(String),
}

/// A [`MenuError`] with its sizes as character sequences.
pub enum MenuErrorView {
    NotAMenu,
    ShellQuote,
    InvalidPaneSize(Seq<char>),
    PanePercentOutOfRange(Seq<char>),
    PaneSizeZero(Seq<char>),
    PaneWidthRequired,
    PaneHeightRequired,
    IndexOutOfRange(usize),
    AnswersUnreadable(Seq<char>),
    AnswersUnwritable(Seq<char>),
}

impl View for MenuError {
    type V = MenuErrorView;

    open spec fn view(&self) -> MenuErrorView {
        match self {
            MenuError::NotAMenu => MenuErrorView::NotAMenu,
            MenuError::ShellQuote => MenuErrorView::ShellQuote,
            MenuError::InvalidPaneSize(size) => MenuErrorView::InvalidPaneSize(size@),
            MenuError::PanePercentOutOfRange(size) => MenuErrorView::PanePercentOutOfRange(size@),
            MenuError::PaneSizeZero(size) => MenuErrorView::PaneSizeZero(size@),
            MenuError::PaneWidthRequired => MenuErrorView::PaneWidthRequired,
            MenuError::PaneHeightRequired => MenuErrorView::PaneHeightRequired,
            MenuError::IndexOutOfRange(index) => MenuErrorView::IndexOutOfRange(*index),
            MenuError::AnswersUnreadable(reason) => MenuErrorView::AnswersUnreadable(reason@),
            MenuError::AnswersUnwritable(reason) => MenuErrorView::AnswersUnwritable(reason@),
        }
    }
}

/// A result that carries a string, by views.
pub open spec fn text_result(r: Result<String, MenuError>) -> Result<Seq<char>, MenuErrorView> {
    match r {
        Ok(s) => Ok(s@),
        Err(e) => Err(e@),
    }
}

/// A result that carries a list of strings, by views.
pub open spec fn list_result(r: Result<Vec<String>, MenuError>) -> Result<Seq<Seq<char>>, MenuErrorView> {
    match r {
        Ok(v) => Ok(crate::text::views(v@)),
        Err(e) => Err(e@),
    }
}

/// The message that goes with each refusal.
pub open spec fn message_of(e: MenuErrorView) -> Seq<char> {
    match e {
        MenuErrorView::NotAMenu => "This menu type should be menu"@,
        MenuErrorView::ShellQuote => "failed to quote shell argument: Nul"@,
        MenuErrorView::InvalidPaneSize(size) => "invalid pane size: "@ + size,
        MenuErrorView::PanePercentOutOfRange(size) => "pane percentage must be between 1 and 100: "@
            + size,
        MenuErrorView::PaneSizeZero(size) => "pane size must be greater than zero: "@ + size,
        MenuErrorView::PaneWidthRequired => "pane width is required"@,
        MenuErrorView::PaneHeightRequired => "pane height is required"@,
        MenuErrorView::IndexOutOfRange(index) => "Menu item index out of range: "@
            + crate::number::decimal(index as nat),
        MenuErrorView::AnswersUnreadable(reason) => reason,
        MenuErrorView::AnswersUnwritable(reason) => reason,
    }
}

impl MenuError {
    /// The message for this refusal.
    pub fn message(&self) -> (r: String)
        ensures
            r@ == message_of(self@),
    {
        match self {
            MenuError::NotAMenu => owned("This menu type should be menu"),
            MenuError::ShellQuote => owned("failed to quote shell argument: Nul"),
            MenuError::InvalidPaneSize(size) => {
                let mut r = owned("invalid pane size: ");
                r.append(size.as_str());
                r
            },
            MenuError::PanePercentOutOfRange(size) => {
                let mut r = owned("pane percentage must be between 1 and 100: ");
                r.append(size.as_str());
                r
            },
            MenuError::PaneSizeZero(size) => {
                let mut r = owned("pane size must be greater than zero: ");
                r.append(size.as_str());
                r
            },
            MenuError::PaneWidthRequired => owned("pane width is required"),
            MenuError::PaneHeightRequired => owned("pane height is required"),
            MenuError::IndexOutOfRange(index) => {
                let mut r = owned("Menu item index out of range: ");
                crate::number::push_decimal(&mut r, *index as u64);
                r
            },
            MenuError::AnswersUnreadable(reason) => reason.clone(),
            MenuError::AnswersUnwritable(reason) => reason.clone(),
        }
    }
}

} // verus!
