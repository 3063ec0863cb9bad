//! The errors a build can surface.
//!
//! Every failure is fatal to the whole build and is reported to the caller
//! as a typed value; nothing is retried and no partial task set is ever
//! returned.

use vstd::prelude::*;

verus! {

/// A fault in one task entry, or in the resolution of its references.
#[derive(Debug)]
pub enum YamlTaskError {
    /// The document has no dictionary under the recognized root key.
    StartWordError,
    /// An entry's key is not a string scalar.
    IllegalKey,
    /// Two entries carry the same document identifier.
    DuplicateId(String),
    /// The entry (named by its document identifier) has no `name` field.
    NoNameAttr(String),
    /// The entry's `after` list (named by its document identifier) holds an
    /// element that is not a string scalar.
    IllegalAfterList(String),
    /// The entry (named by its task name) has neither a `cmd` field nor a
    /// supplied override action.
    NoScriptAttr(String),
    /// A task (named by its task name) lists a precursor that no entry of
    /// the document declares.
    NotFoundPrecursor(String),
}

/// The mathematical value of a [`YamlTaskError`].
#[verifier::ext_equal]
pub enum TaskErrorView {
    StartWordError,
    IllegalKey,
    DuplicateId(Seq<char>),
    NoNameAttr(Seq<char>),
    IllegalAfterList(Seq<char>),
    NoScriptAttr(Seq<char>),
    NotFoundPrecursor(Seq<char>),
}

impl View for YamlTaskError {
    type V = TaskErrorView;

    open spec fn view(&self) -> TaskErrorView {
        match self {
            YamlTaskError::StartWordError => TaskErrorView::StartWordError,
            YamlTaskError::IllegalKey => TaskErrorView::IllegalKey,
            YamlTaskError::DuplicateId(s) => TaskErrorView::DuplicateId(s@),
            YamlTaskError::NoNameAttr(s) => TaskErrorView::NoNameAttr(s@),
            YamlTaskError::IllegalAfterList(s) => TaskErrorView::IllegalAfterList(s@),
            YamlTaskError::NoScriptAttr(s) => TaskErrorView::NoScriptAttr(s@),
            YamlTaskError::NotFoundPrecursor(s) => TaskErrorView::NotFoundPrecursor(s@),
        }
    }
}

/// A fault in the document text as a whole.
#[derive(Debug)]
pub enum FileContentError {
    /// The deserializer refused the text; the payload is its message.
    IllegalYamlContent(String),
    /// The document holds no task entry at all.
    Empty,
}

/// The mathematical value of a [`FileContentError`].
#[verifier::ext_equal]
pub enum ContentErrorView {
    IllegalYamlContent(Seq<char>),
    Empty,
}

impl View for FileContentError {
    type V = ContentErrorView;

    open spec fn view(&self) -> ContentErrorView {
        match self {
            FileContentError::IllegalYamlContent(s) => ContentErrorView::IllegalYamlContent(s@),
            FileContentError::Empty => ContentErrorView::Empty,
        }
    }
}

/// Any error a build surfaces to its caller.
#[derive(Debug)]
pub enum ParseError {
    /// The document text could not be read as a document.
    Content(FileContentError),
    /// One entry, or the reference resolution, is at fault.
    Task(YamlTaskError),
    /// The numeric identifier space cannot hold one more task per entry.
    IdSpaceExhausted,
}

/// The mathematical value of a [`ParseError`].
#[verifier::ext_equal]
pub enum ParseErrorView {
    Content(ContentErrorView),
    Task(TaskErrorView),
    IdSpaceExhausted,
}

impl View for ParseError {
    type V = ParseErrorView;

    open spec fn view(&self) -> ParseErrorView {
        match self {
            ParseError::Content(e) => ParseErrorView::Content(e@),
            ParseError::Task(e) => ParseErrorView::Task(e@),
            ParseError::IdSpaceExhausted => ParseErrorView::IdSpaceExhausted,
        }
    }
}

} // verus!
