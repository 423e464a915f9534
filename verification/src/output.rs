//! What a command prints.
use crate::json::{Json, JsonView};
use crate::text;
use vstd::prelude::*;
use vstd::string::StringExecFns;

verus! {

/// What a command prints: for a person, and as JSON for a program.
#[derive(Debug, PartialEq, Eq)]
pub enum CommandOutput {
    /// A message.
    Message(String),
    /// A value, with the text that shows it to a person.
    Data { json: Json, human: String },
    /// A payload that goes to standard output unchanged, with a note beside it.
    Content { stdout: String, json: Json, note: Option<String> },
    /// A list, one line an item, with a summary.
    List { items: Json, human_lines: Vec<String>, summary: String },
    /// A snapshot of the page's interactive elements, with further fields.
    Dom { snapshot: Json, extra: Json },
}

/// What an output says.
pub enum OutputView {
    Message(Seq<char>),
    Data(JsonView, Seq<char>),
    Content(Seq<char>, JsonView, Option<Seq<char>>),
    List(JsonView, Seq<Seq<char>>, Seq<char>),
    Dom(JsonView, JsonView),
}

/// The model of an optional text.
pub open spec fn text_opt(t: Option<String>) -> Option<Seq<char>> {
    match t {
        Some(s) => Some(s@),
        None => None,
    }
}

impl View for CommandOutput {
    type V = OutputView;

    open spec fn view(&self) -> OutputView {
        match self {
            CommandOutput::Message(s) => OutputView::Message(s@),
            CommandOutput::Data { json, human } => OutputView::Data(json@, human@),
            CommandOutput::Content { stdout, json, note } => OutputView::Content(
                stdout@,
                json@,
                text_opt(*note),
            ),
            CommandOutput::List { items, human_lines, summary } => OutputView::List(
                items@,
                text::texts(human_lines@),
                summary@,
            ),
            CommandOutput::Dom { snapshot, extra } => OutputView::Dom(snapshot@, extra@),
        }
    }
}

/// A text with a note under it.
pub open spec fn noted(human: Seq<char>, note: Seq<char>) -> Seq<char> {
    if human.len() == 0 {
        human + note
    } else {
        human.push('\n') + note
    }
}

/// Puts a note under a text.
pub fn push_note(human: &mut String, note: &str)
    ensures
        final(human)@ == noted(old(human)@, note@),
{
    if !human.as_str().is_empty() {
        human.push('\n');
    }
    human.append(note);
}

/// A note stands under a text, on a line of its own, and alone where there is no text.
pub proof fn law_notes_stand_under_the_text(human: &mut String, note: &str)
    requires
        call_ensures(push_note, (human, note), ()),
    ensures
        old(human)@.len() == 0 ==> final(human)@ == note@,
        old(human)@.len() > 0 ==> final(human)@ == old(human)@ + seq!['\n'] + note@,
{
    if old(human)@.len() > 0 {
        assert(old(human)@.push('\n') =~= old(human)@ + seq!['\n']);
    } else {
        assert(old(human)@ + note@ =~= note@);
    }
}

} // verus!
