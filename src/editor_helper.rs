use vstd::prelude::*;
use vstd::string::*;
use crate::interpreter::Interpreter;
use crate::interpreter_option::InterpreterOptions;
use crate::lexer::{chars_of, string_of, trimmed, trimmed_chars};
use crate::number::NumberSystem;

verus! {

/// A hint shown after the cursor: `display` is shown dimmed, and its first
/// `complete_up_to` characters can be accepted as a completion.
#[derive(Debug, Clone, PartialEq)]
pub struct OutputHint {
    pub display: String,
    pub complete_up_to: usize,
}

impl OutputHint {
    /// A hint showing `text`, of which the prefix `complete_up_to` completes the line.
    pub fn new(text: &str, complete_up_to: &str) -> (r: Self)
        requires
            complete_up_to@.len() <= text@.len(),
            text@.subrange(0, complete_up_to@.len() as int) == complete_up_to@,
        ensures
            r.display@ == text@,
            r.complete_up_to == complete_up_to@.len(),
    {
        let n = complete_up_to.unicode_len();
        OutputHint { display: String::from_str(text), complete_up_to: n }
    }

    /// What accepting the hint inserts: its completable prefix, if that is not empty.
    pub fn completion(&self) -> (r: Option<String>)
        requires
            self.complete_up_to <= self.display@.len(),
        ensures
            self.complete_up_to == 0 ==> r is None,
            self.complete_up_to > 0 ==> r is Some && r->Some_0@ == self.display@.subrange(0, self.complete_up_to as int),
    {
        if self.complete_up_to > 0 {
            let chars = chars_of(self.display.as_str());
            Some(string_of(&chars, 0, self.complete_up_to))
        } else {
            None
        }
    }

    /// The hint for a line: the history's suggestion `history`, followed on a line of its own by
    /// the preview of the line's value when there is one.
    pub fn for_line(history: &str, preview: Option<String>) -> (r: Self)
        ensures
            r.complete_up_to == history@.len(),
            preview is None ==> r.display@ == history@,
            preview is Some ==> r.display@ == history@ + "\n"@ + preview->Some_0@,
    {
        let n = history.unicode_len();
        match preview {
            None => OutputHint { display: String::from_str(history), complete_up_to: n },
            Some(value) => {
                let mut display = String::from_str(history);
                display.append("\n");
                display.append(value.as_str());
                OutputHint { display, complete_up_to: n }
            },
        }
    }
}

/// The value that `line` would produce, evaluated without calls and without declarations, as
/// text; `None` for a blank line or an error. The interpreter's global bindings and global
/// names are left as they were.
pub fn preview<N: NumberSystem>(interpreter: &mut Interpreter<N>, line: &str) -> (r: Option<String>)
    requires
        old(interpreter).wf(),
    ensures
        final(interpreter).wf(),
        trimmed(line@).len() == 0 ==> r is None,
        forall|m: Seq<char>| #[trigger] final(interpreter).global(m) == old(interpreter).global(m),
        forall|m: Seq<char>| #[trigger] final(interpreter).global_symbol(m) == old(interpreter).global_symbol(m),
        trimmed(line@).len() > 0 ==> exists|res: crate::interpreter::IResult|
            #[trigger] Interpreter::<N>::interprets(*old(interpreter), line@, crate::interpreter_option::preview_options(), *final(interpreter), res)
            && (r is Some <==> res is Ok)
            && (res is Ok && !(res->Ok_0 is Number) ==> r->Some_0@ == crate::interpreter::text_of(res->Ok_0)),
{
    if trimmed_chars(line).len() == 0 {
        return None;
    }
    let result = interpreter.interpret_with_option(line, &InterpreterOptions::all());
    match result {
        Ok(value) => Some(value.stringify(interpreter.numbers())),
        Err(_) => None,
    }
}

} // verus!
