use vstd::prelude::*;
use vstd::string::*;
use crate::lexer::{chars_of, spells, string_end, string_of};

verus! {

/// What a line typed at the prompt asks for.
#[derive(Debug, Clone, PartialEq)]
pub enum Command {
    /// `.editor`: switch to multi-line editing.
    Editor,
    /// `.help`: show the meta-commands.
    Help,
    /// `.exit`: leave.
    Exit,
    /// `.load PATH`: evaluate a file's contents; the path, if one was given.
    Load(Option<String>),
    /// `.save PATH`: write the session's inputs to a file; the path, if one was given.
    Save(Option<String>),
    /// Anything else is source text to evaluate.
    Evaluate,
}

/// The model of a command, with its path as characters.
pub enum CommandV {
    Editor,
    Help,
    Exit,
    Load(Option<Seq<char>>),
    Save(Option<Seq<char>>),
    Evaluate,
}

impl View for Command {
    type V = CommandV;

    open spec fn view(&self) -> CommandV {
        match self {
            Command::Editor => CommandV::Editor,
            Command::Help => CommandV::Help,
            Command::Exit => CommandV::Exit,
            Command::Load(p) => CommandV::Load(match p { Some(p) => Some(p@), None => None }),
            Command::Save(p) => CommandV::Save(match p { Some(p) => Some(p@), None => None }),
            Command::Evaluate => CommandV::Evaluate,
        }
    }
}

/// The second space-separated piece of a line, if the line has a space.
pub open spec fn argument_of(s: Seq<char>) -> Option<Seq<char>> {
    let e = string_end(s, 0, ' ');
    if e < s.len() {
        Some(s.subrange(e + 1, string_end(s, e + 1, ' ')))
    } else {
        None
    }
}

/// The command of a line: the whole line for `.editor`, `.help` and `.exit`; its first
/// space-separated piece for `.load` and `.save`, whose second piece is the path.
pub open spec fn command_view(s: Seq<char>) -> CommandV {
    let head = s.subrange(0, string_end(s, 0, ' '));
    if s == ".editor"@ {
        CommandV::Editor
    } else if s == ".help"@ {
        CommandV::Help
    } else if s == ".exit"@ {
        CommandV::Exit
    } else if head == ".load"@ {
        CommandV::Load(argument_of(s))
    } else if head == ".save"@ {
        CommandV::Save(argument_of(s))
    } else {
        CommandV::Evaluate
    }
}

fn find_char(v: &Vec<char>, start: usize, c: char) -> (r: usize)
    requires
        start <= v@.len(),
    ensures
        r == string_end(v@, start as int, c),
        start <= r <= v@.len(),
{
    let mut k = start;
    while k < v.len() && v[k] != c
        invariant
            start <= k <= v@.len(),
            string_end(v@, start as int, c) == string_end(v@, k as int, c),
        decreases v@.len() - k,
    {
        k = k + 1;
    }
    k
}

fn literal_chars(text: &str) -> (r: Vec<char>)
    ensures
        r@ == text@,
{
    chars_of(text)
}

/// Classifies a line typed at the prompt.
pub fn command_of(line: &str) -> (r: Command)
    ensures
        r@ == command_view(line@),
{
    let v = chars_of(line);
    let n = v.len();
    let e = find_char(&v, 0, ' ');
    let argument = if e < n {
        let end = find_char(&v, e + 1, ' ');
        Some(string_of(&v, e + 1, end))
    } else {
        None
    };
    assert(v@.subrange(0, n as int) =~= v@);
    if spells(&v, 0, n, &literal_chars(".editor")) {
        Command::Editor
    } else if spells(&v, 0, n, &literal_chars(".help")) {
        Command::Help
    } else if spells(&v, 0, n, &literal_chars(".exit")) {
        Command::Exit
    } else if spells(&v, 0, e, &literal_chars(".load")) {
        Command::Load(argument)
    } else if spells(&v, 0, e, &literal_chars(".save")) {
        Command::Save(argument)
    } else {
        Command::Evaluate
    }
}

/// The state of a REPL session: whether multi-line editing is on, and the inputs that
/// evaluated without error.
#[derive(Debug, Clone)]
pub struct Session {
    pub editor_enabled: bool,
    pub session_history: Vec<String>,
}

impl Session {
    pub fn new() -> (r: Self)
        ensures
            !r.editor_enabled,
            r.session_history@.len() == 0,
    {
        Session { editor_enabled: false, session_history: Vec::new() }
    }

    /// Records an input that evaluated without error.
    pub fn add_history(&mut self, line: &str)
        ensures
            final(self).editor_enabled == old(self).editor_enabled,
            final(self).session_history@.len() == old(self).session_history@.len() + 1,
            final(self).session_history@.last()@ == line@,
            final(self).session_history@.drop_last() == old(self).session_history@,
    {
        let ghost before = self.session_history@;
        self.session_history.push(String::from_str(line));
        proof {
            assert(self.session_history@.drop_last() =~= before);
        }
    }

    pub fn enable_editor(&mut self)
        ensures
            final(self).editor_enabled,
            final(self).session_history == old(self).session_history,
    {
        self.editor_enabled = true;
    }

    pub fn disable_editor(&mut self)
        ensures
            !final(self).editor_enabled,
            final(self).session_history == old(self).session_history,
    {
        self.editor_enabled = false;
    }

    pub fn toggle_editor(&mut self)
        ensures
            final(self).editor_enabled == !old(self).editor_enabled,
            final(self).session_history == old(self).session_history,
    {
        self.editor_enabled = !self.editor_enabled;
    }
}

} // verus!
