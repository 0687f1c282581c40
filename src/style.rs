use vstd::prelude::*;
use vstd::string::*;
use ansi_term::Colour;
use crate::enviroment::{FunctionType, Value};
use crate::misc::NekoError;
use crate::number::NumberSystem;

verus! {

/// The colours that output uses.
#[derive(Debug, Clone, Copy, PartialEq, Eq, Structural)]
pub enum Hue {
    Red,
    Green,
    Yellow,
    /// The dim grey of `none` and of hints.
    Grey,
}

/// The SGR parameters that select a hue as the foreground colour.
pub open spec fn hue_code(h: Hue) -> Seq<char> {
    match h {
        Hue::Red => "31"@,
        Hue::Green => "32"@,
        Hue::Yellow => "33"@,
        Hue::Grey => "38;2;128;127;113"@,
    }
}

/// `text` between the escape sequence that selects `h` and the one that resets.
pub open spec fn painted(h: Hue, text: Seq<char>) -> Seq<char> {
    "\x1B["@ + hue_code(h) + "m"@ + text + "\x1B[0m"@
}

/// Relies on ansi_term's `Colour::paint` with the `Display` of the painted string: a
/// foreground-only style writes `ESC[<code>m`, the text, then `ESC[0m`.
#[verifier::external_body]
pub(crate) fn paint(h: Hue, text: &str) -> (r: String)
    ensures
        r@ == painted(h, text@),
{
    let colour = match h {
        Hue::Red => Colour::Red,
        Hue::Green => Colour::Green,
        Hue::Yellow => Colour::Yellow,
        Hue::Grey => Colour::RGB(128, 127, 113),
    };
    colour.paint(text).to_string()
}

/// What std's `Debug` writes for a string: the text in double quotes, with escapes.
pub uninterp spec fn debug_quoted(s: Seq<char>) -> Seq<char>;

/// Relies on `<str as Debug>::fmt`: the string quoted and escaped as Rust source would.
#[verifier::external_body]
fn quoted(s: &str) -> (r: String)
    ensures
        r@ == debug_quoted(s@),
{
    format!("{:?}", s)
}

/// The text the REPL shows for `v`, given `t`, the host's text for a number: numbers and
/// booleans yellow, strings quoted and green, functions green, `none` grey.
pub open spec fn colored_spec(v: Value, t: Seq<char>) -> Seq<char> {
    match v {
        Value::Number(_) => painted(Hue::Yellow, t),
        Value::Boolean(_) => painted(Hue::Yellow, crate::interpreter::text_of(v)),
        Value::String(s) => painted(Hue::Green, debug_quoted(s@)),
        Value::Function(..) => painted(Hue::Green, crate::interpreter::text_of(v)),
        Value::NoValue => painted(Hue::Grey, "none"@),
    }
}

/// `r` is the coloured text of `v` for some text of the host's number.
pub open spec fn is_colored(v: Value, r: Seq<char>) -> bool {
    exists|t: Seq<char>| r == colored_spec(v, t)
}

/// Texts joined by single spaces.
pub open spec fn joined(parts: Seq<Seq<char>>) -> Seq<char>
    decreases parts.len(),
{
    if parts.len() == 0 {
        Seq::empty()
    } else if parts.len() == 1 {
        parts[0]
    } else {
        joined(parts.drop_last()) + " "@ + parts.last()
    }
}

/// A value as the REPL shows it.
pub fn colored_output<N: NumberSystem>(val: &Value, numbers: &N) -> (r: String)
    ensures
        is_colored(*val, r@),
        !(val is Number) ==> r@ == colored_spec(*val, Seq::empty()),
{
    let text = val.stringify(numbers);
    let r = match val {
        Value::Number(_) | Value::Boolean(_) => paint(Hue::Yellow, text.as_str()),
        Value::String(s) => paint(Hue::Green, quoted(s.as_str()).as_str()),
        Value::Function(..) => paint(Hue::Green, text.as_str()),
        Value::NoValue => paint(Hue::Grey, "none"),
    };
    assert(r@ == colored_spec(*val, text@));
    r
}

/// The line that `print` writes for its arguments: each coloured, separated by spaces.
pub fn print_line<N: NumberSystem>(args: &Vec<Value>, numbers: &N) -> (r: String)
    ensures
        exists|parts: Seq<Seq<char>>| parts.len() == args@.len()
            && (forall|i: int| 0 <= i < parts.len() ==> is_colored(args@[i], #[trigger] parts[i]))
            && r@ == joined(parts),
{
    let mut line = String::new();
    let ghost mut parts: Seq<Seq<char>> = Seq::empty();
    let mut k: usize = 0;
    while k < args.len()
        invariant
            k <= args@.len(),
            parts.len() == k,
            forall|i: int| 0 <= i < parts.len() ==> is_colored(args@[i], #[trigger] parts[i]),
            line@ == joined(parts),
        decreases args@.len() - k,
    {
        let piece = colored_output(&args[k], numbers);
        let ghost before = parts;
        if k > 0 {
            line.append(" ");
        }
        line.append(piece.as_str());
        proof {
            parts = parts.push(piece@);
            assert(parts.drop_last() =~= before);
            if k == 0 {
                assert(line@ =~= joined(parts));
            }
        }
        k = k + 1;
    }
    line
}

/// The line the REPL shows for an input's value: nothing for `none`.
pub fn result_line<N: NumberSystem>(val: &Value, numbers: &N) -> (r: Option<String>)
    ensures
        val is NoValue <==> r is None,
        r is Some ==> is_colored(*val, r->Some_0@),
        r is Some && !(val is Number) ==> r->Some_0@ == colored_spec(*val, Seq::empty()),
{
    match val {
        Value::NoValue => None,
        _ => Some(colored_output(val, numbers)),
    }
}

impl NekoError {
    /// The error as shown to the user: `[Kind]: message`, the kind in red.
    pub fn colored_text(&self) -> (r: String)
        ensures
            r@ == "["@ + painted(Hue::Red, crate::misc::kind_text(*self)) + "]: "@ + crate::misc::message_of(*self),
    {
        let mut text = String::from_str("[");
        text.append(paint(Hue::Red, self.kind_name().as_str()).as_str());
        text.append("]: ");
        text.append(self.message().as_str());
        text
    }
}

} // verus!
