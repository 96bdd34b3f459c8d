//! The firmware build tool: the pins that a firmware description names, and
//! the description itself, which is a JSON text.

use vstd::prelude::*;
use vstd::string::StringExecFns;

verus! {

/// A pin of the controller under the name that the description gives it.
#[derive(Debug)]
pub struct Pin {
    pub name: String,
    pub pin: u32,
}

/// The lines and the controls of a firmware description.
#[derive(Debug)]
pub struct Context {
    lines: Vec<Pin>,
    controls: Vec<Pin>,
}

impl Context {
    /// The number of lines that the context holds.
    pub closed spec fn line_count(&self) -> nat {
        self.lines@.len()
    }

    /// The number of controls that the context holds.
    pub closed spec fn control_count(&self) -> nat {
        self.controls@.len()
    }

    /// A context without lines and controls.
    pub fn new() -> (context: Self)
        ensures
            context.line_count() == 0,
            context.control_count() == 0,
    {
        Self { lines: Vec::new(), controls: Vec::new() }
    }

    /// The index under which the line `pin` is known: every line is known
    /// under the index 0, and no context keeps it.
    pub fn add_line(pin: Pin) -> (index: usize)
        ensures
            index == 0,
    {
        0
    }

    /// The index under which the control `pin` is known: every control is
    /// known under the index 0, and no context keeps it.
    pub fn add_control(pin: Pin) -> (index: usize)
        ensures
            index == 0,
    {
        0
    }
}

/// How the JSON value that `text` writes reads when it is printed for
/// debugging in the pretty form; `None` where `text` writes no JSON value.
pub uninterp spec fn json_debug(text: Seq<char>) -> Option<Seq<char>>;

/// Reads `text` with `serde_json::from_str` as a `serde_json::Value` and
/// prints the value with `{:#?}`. The contract claims no more than that the
/// outcome depends on `text` alone; it gives the outcome the name
/// `json_debug`.
#[verifier::external_body]
fn render_json(text: &str) -> (rendered: Option<String>)
    ensures
        match rendered {
            Some(r) => json_debug(text@) == Some(r@),
            None => json_debug(text@) is None,
        },
{
    match serde_json::from_str::<serde_json::Value>(text) {
        Ok(value) => Some(format!("{:#?}", value)),
        Err(_) => None,
    }
}

/// The line that shows a description whose value prints as `rendered`.
pub fn spec_line(rendered: &str) -> (line: String)
    ensures
        line@ == "Spec: "@ + rendered@,
{
    String::from_str("Spec: ").concat(rendered)
}

/// The line that shows the firmware description `text`; `None` where `text`
/// is no JSON value.
pub fn describe_spec(text: &str) -> (line: Option<String>)
    ensures
        match line {
            Some(l) => json_debug(text@) is Some && l@ == "Spec: "@ + json_debug(text@)->0,
            None => json_debug(text@) is None,
        },
{
    match render_json(text) {
        Some(rendered) => Some(spec_line(rendered.as_str())),
        None => None,
    }
}

} // verus!
