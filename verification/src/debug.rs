//! What the interactive text-bundle debugger prints for each pipeline output.

use vstd::prelude::*;

use crate::text::{push_str, texts_of};

verus! {

/// One output of the text pipeline for a line typed at the prompt.
pub enum TextOutput {
    /// A single processed text.
    Text(String),
    /// Several processed texts.
    Texts(Vec<String>),
    /// An output of another kind, given by its debug rendering.
    Other(String),
    /// The pipeline failed with this message.
    Failure(String),
}

/// A line for the console: on standard error, or else on standard output.
pub struct ConsoleLine {
    pub to_stderr: bool,
    pub text: String,
}

/// The mathematical form of console lines.
pub open spec fn console_view(lines: Seq<ConsoleLine>) -> Seq<(bool, Seq<char>)> {
    lines.map_values(|l: ConsoleLine| (l.to_stderr, l.text@))
}

/// Processed text goes to standard output, one text per line; anything else
/// is reported on standard error.
pub open spec fn output_lines(out: TextOutput) -> Seq<(bool, Seq<char>)> {
    match out {
        TextOutput::Text(s) => seq![(false, s@)],
        TextOutput::Texts(v) => texts_of(v@).map_values(|t: Seq<char>| (false, t)),
        TextOutput::Other(d) => seq![(true, "(unexpected output type: "@ + d@ + ")"@)],
        TextOutput::Failure(m) => seq![(true, "Error: "@ + m@)],
    }
}

/// The console lines for one pipeline output.
pub fn console_lines(out: TextOutput) -> (r: Vec<ConsoleLine>)
    ensures
        console_view(r@) == output_lines(out),
{
    match out {
        TextOutput::Text(s) => {
            let r = vec![ConsoleLine { to_stderr: false, text: s }];
            assert(console_view(r@) =~= output_lines(out));
            r
        },
        TextOutput::Texts(v) => {
            let mut r: Vec<ConsoleLine> = Vec::new();
            let mut i: usize = 0;
            while i < v.len()
                invariant
                    i <= v.len(),
                    r.len() == i,
                    forall|j: int|
                        0 <= j < i ==> !(#[trigger] r@[j]).to_stderr && r@[j].text@ == v@[j]@,
                decreases v.len() - i,
            {
                r.push(ConsoleLine { to_stderr: false, text: v[i].clone() });
                i += 1;
            }
            assert(console_view(r@) =~= output_lines(out));
            r
        },
        TextOutput::Other(d) => {
            let mut t = String::new();
            push_str(&mut t, "(unexpected output type: ");
            push_str(&mut t, d.as_str());
            push_str(&mut t, ")");
            let r = vec![ConsoleLine { to_stderr: true, text: t }];
            assert(console_view(r@) =~= output_lines(out));
            r
        },
        TextOutput::Failure(m) => {
            let mut t = String::new();
            push_str(&mut t, "Error: ");
            push_str(&mut t, m.as_str());
            let r = vec![ConsoleLine { to_stderr: true, text: t }];
            assert(console_view(r@) =~= output_lines(out));
            r
        },
    }
}

} // verus!
