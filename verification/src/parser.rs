//! The syntax tree handed over by the command-line parser, and what the
//! shell does with a parse result.  The parser itself (a C++ tokenizer
//! behind a C interface) is outside this library; its JSON output is read
//! into an `AstNode` by the caller.
use vstd::prelude::*;
use crate::text::{chars_eq_str, chars_of, is_blank, trim};

verus! {

/// A syntax-tree node: its kind (`command`, `empty`, `error`, ...), the
/// source text (trimmed) and, for a simple command, its words.
#[derive(Debug, Clone, PartialEq, Eq)]
pub struct AstNode {
    /// Node kind.
    pub kind: String,
    /// Source text of the node (without surrounding white space).
    pub text: String,
    /// Words of a simple command (argv).
    pub children: Vec<String>,
}

impl AstNode {
    /// Whether the node is a simple command.
    pub fn is_command(&self) -> (r: bool)
        ensures
            r == (self.kind@ == "command"@),
    {
        chars_eq_str(chars_of(self.kind.as_str()).as_slice(), "command")
    }

    /// The command name (first word).
    pub fn program(&self) -> (r: Option<&str>)
        ensures
            match r {
                Some(p) => self.children@.len() > 0 && p@ == self.children@[0]@,
                None => self.children@.len() == 0,
            },
    {
        if self.children.len() == 0 {
            None
        } else {
            Some(self.children[0].as_str())
        }
    }

    /// The arguments (the words after the command name).
    pub fn args(&self) -> (r: &[String])
        ensures
            r@ == (if self.children@.len() == 0 {
                self.children@
            } else {
                self.children@.skip(1)
            }),
    {
        if self.children.len() == 0 {
            self.children.as_slice()
        } else {
            let s = self.children.as_slice();
            vstd::slice::slice_subrange(s, 1, s.len())
        }
    }

    /// The source text of the node.
    pub fn text(&self) -> (r: &str)
        ensures
            r@ == self.text@,
    {
        self.text.as_str()
    }
}

/// The result of parsing a command line.
#[derive(Debug, Clone, PartialEq, Eq)]
pub enum ParseOutcome {
    /// The line parsed into a syntax tree.
    Parsed(AstNode),
    /// The syntax is not supported, or the parser is not available.
    Unsupported,
}

/// The outcome of parsing `input`, given what the parser produced for it
/// (`None` when it produced nothing readable): a blank input has no
/// command; an `error` node is unsupported syntax.
pub fn parse_outcome(input: &str, produced: Option<AstNode>) -> (r: ParseOutcome)
    ensures
        trim(input@).len() == 0 ==> r is Unsupported,
        trim(input@).len() > 0 ==> match produced {
            None => r is Unsupported,
            Some(node) => if node.kind@ == "error"@ {
                r is Unsupported
            } else {
                r == ParseOutcome::Parsed(node)
            },
        },
{
    if is_blank(chars_of(input).as_slice()) {
        return ParseOutcome::Unsupported;
    }
    match produced {
        None => ParseOutcome::Unsupported,
        Some(node) => {
            if chars_eq_str(chars_of(node.kind.as_str()).as_slice(), "error") {
                ParseOutcome::Unsupported
            } else {
                ParseOutcome::Parsed(node)
            }
        },
    }
}

/// How the shell runs a parsed line.
pub enum Launch {
    /// A command with no words: nothing to run (exit code 0).
    Nothing,
    /// Run this program with these arguments.
    Program(String, Vec<String>),
    /// Hand the line to the system shell.
    SystemShell,
}

/// How to run a line, given its parse outcome: a simple command runs
/// directly; anything else goes to the system shell.
pub fn launch_for(outcome: ParseOutcome) -> (r: Launch)
    ensures
        match outcome {
            ParseOutcome::Parsed(node) => if node.kind@ == "command"@ {
                if node.children@.len() == 0 {
                    r is Nothing
                } else {
                    r matches Launch::Program(p, a) && p == node.children@[0] && a@
                        == node.children@.skip(1)
                }
            } else {
                r is SystemShell
            },
            ParseOutcome::Unsupported => r is SystemShell,
        },
{
    match outcome {
        ParseOutcome::Parsed(node) => {
            if !node.is_command() {
                return Launch::SystemShell;
            }
            let mut words = node.children;
            if words.len() == 0 {
                return Launch::Nothing;
            }
            let ghost all = words@;
            let program = words.remove(0);
            assert(words@ =~= all.skip(1));
            Launch::Program(program, words)
        },
        ParseOutcome::Unsupported => Launch::SystemShell,
    }
}

} // verus!
