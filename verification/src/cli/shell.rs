//! How the program starts, and what a line of input asks for.

use vstd::prelude::*;

use crate::text::{eq_ignore_ascii_case, same_ignoring_ascii_case, same_text, split_words, text_views, words};

verus! {

/// What the program is started for.
#[derive(Clone, Copy, Debug, PartialEq, Eq, Structural)]
pub enum Startup {
    /// To be the registry.
    Serve,
    /// To run one command.
    OneShot,
    /// To run commands as they are typed.
    Interactive,
}

/// What the arguments, of which the first is the program's name, ask for.
pub open spec fn startup_for(args: Seq<Seq<char>>) -> Startup {
    if args.len() > 1 && args[1] == "serve"@ {
        Startup::Serve
    } else if args.len() > 1 {
        Startup::OneShot
    } else {
        Startup::Interactive
    }
}

/// Reads off the arguments what the program is started for.
pub fn startup(args: &Vec<String>) -> (mode: Startup)
    ensures
        mode == startup_for(text_views(args@)),
{
    if args.len() > 1 {
        if same_text(args[1].as_str(), "serve") {
            Startup::Serve
        } else {
            Startup::OneShot
        }
    } else {
        Startup::Interactive
    }
}

/// What a line of input asks for.
#[derive(Debug)]
pub enum LineAction {
    /// Nothing: the line is blank.
    Skip,
    /// To leave.
    Exit,
    /// To be told the commands.
    Help,
    /// To run the command that these arguments make up.
    Run { argv: Vec<String> },
}

/// The contents of a `LineAction`.
#[verifier::ext_equal]
pub enum LineActionView {
    Skip,
    Exit,
    Help,
    Run { argv: Seq<Seq<char>> },
}

impl View for LineAction {
    type V = LineActionView;

    open spec fn view(&self) -> LineActionView {
        match self {
            LineAction::Skip => LineActionView::Skip,
            LineAction::Exit => LineActionView::Exit,
            LineAction::Help => LineActionView::Help,
            LineAction::Run { argv } => LineActionView::Run { argv: text_views(argv@) },
        }
    }
}

/// What a line with these words asks for: `exit` or `quit` alone, `help` alone, or
/// a command, to which the program's name is put in front.
pub open spec fn action_for(words: Seq<Seq<char>>) -> LineActionView {
    if words.len() == 0 {
        LineActionView::Skip
    } else if words.len() == 1 && (same_ignoring_ascii_case(words[0], "exit"@)
        || same_ignoring_ascii_case(words[0], "quit"@)) {
        LineActionView::Exit
    } else if words.len() == 1 && same_ignoring_ascii_case(words[0], "help"@) {
        LineActionView::Help
    } else {
        LineActionView::Run { argv: seq!["WhatSpace"@] + words }
    }
}

/// Reads off a line what it asks for.
pub fn interpret_line(line: &str) -> (action: LineAction)
    ensures
        action@ == action_for(words(line@)),
{
    interpret_words(split_words(line))
}

/// Reads off the words of a line what it asks for.
pub fn interpret_words(words: Vec<String>) -> (action: LineAction)
    ensures
        action@ == action_for(text_views(words@)),
{
    if words.len() == 0 {
        return LineAction::Skip;
    }
    if words.len() == 1 {
        let word = words[0].as_str();
        if eq_ignore_ascii_case(word, "exit") || eq_ignore_ascii_case(word, "quit") {
            return LineAction::Exit;
        }
        if eq_ignore_ascii_case(word, "help") {
            return LineAction::Help;
        }
    }
    let mut words = words;
    let mut argv: Vec<String> = Vec::new();
    argv.push("WhatSpace".to_owned());
    let ghost found = words@;
    argv.append(&mut words);
    assert(text_views(argv@) =~= seq!["WhatSpace"@] + text_views(found));
    LineAction::Run { argv }
}

} // verus!
