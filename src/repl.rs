use vstd::prelude::*;

verus! {

/// What an interactive session shows for each input.
#[derive(Debug, PartialEq, Eq, Clone, Copy, Structural)]
pub enum ReplExecKind {
    Token,
    Ast,
    String,
    Eval,
}

/// How an interactive session reads one input.
#[derive(Debug, PartialEq, Eq, Clone, Copy, Structural)]
pub enum ReplInputKind {
    OneLine,
    WhileCtrlD,
}

impl ReplInputKind {
    /// The input mode for a menu choice: 1 reads one line, 2 reads to the
    /// end of the stream; anything else is no choice.
    pub fn from_choice(choice: usize) -> (r: Option<ReplInputKind>)
        ensures
            r == (if choice == 1 {
                Some(ReplInputKind::OneLine)
            } else if choice == 2 {
                Some(ReplInputKind::WhileCtrlD)
            } else {
                None
            }),
    {
        match choice {
            1 => Some(ReplInputKind::OneLine),
            2 => Some(ReplInputKind::WhileCtrlD),
            _ => None,
        }
    }
}

impl ReplExecKind {
    /// The display mode for a menu choice: 1 tokens, 2 syntax tree, 3 its
    /// source rendering, 4 the evaluated value; anything else is no choice.
    pub fn from_choice(choice: usize) -> (r: Option<ReplExecKind>)
        ensures
            r == (if choice == 1 {
                Some(ReplExecKind::Token)
            } else if choice == 2 {
                Some(ReplExecKind::Ast)
            } else if choice == 3 {
                Some(ReplExecKind::String)
            } else if choice == 4 {
                Some(ReplExecKind::Eval)
            } else {
                None
            }),
    {
        match choice {
            1 => Some(ReplExecKind::Token),
            2 => Some(ReplExecKind::Ast),
            3 => Some(ReplExecKind::String),
            4 => Some(ReplExecKind::Eval),
            _ => None,
        }
    }
}

} // verus!
