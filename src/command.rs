//! Path commands as they come from a path-data parser, and their model.
use vstd::prelude::*;

verus! {

/// Whether the numbers of a command are coordinates or displacements.
#[derive(Clone, Copy, Debug, PartialEq, Eq, Structural)]
pub enum Position {
    Absolute,
    Relative,
}

/// One drawing command of a path, with its numbers as decimal text.
///
/// `Other` stands for every kind the dialect cannot draw (curves, arcs).
#[derive(Clone, Debug)]
pub enum Command {
    Move(Position, Vec<String>),
    Line(Position, Vec<String>),
    HorizontalLine(Position, Vec<String>),
    VerticalLine(Position, Vec<String>),
    Close,
    Other,
}

/// The mathematical value of a [`Command`]: each number is its text.
pub enum CommandModel {
    Move(Position, Seq<Seq<char>>),
    Line(Position, Seq<Seq<char>>),
    HorizontalLine(Position, Seq<Seq<char>>),
    VerticalLine(Position, Seq<Seq<char>>),
    Close,
    Other,
}

/// The texts of a list of numbers.
pub open spec fn texts(v: Seq<String>) -> Seq<Seq<char>> {
    v.map_values(|s: String| s@)
}

impl View for Command {
    type V = CommandModel;

    open spec fn view(&self) -> CommandModel {
        match self {
            Command::Move(p, v) => CommandModel::Move(*p, texts(v@)),
            Command::Line(p, v) => CommandModel::Line(*p, texts(v@)),
            Command::HorizontalLine(p, v) => CommandModel::HorizontalLine(*p, texts(v@)),
            Command::VerticalLine(p, v) => CommandModel::VerticalLine(*p, texts(v@)),
            Command::Close => CommandModel::Close,
            Command::Other => CommandModel::Other,
        }
    }
}

/// The models of a list of commands.
pub open spec fn commands_model(cs: Seq<Command>) -> Seq<CommandModel> {
    cs.map_values(|c: Command| c@)
}

/// A command in the form the translator takes: a `Move` or a `Line` holds
/// exactly one pair of numbers, a single-axis line exactly one number, and
/// no `Close` is left.
pub open spec fn is_canonical(c: CommandModel) -> bool {
    match c {
        CommandModel::Move(_, ps) => ps.len() == 2,
        CommandModel::Line(_, ps) => ps.len() == 2,
        CommandModel::HorizontalLine(_, ps) => ps.len() == 1,
        CommandModel::VerticalLine(_, ps) => ps.len() == 1,
        CommandModel::Close => false,
        CommandModel::Other => true,
    }
}

} // verus!
