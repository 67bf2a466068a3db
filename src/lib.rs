//! Turns vector path commands into instructions for a turtle-graphics
//! dialect: pen up and down, moves to points and by vectors, and two
//! variables that follow the cursor.
//!
//! Numbers travel through the library as their decimal text, exactly as
//! they are to be printed; the library never computes with them.
pub mod command;
pub mod normalize;
pub mod pipeline;
pub mod token;
pub mod translate;

pub use command::{Command, CommandModel, Position};
pub use normalize::{normalize, NormalizeError};
pub use pipeline::{program, render_all, translate};
pub use token::{Token, TokenModel};
pub use translate::{
    construct_add_equals, construct_assignment, convert, convert_all, update_all,
    update_current_pos,
};
