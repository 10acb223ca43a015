//! The portable part of the character widget: the seeded random stream and
//! the scheduling tables behind the idle behaviour, the widget's discrete
//! control state, and the command-line parsing that configures it.

pub mod behavior;
pub mod cli;
pub mod pcg;
pub mod widget;
