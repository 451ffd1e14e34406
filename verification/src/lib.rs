//! A verified core for a small Logo dialect: a turtle that moves over a
//! canvas and draws, driven by a script of movement, pen, variable and
//! control-flow commands.
//!
//! The crate holds the language: [`parser::tokenise`] splits a script into
//! tokens, [`parser::parser`] and [`parser::helpers`] turn tokens into the
//! tree of [`parser::ast`] by the grammar of [`parser::grammar`], and
//! [`interpreter`] runs the tree against an [`environment::Environment`] and
//! a [`interpreter::turtle::Turtle`].
//!
//! Two things are left to the program around the crate, because they are
//! done in floating point: rounding arithmetic, and the drawing surface with
//! its trigonometry. Numbers are held by their encoding, as
//! [`number::Number`]; the crate compares and converts them itself. The
//! evaluator is a machine that works in steps
//! ([`interpreter::machine::Interpreter`]): a step that needs a sum rounded
//! or a movement carried out ends with a request, and the next step takes
//! the reply. A script that loops for ever is a machine that never comes to
//! its last step; no step of it fails to end.
//!
//! What a script means as a whole is said in [`interpreter::meaning`],
//! together with the proof that the machine, driven by a host that answers
//! its requests, computes that meaning.

pub mod environment;
pub mod interpreter;
pub mod number;
pub mod parser;
pub mod text;
