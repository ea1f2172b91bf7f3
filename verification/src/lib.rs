use vstd::prelude::*;

pub mod json;
pub mod state;
pub mod events;
pub mod tools;
pub mod llm;
pub mod ui;
pub mod input;

verus! {

/// Command-line arguments of the program.
pub struct Args {
    /// The first prompt to send to the model.
    pub prompt: String,
    /// The model to talk to.
    pub model: Option<String>,
}

/// Top-level application flags.
pub struct App {
    /// Whether the application has been asked to exit.
    pub exit: bool,
}

/// Why the command-line arguments cannot start the application.
#[derive(Clone, Copy, Debug, PartialEq, Eq, Structural)]
pub enum ArgsError {
    /// No model was given.
    NoModel,
}

impl ArgsError {
    /// The text that describes this error.
    pub fn message(&self) -> (text: String)
        ensures
            text@ == "No model set: use the --model arg"@,
    {
        String::from_str("No model set: use the --model arg")
    }
}

/// The model to talk to; it must be given.
pub fn require_model(model: Option<String>) -> (r: Result<String, ArgsError>)
    ensures
        match model {
            Some(m) => r == Ok::<String, ArgsError>(m),
            None => r == Err::<String, ArgsError>(ArgsError::NoModel),
        },
{
    match model {
        Some(m) => Ok(m),
        None => Err(ArgsError::NoModel),
    }
}

} // verus!
