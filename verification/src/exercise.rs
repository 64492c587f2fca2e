use vstd::prelude::*;
use std::path::PathBuf;

verus! {

#[verifier::external_type_specification]
#[verifier::external_body]
pub struct ExPathBuf(PathBuf);

/// How an exercise is checked.
#[derive(Copy, Clone, Debug, PartialEq, Eq, Structural)]
pub enum Mode {
    Compile,
    Test,
    Clippy,
}

/// The list of all exercises.
pub struct ExerciseList {
    pub exercises: Vec<Exercise>,
}

/// One exercise: its name, the file that holds it, how it is checked and a hint.
#[derive(Debug)]
pub struct Exercise {
    pub name: String,
    pub path: PathBuf,
    pub mode: Mode,
    pub hint: String,
}

} // verus!
