//! Flags: empty files whose presence is what they say.
//!
//! A flag is set by writing an empty file, after the directories above it
//! were made, and cleared by removing the file. Setting a flag that is set
//! and clearing one that is clear change nothing and cannot fail for the
//! flag's sake. The steps are chosen here and carried out by the caller.

use vstd::prelude::*;

verus! {

/// A step on the file system.
#[derive(Clone, Copy, Debug, PartialEq, Eq, Structural)]
pub enum FlagStep {
    /// Make the directory that holds the flag, with all above it that are
    /// missing.
    CreateParents,
    /// Write the flag as an empty file, over whatever is there.
    WriteEmpty,
    /// Remove the flag's file.
    Remove,
}

/// What is at the flag's path: nothing, or a file of some length.
#[derive(Clone, Copy, Debug, PartialEq, Eq, Structural)]
pub enum FlagFile {
    /// No file is there.
    Absent,
    /// A file of `len` bytes is there.
    Present { len: u64 },
}

/// Whether the flag counts as set: its file is there, whatever it holds.
pub open spec fn flag_set(file: FlagFile) -> bool {
    file is Present
}

/// What is at the flag's path once `step` was carried out.
pub open spec fn after_step(step: FlagStep, file: FlagFile) -> FlagFile {
    match step {
        FlagStep::CreateParents => file,
        FlagStep::WriteEmpty => FlagFile::Present { len: 0 },
        FlagStep::Remove => FlagFile::Absent,
    }
}

/// What is at the flag's path once `steps` were carried out in order.
pub open spec fn after_steps(steps: Seq<FlagStep>, file: FlagFile) -> FlagFile
    decreases steps.len(),
{
    if steps.len() == 0 {
        file
    } else {
        after_step(steps.last(), after_steps(steps.drop_last(), file))
    }
}

/// The steps that set a flag. The directories are made first, where the
/// path names one above the flag.
pub open spec fn steps_to_set(has_parent: bool) -> Seq<FlagStep> {
    if has_parent {
        seq![FlagStep::CreateParents, FlagStep::WriteEmpty]
    } else {
        seq![FlagStep::WriteEmpty]
    }
}

/// The steps that clear a flag: none if it is clear.
pub open spec fn steps_to_clear(file: FlagFile) -> Seq<FlagStep> {
    if flag_set(file) {
        seq![FlagStep::Remove]
    } else {
        Seq::empty()
    }
}

/// Chooses the steps that set a flag; `has_parent` tells whether the path
/// names a directory above the flag.
pub fn set_flag_steps(has_parent: bool) -> (steps: Vec<FlagStep>)
    ensures
        steps@ == steps_to_set(has_parent),
{
    let mut steps: Vec<FlagStep> = Vec::new();
    if has_parent {
        steps.push(FlagStep::CreateParents);
    }
    steps.push(FlagStep::WriteEmpty);
    assert(steps@ =~= steps_to_set(has_parent));
    steps
}

/// Chooses the steps that clear a flag, given what is at its path.
pub fn clear_flag_steps(file: FlagFile) -> (steps: Vec<FlagStep>)
    ensures
        steps@ == steps_to_clear(file),
{
    let mut steps: Vec<FlagStep> = Vec::new();
    match file {
        FlagFile::Present { .. } => {
            steps.push(FlagStep::Remove);
        },
        FlagFile::Absent => {},
    }
    assert(steps@ =~= steps_to_clear(file));
    steps
}

/// Whether the flag is set, given what is at its path.
pub fn is_flag_set(file: FlagFile) -> (set: bool)
    ensures
        set == flag_set(file),
{
    match file {
        FlagFile::Present { .. } => true,
        FlagFile::Absent => false,
    }
}

/// Setting a flag leaves one empty file, whatever was there before.
pub proof fn lemma_set_leaves_empty_file(has_parent: bool, file: FlagFile)
    ensures
        after_steps(steps_to_set(has_parent), file) == (FlagFile::Present { len: 0 }),
{
    reveal_with_fuel(after_steps, 3);
}

/// Setting a flag twice is setting it once.
pub proof fn lemma_set_is_idempotent(first: bool, second: bool, file: FlagFile)
    ensures
        after_steps(steps_to_set(second), after_steps(steps_to_set(first), file)) == after_steps(
            steps_to_set(first),
            file,
        ),
{
    lemma_set_leaves_empty_file(first, file);
    lemma_set_leaves_empty_file(second, after_steps(steps_to_set(first), file));
}

/// Clearing a flag leaves no file. Where there was none, nothing is done,
/// so that nothing can fail.
pub proof fn lemma_clear_leaves_no_file(file: FlagFile)
    ensures
        after_steps(steps_to_clear(file), file) == FlagFile::Absent,
        !flag_set(file) ==> steps_to_clear(file).len() == 0,
{
    reveal_with_fuel(after_steps, 2);
}

/// Clearing a flag twice is clearing it once.
pub proof fn lemma_clear_is_idempotent(file: FlagFile)
    ensures
        steps_to_clear(after_steps(steps_to_clear(file), file)).len() == 0,
{
    lemma_clear_leaves_no_file(file);
}

} // verus!
