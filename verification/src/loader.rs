//! The order in which a plugin is brought up.
//!
//! Loading a plugin is a sequence of steps that touch the disk and the
//! sandbox runtime. The steps themselves are done by the caller; what
//! follows each of them is decided here. The caller starts at
//! [`Stage::ReadBytecode`], does what the stage asks for, reports how it
//! went, and goes on with the stage it is given, until it is given
//! [`Stage::Ready`] or an error.

use crate::error::VfsError;
use vstd::prelude::*;

verus! {

/// The message of a load that ended because something was not there.
pub const NOT_FOUND: &'static str = "not found";

/// A step of loading a plugin, named by what the caller is to do.
#[derive(Clone, Copy, Debug, PartialEq, Eq, Structural)]
pub enum Stage {
    /// Read the plugin's bytes.
    ReadBytecode,
    /// See whether the cache holds an entry for these bytes.
    LookUp,
    /// Read the compiled form back from the entry.
    Restore,
    /// Compile the bytes.
    Compile,
    /// Write the compiled form to the entry, creating the cache directory
    /// if need be.
    Persist,
    /// Build the sandbox for the plugin.
    Confine,
    /// Instantiate the compiled form inside the sandbox.
    Instantiate,
    /// Call the plugin's entry point, which returns its provider.
    Initialize,
    /// The plugin is loaded. Nothing is left to do.
    Ready,
}

/// How a step went.
#[derive(Debug)]
pub enum Outcome {
    /// The step was done. For `LookUp`: the entry is there.
    Done,
    /// What the step looked for is not there. For `LookUp`: no entry.
    Absent,
    /// The step failed, with the message of the failure.
    Failed(String),
}

impl Stage {
    /// The stage that follows when this one was done.
    pub open spec fn following(self) -> Stage {
        match self {
            Stage::ReadBytecode => Stage::LookUp,
            Stage::LookUp => Stage::Restore,
            Stage::Restore => Stage::Confine,
            Stage::Compile => Stage::Persist,
            Stage::Persist => Stage::Confine,
            Stage::Confine => Stage::Instantiate,
            Stage::Instantiate => Stage::Initialize,
            Stage::Initialize => Stage::Ready,
            Stage::Ready => Stage::Ready,
        }
    }

    /// The stage that follows when this one was not done, where loading
    /// goes on all the same. A missing entry is compiled; so is one that
    /// cannot be read back; a compiled form that cannot be written is used
    /// without being kept. Elsewhere loading ends.
    pub open spec fn fallback(self, absent: bool) -> Option<Stage> {
        match self {
            Stage::LookUp => if absent {
                Some(Stage::Compile)
            } else {
                None
            },
            Stage::Restore => Some(Stage::Compile),
            Stage::Persist => Some(Stage::Confine),
            Stage::Ready => Some(Stage::Ready),
            _ => None,
        }
    }

    /// What follows the step `self`, given how it went. Where loading
    /// cannot go on, the error is `PluginLoad`; it carries the message of
    /// the failure where there is one, and [`NOT_FOUND`] where something
    /// was absent.
    pub fn advance(self, outcome: Outcome) -> (next: Result<Stage, VfsError>)
        ensures
            outcome is Done ==> next == Ok::<Stage, VfsError>(self.following()),
            !(outcome is Done) ==> match self.fallback(outcome is Absent) {
                Some(stage) => next == Ok::<Stage, VfsError>(stage),
                None => match next {
                    Ok(_) => false,
                    Err(e) => match outcome {
                        Outcome::Failed(message) => e == VfsError::PluginLoad(message),
                        _ => e matches VfsError::PluginLoad(message) && message@ == NOT_FOUND@,
                    },
                },
            },
    {
        match outcome {
            Outcome::Done => Ok(
                match self {
                    Stage::ReadBytecode => Stage::LookUp,
                    Stage::LookUp => Stage::Restore,
                    Stage::Restore => Stage::Confine,
                    Stage::Compile => Stage::Persist,
                    Stage::Persist => Stage::Confine,
                    Stage::Confine => Stage::Instantiate,
                    Stage::Instantiate => Stage::Initialize,
                    Stage::Initialize => Stage::Ready,
                    Stage::Ready => Stage::Ready,
                },
            ),
            Outcome::Absent => match self {
                Stage::LookUp => Ok(Stage::Compile),
                Stage::Restore => Ok(Stage::Compile),
                Stage::Persist => Ok(Stage::Confine),
                Stage::Ready => Ok(Stage::Ready),
                _ => Err(VfsError::PluginLoad(NOT_FOUND.to_owned())),
            },
            Outcome::Failed(message) => match self {
                Stage::Restore => Ok(Stage::Compile),
                Stage::Persist => Ok(Stage::Confine),
                Stage::Ready => Ok(Stage::Ready),
                _ => Err(VfsError::PluginLoad(message)),
            },
        }
    }

    /// Whether the stage does the slow work of compiling.
    pub open spec fn compiles(self) -> bool {
        self is Compile
    }
}

/// The stages that loading goes through from `stage` on when every step is
/// done, `steps` steps far.
pub open spec fn smooth_run(stage: Stage, steps: nat) -> Seq<Stage>
    decreases steps,
{
    if steps == 0 {
        seq![stage]
    } else {
        seq![stage] + smooth_run(stage.following(), (steps - 1) as nat)
    }
}

/// Where the cache holds an entry that can be read back, loading never
/// compiles: from the lookup on, no stage of the run is `Compile`, and the
/// run ends in `Ready`.
pub proof fn lemma_hit_skips_compile()
    ensures
        smooth_run(Stage::LookUp, 5) == seq![
            Stage::LookUp,
            Stage::Restore,
            Stage::Confine,
            Stage::Instantiate,
            Stage::Initialize,
            Stage::Ready,
        ],
        forall|i: int| 0 <= i < 6 ==> !(#[trigger] smooth_run(Stage::LookUp, 5)[i]).compiles(),
{
    reveal_with_fuel(smooth_run, 6);
    assert(smooth_run(Stage::LookUp, 5) =~= seq![
        Stage::LookUp,
        Stage::Restore,
        Stage::Confine,
        Stage::Instantiate,
        Stage::Initialize,
        Stage::Ready,
    ]);
}

/// Where the cache holds no entry, loading compiles and then persists, and
/// goes on as after a hit.
pub proof fn lemma_miss_compiles_and_persists()
    ensures
        Stage::LookUp.fallback(true) == Some(Stage::Compile),
        smooth_run(Stage::Compile, 2) == seq![Stage::Compile, Stage::Persist, Stage::Confine],
{
    reveal_with_fuel(smooth_run, 3);
    assert(smooth_run(Stage::Compile, 2) =~= seq![Stage::Compile, Stage::Persist, Stage::Confine]);
}

/// Neither an entry that cannot be read back nor one that cannot be written
/// ends loading: the first is compiled anew, the second is done without.
pub proof fn lemma_cache_failures_are_not_fatal(absent: bool)
    ensures
        Stage::Restore.fallback(absent) == Some(Stage::Compile),
        Stage::Persist.fallback(absent) == Some(Stage::Confine),
        Stage::Persist.fallback(absent) == Some(Stage::Persist.following()),
{
}

} // verus!
