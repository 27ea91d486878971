//! A verified model of a fake OpenXR runtime used for testing OpenXR clients:
//! the handle table, action sets and actions, input synchronisation, session
//! events and the dispatch table behind `xrGetInstanceProcAddr`, together with
//! the decisions that turn OpenXR space-location flags into an OpenVR pose.

pub mod flags;
mod invariants;
pub mod laws;
pub mod model;
pub mod procs;
pub mod runtime;

pub use flags::{PoseValidity, pose_validity};
pub use model::{
    ActionKind, ActionState, ActionStateBoolean, ActionStateFloat, ReferenceSpaceKind,
    SessionEvent, SessionState, XrError,
};
pub use procs::{ProcEntry, XrFunction, get_instance_proc_addr};
pub use runtime::{Runtime, create_reference_space, set_action_state};
