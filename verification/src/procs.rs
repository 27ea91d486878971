//! The dispatch table behind `xrGetInstanceProcAddr`: which OpenXR entry
//! points the runtime serves, and which of them are stubs that a client may
//! look up but that fail when called.

use vstd::prelude::*;
use crate::model::{Obj, XrError, is_instance};
use crate::runtime::Runtime;

verus! {

/// The OpenXR functions that the runtime knows by name.
#[derive(Clone, Copy, Debug, PartialEq, Eq, Structural)]
pub enum XrFunction {
    GetInstanceProcAddr,
    CreateInstance,
    DestroyInstance,
    EnumerateInstanceExtensionProperties,
    EnumerateApiLayerProperties,
    GetVulkanInstanceExtensionsKHR,
    GetVulkanDeviceExtensionsKHR,
    GetVulkanGraphicsDeviceKHR,
    GetVulkanGraphicsRequirementsKHR,
    GetSystem,
    CreateSession,
    DestroySession,
    BeginSession,
    EndSession,
    CreateReferenceSpace,
    PollEvent,
    DestroySpace,
    LocateViews,
    RequestExitSession,
    ResultToString,
    StructureTypeToString,
    GetInstanceProperties,
    GetSystemProperties,
    CreateSwapchain,
    DestroySwapchain,
    EnumerateSwapchainImages,
    AcquireSwapchainImage,
    WaitSwapchainImage,
    ReleaseSwapchainImage,
    EnumerateSwapchainFormats,
    EnumerateReferenceSpaces,
    CreateActionSpace,
    LocateSpace,
    EnumerateViewConfigurations,
    EnumerateEnvironmentBlendModes,
    GetViewConfigurationProperties,
    EnumerateViewConfigurationViews,
    BeginFrame,
    EndFrame,
    WaitFrame,
    ApplyHapticFeedback,
    StopHapticFeedback,
    StringToPath,
    PathToString,
    GetReferenceSpaceBoundsRect,
    GetActionStateBoolean,
    GetActionStateFloat,
    GetActionStateVector2f,
    GetActionStatePose,
    CreateActionSet,
    DestroyActionSet,
    CreateAction,
    DestroyAction,
    SuggestInteractionProfileBindings,
    AttachSessionActionSets,
    GetCurrentInteractionProfile,
    SyncActions,
    EnumerateBoundSourcesForAction,
    GetInputSourceLocalizedName,
}

/// What a name resolves to.
#[derive(Clone, Copy, Debug, PartialEq, Eq, Structural)]
pub enum ProcEntry {
    /// The runtime implements the function.
    Implemented(XrFunction),
    /// The runtime hands out a stub that reports the function as unimplemented.
    Stub(XrFunction),
}

/// The names served before any instance exists (a null instance handle), in
/// lookup order.
pub open spec fn null_instance_table() -> Seq<(&'static str, ProcEntry)> {
    seq![
        ("xrCreateInstance", ProcEntry::Implemented(XrFunction::CreateInstance)),
        ("xrEnumerateInstanceExtensionProperties", ProcEntry::Stub(XrFunction::EnumerateInstanceExtensionProperties)),
        ("xrEnumerateApiLayerProperties", ProcEntry::Stub(XrFunction::EnumerateApiLayerProperties)),
    ]
}

/// The names served for a live instance, in lookup order. The first entry
/// whose name matches wins (`xrPollEvent` is listed twice; the implemented
/// entry comes first).
pub open spec fn instance_table() -> Seq<(&'static str, ProcEntry)> {
    Seq::new(60, |i: int| instance_row(i))
}

/// Row `i` of the table served for a live instance.
pub open spec fn instance_row(i: int) -> (&'static str, ProcEntry) {
    if i == 0 {
        ("xrGetInstanceProcAddr", ProcEntry::Implemented(XrFunction::GetInstanceProcAddr))
    } else if i == 1 {
        ("xrCreateInstance", ProcEntry::Implemented(XrFunction::CreateInstance))
    } else if i == 2 {
        ("xrDestroyInstance", ProcEntry::Implemented(XrFunction::DestroyInstance))
    } else if i == 3 {
        ("xrEnumerateInstanceExtensionProperties", ProcEntry::Stub(XrFunction::EnumerateInstanceExtensionProperties))
    } else if i == 4 {
        ("xrEnumerateApiLayerProperties", ProcEntry::Stub(XrFunction::EnumerateApiLayerProperties))
    } else if i == 5 {
        ("xrGetVulkanInstanceExtensionsKHR", ProcEntry::Implemented(XrFunction::GetVulkanInstanceExtensionsKHR))
    } else if i == 6 {
        ("xrGetVulkanDeviceExtensionsKHR", ProcEntry::Implemented(XrFunction::GetVulkanDeviceExtensionsKHR))
    } else if i == 7 {
        ("xrGetVulkanGraphicsDeviceKHR", ProcEntry::Implemented(XrFunction::GetVulkanGraphicsDeviceKHR))
    } else if i == 8 {
        ("xrGetVulkanGraphicsRequirementsKHR", ProcEntry::Implemented(XrFunction::GetVulkanGraphicsRequirementsKHR))
    } else if i == 9 {
        ("xrGetSystem", ProcEntry::Implemented(XrFunction::GetSystem))
    } else if i == 10 {
        ("xrCreateSession", ProcEntry::Implemented(XrFunction::CreateSession))
    } else if i == 11 {
        ("xrDestroySession", ProcEntry::Implemented(XrFunction::DestroySession))
    } else if i == 12 {
        ("xrBeginSession", ProcEntry::Implemented(XrFunction::BeginSession))
    } else if i == 13 {
        ("xrEndSession", ProcEntry::Implemented(XrFunction::EndSession))
    } else if i == 14 {
        ("xrCreateReferenceSpace", ProcEntry::Implemented(XrFunction::CreateReferenceSpace))
    } else if i == 15 {
        ("xrPollEvent", ProcEntry::Implemented(XrFunction::PollEvent))
    } else if i == 16 {
        ("xrDestroySpace", ProcEntry::Implemented(XrFunction::DestroySpace))
    } else if i == 17 {
        ("xrLocateViews", ProcEntry::Stub(XrFunction::LocateViews))
    } else if i == 18 {
        ("xrRequestExitSession", ProcEntry::Implemented(XrFunction::RequestExitSession))
    } else if i == 19 {
        ("xrResultToString", ProcEntry::Stub(XrFunction::ResultToString))
    } else if i == 20 {
        ("xrStructureTypeToString", ProcEntry::Stub(XrFunction::StructureTypeToString))
    } else if i == 21 {
        ("xrGetInstanceProperties", ProcEntry::Stub(XrFunction::GetInstanceProperties))
    } else if i == 22 {
        ("xrGetSystemProperties", ProcEntry::Stub(XrFunction::GetSystemProperties))
    } else if i == 23 {
        ("xrCreateSwapchain", ProcEntry::Implemented(XrFunction::CreateSwapchain))
    } else if i == 24 {
        ("xrDestroySwapchain", ProcEntry::Implemented(XrFunction::DestroySwapchain))
    } else if i == 25 {
        ("xrEnumerateSwapchainImages", ProcEntry::Implemented(XrFunction::EnumerateSwapchainImages))
    } else if i == 26 {
        ("xrAcquireSwapchainImage", ProcEntry::Implemented(XrFunction::AcquireSwapchainImage))
    } else if i == 27 {
        ("xrWaitSwapchainImage", ProcEntry::Implemented(XrFunction::WaitSwapchainImage))
    } else if i == 28 {
        ("xrReleaseSwapchainImage", ProcEntry::Implemented(XrFunction::ReleaseSwapchainImage))
    } else if i == 29 {
        ("xrEnumerateSwapchainFormats", ProcEntry::Stub(XrFunction::EnumerateSwapchainFormats))
    } else if i == 30 {
        ("xrEnumerateReferenceSpaces", ProcEntry::Stub(XrFunction::EnumerateReferenceSpaces))
    } else if i == 31 {
        ("xrCreateActionSpace", ProcEntry::Implemented(XrFunction::CreateActionSpace))
    } else if i == 32 {
        ("xrLocateSpace", ProcEntry::Implemented(XrFunction::LocateSpace))
    } else if i == 33 {
        ("xrEnumerateViewConfigurations", ProcEntry::Stub(XrFunction::EnumerateViewConfigurations))
    } else if i == 34 {
        ("xrEnumerateEnvironmentBlendModes", ProcEntry::Stub(XrFunction::EnumerateEnvironmentBlendModes))
    } else if i == 35 {
        ("xrGetViewConfigurationProperties", ProcEntry::Stub(XrFunction::GetViewConfigurationProperties))
    } else if i == 36 {
        ("xrEnumerateViewConfigurationViews", ProcEntry::Stub(XrFunction::EnumerateViewConfigurationViews))
    } else if i == 37 {
        ("xrBeginFrame", ProcEntry::Implemented(XrFunction::BeginFrame))
    } else if i == 38 {
        ("xrEndFrame", ProcEntry::Implemented(XrFunction::EndFrame))
    } else if i == 39 {
        ("xrWaitFrame", ProcEntry::Implemented(XrFunction::WaitFrame))
    } else if i == 40 {
        ("xrApplyHapticFeedback", ProcEntry::Stub(XrFunction::ApplyHapticFeedback))
    } else if i == 41 {
        ("xrStopHapticFeedback", ProcEntry::Stub(XrFunction::StopHapticFeedback))
    } else if i == 42 {
        ("xrPollEvent", ProcEntry::Stub(XrFunction::PollEvent))
    } else if i == 43 {
        ("xrStringToPath", ProcEntry::Implemented(XrFunction::StringToPath))
    } else if i == 44 {
        ("xrPathToString", ProcEntry::Stub(XrFunction::PathToString))
    } else if i == 45 {
        ("xrGetReferenceSpaceBoundsRect", ProcEntry::Stub(XrFunction::GetReferenceSpaceBoundsRect))
    } else if i == 46 {
        ("xrGetActionStateBoolean", ProcEntry::Implemented(XrFunction::GetActionStateBoolean))
    } else if i == 47 {
        ("xrGetActionStateFloat", ProcEntry::Implemented(XrFunction::GetActionStateFloat))
    } else if i == 48 {
        ("xrGetActionStateVector2f", ProcEntry::Stub(XrFunction::GetActionStateVector2f))
    } else if i == 49 {
        ("xrGetActionStatePose", ProcEntry::Stub(XrFunction::GetActionStatePose))
    } else if i == 50 {
        ("xrCreateActionSet", ProcEntry::Implemented(XrFunction::CreateActionSet))
    } else if i == 51 {
        ("xrDestroyActionSet", ProcEntry::Implemented(XrFunction::DestroyActionSet))
    } else if i == 52 {
        ("xrCreateAction", ProcEntry::Implemented(XrFunction::CreateAction))
    } else if i == 53 {
        ("xrDestroyAction", ProcEntry::Implemented(XrFunction::DestroyAction))
    } else if i == 54 {
        ("xrSuggestInteractionProfileBindings", ProcEntry::Implemented(XrFunction::SuggestInteractionProfileBindings))
    } else if i == 55 {
        ("xrAttachSessionActionSets", ProcEntry::Implemented(XrFunction::AttachSessionActionSets))
    } else if i == 56 {
        ("xrGetCurrentInteractionProfile", ProcEntry::Stub(XrFunction::GetCurrentInteractionProfile))
    } else if i == 57 {
        ("xrSyncActions", ProcEntry::Implemented(XrFunction::SyncActions))
    } else if i == 58 {
        ("xrEnumerateBoundSourcesForAction", ProcEntry::Stub(XrFunction::EnumerateBoundSourcesForAction))
    } else {
        ("xrGetInputSourceLocalizedName", ProcEntry::Stub(XrFunction::GetInputSourceLocalizedName))
    }
}

/// The entry of the first row of `table` whose name is `name`, if any.
pub open spec fn table_lookup(table: Seq<(&'static str, ProcEntry)>, name: Seq<char>) -> Option<ProcEntry>
    decreases table.len(),
{
    if table.len() == 0 {
        None
    } else if table[0].0@ == name {
        Some(table[0].1)
    } else {
        table_lookup(table.drop_first(), name)
    }
}

fn null_instance_entries() -> (t: Vec<(&'static str, ProcEntry)>)
    ensures
        t@ == null_instance_table(),
{
    let t = vec![
        ("xrCreateInstance", ProcEntry::Implemented(XrFunction::CreateInstance)),
        ("xrEnumerateInstanceExtensionProperties", ProcEntry::Stub(XrFunction::EnumerateInstanceExtensionProperties)),
        ("xrEnumerateApiLayerProperties", ProcEntry::Stub(XrFunction::EnumerateApiLayerProperties)),
    ];
    assert(t@ =~= null_instance_table());
    t
}

fn instance_entries() -> (t: Vec<(&'static str, ProcEntry)>)
    ensures
        t@ == instance_table(),
{
    let t = vec![
        ("xrGetInstanceProcAddr", ProcEntry::Implemented(XrFunction::GetInstanceProcAddr)),
        ("xrCreateInstance", ProcEntry::Implemented(XrFunction::CreateInstance)),
        ("xrDestroyInstance", ProcEntry::Implemented(XrFunction::DestroyInstance)),
        ("xrEnumerateInstanceExtensionProperties", ProcEntry::Stub(XrFunction::EnumerateInstanceExtensionProperties)),
        ("xrEnumerateApiLayerProperties", ProcEntry::Stub(XrFunction::EnumerateApiLayerProperties)),
        ("xrGetVulkanInstanceExtensionsKHR", ProcEntry::Implemented(XrFunction::GetVulkanInstanceExtensionsKHR)),
        ("xrGetVulkanDeviceExtensionsKHR", ProcEntry::Implemented(XrFunction::GetVulkanDeviceExtensionsKHR)),
        ("xrGetVulkanGraphicsDeviceKHR", ProcEntry::Implemented(XrFunction::GetVulkanGraphicsDeviceKHR)),
        ("xrGetVulkanGraphicsRequirementsKHR", ProcEntry::Implemented(XrFunction::GetVulkanGraphicsRequirementsKHR)),
        ("xrGetSystem", ProcEntry::Implemented(XrFunction::GetSystem)),
        ("xrCreateSession", ProcEntry::Implemented(XrFunction::CreateSession)),
        ("xrDestroySession", ProcEntry::Implemented(XrFunction::DestroySession)),
        ("xrBeginSession", ProcEntry::Implemented(XrFunction::BeginSession)),
        ("xrEndSession", ProcEntry::Implemented(XrFunction::EndSession)),
        ("xrCreateReferenceSpace", ProcEntry::Implemented(XrFunction::CreateReferenceSpace)),
        ("xrPollEvent", ProcEntry::Implemented(XrFunction::PollEvent)),
        ("xrDestroySpace", ProcEntry::Implemented(XrFunction::DestroySpace)),
        ("xrLocateViews", ProcEntry::Stub(XrFunction::LocateViews)),
        ("xrRequestExitSession", ProcEntry::Implemented(XrFunction::RequestExitSession)),
        ("xrResultToString", ProcEntry::Stub(XrFunction::ResultToString)),
        ("xrStructureTypeToString", ProcEntry::Stub(XrFunction::StructureTypeToString)),
        ("xrGetInstanceProperties", ProcEntry::Stub(XrFunction::GetInstanceProperties)),
        ("xrGetSystemProperties", ProcEntry::Stub(XrFunction::GetSystemProperties)),
        ("xrCreateSwapchain", ProcEntry::Implemented(XrFunction::CreateSwapchain)),
        ("xrDestroySwapchain", ProcEntry::Implemented(XrFunction::DestroySwapchain)),
        ("xrEnumerateSwapchainImages", ProcEntry::Implemented(XrFunction::EnumerateSwapchainImages)),
        ("xrAcquireSwapchainImage", ProcEntry::Implemented(XrFunction::AcquireSwapchainImage)),
        ("xrWaitSwapchainImage", ProcEntry::Implemented(XrFunction::WaitSwapchainImage)),
        ("xrReleaseSwapchainImage", ProcEntry::Implemented(XrFunction::ReleaseSwapchainImage)),
        ("xrEnumerateSwapchainFormats", ProcEntry::Stub(XrFunction::EnumerateSwapchainFormats)),
        ("xrEnumerateReferenceSpaces", ProcEntry::Stub(XrFunction::EnumerateReferenceSpaces)),
        ("xrCreateActionSpace", ProcEntry::Implemented(XrFunction::CreateActionSpace)),
        ("xrLocateSpace", ProcEntry::Implemented(XrFunction::LocateSpace)),
        ("xrEnumerateViewConfigurations", ProcEntry::Stub(XrFunction::EnumerateViewConfigurations)),
        ("xrEnumerateEnvironmentBlendModes", ProcEntry::Stub(XrFunction::EnumerateEnvironmentBlendModes)),
        ("xrGetViewConfigurationProperties", ProcEntry::Stub(XrFunction::GetViewConfigurationProperties)),
        ("xrEnumerateViewConfigurationViews", ProcEntry::Stub(XrFunction::EnumerateViewConfigurationViews)),
        ("xrBeginFrame", ProcEntry::Implemented(XrFunction::BeginFrame)),
        ("xrEndFrame", ProcEntry::Implemented(XrFunction::EndFrame)),
        ("xrWaitFrame", ProcEntry::Implemented(XrFunction::WaitFrame)),
        ("xrApplyHapticFeedback", ProcEntry::Stub(XrFunction::ApplyHapticFeedback)),
        ("xrStopHapticFeedback", ProcEntry::Stub(XrFunction::StopHapticFeedback)),
        ("xrPollEvent", ProcEntry::Stub(XrFunction::PollEvent)),
        ("xrStringToPath", ProcEntry::Implemented(XrFunction::StringToPath)),
        ("xrPathToString", ProcEntry::Stub(XrFunction::PathToString)),
        ("xrGetReferenceSpaceBoundsRect", ProcEntry::Stub(XrFunction::GetReferenceSpaceBoundsRect)),
        ("xrGetActionStateBoolean", ProcEntry::Implemented(XrFunction::GetActionStateBoolean)),
        ("xrGetActionStateFloat", ProcEntry::Implemented(XrFunction::GetActionStateFloat)),
        ("xrGetActionStateVector2f", ProcEntry::Stub(XrFunction::GetActionStateVector2f)),
        ("xrGetActionStatePose", ProcEntry::Stub(XrFunction::GetActionStatePose)),
        ("xrCreateActionSet", ProcEntry::Implemented(XrFunction::CreateActionSet)),
        ("xrDestroyActionSet", ProcEntry::Implemented(XrFunction::DestroyActionSet)),
        ("xrCreateAction", ProcEntry::Implemented(XrFunction::CreateAction)),
        ("xrDestroyAction", ProcEntry::Implemented(XrFunction::DestroyAction)),
        ("xrSuggestInteractionProfileBindings", ProcEntry::Implemented(XrFunction::SuggestInteractionProfileBindings)),
        ("xrAttachSessionActionSets", ProcEntry::Implemented(XrFunction::AttachSessionActionSets)),
        ("xrGetCurrentInteractionProfile", ProcEntry::Stub(XrFunction::GetCurrentInteractionProfile)),
        ("xrSyncActions", ProcEntry::Implemented(XrFunction::SyncActions)),
        ("xrEnumerateBoundSourcesForAction", ProcEntry::Stub(XrFunction::EnumerateBoundSourcesForAction)),
        ("xrGetInputSourceLocalizedName", ProcEntry::Stub(XrFunction::GetInputSourceLocalizedName)),
    ];
    assert(t@ =~= instance_table());
    t
}

/// Whether two strings hold the same characters.
fn str_eq(a: &str, b: &str) -> (r: bool)
    ensures
        r == (a@ == b@),
{
    let n = a.unicode_len();
    if n != b.unicode_len() {
        return false;
    }
    let mut i: usize = 0;
    while i < n
        invariant
            n == a@.len(),
            n == b@.len(),
            i <= n,
            forall|j: int| 0 <= j < i ==> a@[j] == b@[j],
        decreases n - i,
    {
        if a.get_char(i) != b.get_char(i) {
            return false;
        }
        i = i + 1;
    }
    assert(a@ =~= b@);
    true
}

/// Looks `name` up in `table`, first match first.
fn lookup(table: &Vec<(&'static str, ProcEntry)>, name: &str) -> (r: Option<ProcEntry>)
    ensures
        r == table_lookup(table@, name@),
{
    let mut i: usize = 0;
    assert(table@.skip(0) =~= table@);
    while i < table.len()
        invariant
            i <= table@.len(),
            table_lookup(table@, name@) == table_lookup(table@.skip(i as int), name@),
        decreases table@.len() - i,
    {
        assert(table@.skip(i as int).drop_first() =~= table@.skip(i + 1));
        if str_eq(table[i].0, name) {
            return Some(table[i].1);
        }
        i = i + 1;
    }
    None
}

/// What `get_instance_proc_addr` answers for `name` on instance handle
/// `instance`: without an instance (handle 0) only the entry points that
/// create an instance or enumerate what it could offer are served; with a
/// live instance the full table is; any other handle is invalid.
pub open spec fn proc_addr(m: Seq<Obj>, instance: u64, name: Seq<char>) -> Result<ProcEntry, XrError> {
    if instance == 0 {
        match table_lookup(null_instance_table(), name) {
            Some(e) => Ok(e),
            None => Err(XrError::HandleInvalid),
        }
    } else if !is_instance(m, instance) {
        Err(XrError::HandleInvalid)
    } else {
        match table_lookup(instance_table(), name) {
            Some(e) => Ok(e),
            None => Err(XrError::FunctionUnsupported),
        }
    }
}

/// Resolves the OpenXR function `name` for instance handle `instance`.
pub fn get_instance_proc_addr(rt: &Runtime, instance: u64, name: &str) -> (r: Result<
    ProcEntry,
    XrError,
>)
    ensures
        r == proc_addr(rt@, instance, name@),
{
    if instance == 0 {
        let table = null_instance_entries();
        match lookup(&table, name) {
            Some(e) => Ok(e),
            None => Err(XrError::HandleInvalid),
        }
    } else if !rt.is_instance(instance) {
        Err(XrError::HandleInvalid)
    } else {
        let table = instance_entries();
        match lookup(&table, name) {
            Some(e) => Ok(e),
            None => Err(XrError::FunctionUnsupported),
        }
    }
}

} // verus!
