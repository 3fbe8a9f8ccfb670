//! The decisions around the CUDA driver: the names of its result codes, the
//! error messages built from them, the one-time initialisation, and the plan
//! of the per-plane copies from a mapped EGL frame into a video buffer.

use vstd::prelude::*;
use vstd::string::*;
use crate::text::{decimal, push_decimal};

verus! {

/// The CUDA driver's result code for success.
pub const CUDA_SUCCESS: u32 = 0;

/// The name of a CUDA driver result code.
pub open spec fn cuda_result_name(result: u32) -> Seq<char> {
    if result == 0 {
        "CUDA_SUCCESS"@
    } else if result == 1 {
        "CUDA_ERROR_INVALID_VALUE"@
    } else if result == 2 {
        "CUDA_ERROR_OUT_OF_MEMORY"@
    } else if result == 3 {
        "CUDA_ERROR_NOT_INITIALIZED"@
    } else if result == 4 {
        "CUDA_ERROR_DEINITIALIZED"@
    } else if result == 100 {
        "CUDA_ERROR_NO_DEVICE"@
    } else if result == 101 {
        "CUDA_ERROR_INVALID_DEVICE"@
    } else if result == 200 {
        "CUDA_ERROR_INVALID_IMAGE"@
    } else if result == 201 {
        "CUDA_ERROR_INVALID_CONTEXT"@
    } else {
        "CUDA_ERROR_UNKNOWN"@
    }
}

/// The name of a CUDA driver result code (`"CUDA_ERROR_UNKNOWN"` for the codes it does not name).
pub fn cuda_result_to_string(result: u32) -> (r: &'static str)
    ensures
        r@ == cuda_result_name(result),
{
    match result {
        0 => "CUDA_SUCCESS",
        1 => "CUDA_ERROR_INVALID_VALUE",
        2 => "CUDA_ERROR_OUT_OF_MEMORY",
        3 => "CUDA_ERROR_NOT_INITIALIZED",
        4 => "CUDA_ERROR_DEINITIALIZED",
        100 => "CUDA_ERROR_NO_DEVICE",
        101 => "CUDA_ERROR_INVALID_DEVICE",
        200 => "CUDA_ERROR_INVALID_IMAGE",
        201 => "CUDA_ERROR_INVALID_CONTEXT",
        _ => "CUDA_ERROR_UNKNOWN",
    }
}

/// `"<context>: <name of the result code>"`.
pub open spec fn cuda_error_text(context: Seq<char>, result: u32) -> Seq<char> {
    context + ": "@ + cuda_result_name(result)
}

/// The message of a failed CUDA call: `"<context>: <name of the result code>"`.
pub fn cuda_error_message(context: &str, result: u32) -> (r: String)
    ensures
        r@ == cuda_error_text(context@, result),
{
    let mut m = String::from_str(context);
    m.append(": ");
    m.append(cuda_result_to_string(result));
    m
}

/// The outcome of a CUDA call: success for `CUDA_SUCCESS`, else the error
/// `"CUDA error: <name of the result code>"`.
pub fn cuda_outcome(result: u32) -> (r: Result<(), String>)
    ensures
        match r {
            Ok(()) => result == CUDA_SUCCESS,
            Err(m) => result != CUDA_SUCCESS && m@ == cuda_error_text("CUDA error"@, result),
        },
{
    if result != CUDA_SUCCESS {
        Err(cuda_error_message("CUDA error", result))
    } else {
        Ok(())
    }
}

/// `"Failed to copy plane <plane>: <name of the result code>"`.
pub open spec fn plane_copy_error_text(plane: nat, result: u32) -> Seq<char> {
    "Failed to copy plane "@ + decimal(plane) + ": "@ + cuda_result_name(result)
}

/// The message of a failed copy of one plane.
pub fn plane_copy_error_message(plane: usize, result: u32) -> (r: String)
    ensures
        r@ == plane_copy_error_text(plane as nat, result),
{
    let mut m = String::from_str("Failed to copy plane ");
    push_decimal(&mut m, plane as u64);
    m.append(": ");
    m.append(cuda_result_to_string(result));
    m
}

/// The next step of the one-time CUDA initialisation.
#[derive(Debug, Clone, Copy, PartialEq, Eq)]
pub enum CudaInitStep {
    /// Initialisation succeeded before: nothing to do.
    AlreadyInitialized,
    /// Call `cuInit(0)` and report its result with `CudaInit::driver_init_returned`.
    InitDriver,
}

/// Whether CUDA was initialised (the driver, GStreamer's CUDA library and
/// its memory allocator).
pub struct CudaInit {
    initialized: bool,
}

impl CudaInit {
    /// Whether initialisation succeeded.
    pub closed spec fn is_initialized(&self) -> bool {
        self.initialized
    }

    /// The step that a request for initialisation takes in a state.
    pub open spec fn step_in(initialized: bool) -> CudaInitStep {
        if initialized {
            CudaInitStep::AlreadyInitialized
        } else {
            CudaInitStep::InitDriver
        }
    }

    /// The state that recording `result` as what `cuInit(0)` returned leaves.
    pub closed spec fn after_driver_init(&self, result: u32) -> CudaInit {
        CudaInit { initialized: result == CUDA_SUCCESS }
    }

    /// Nothing is initialised yet.
    pub fn new() -> (r: CudaInit)
        ensures
            !r.is_initialized(),
    {
        CudaInit { initialized: false }
    }

    /// What a request for initialisation does now.
    pub fn begin(&self) -> (r: CudaInitStep)
        ensures
            r == Self::step_in(self.is_initialized()),
    {
        if self.initialized {
            CudaInitStep::AlreadyInitialized
        } else {
            CudaInitStep::InitDriver
        }
    }

    /// Records what `cuInit(0)` returned. On `CUDA_SUCCESS` the caller loads
    /// GStreamer's CUDA library and sets up its memory allocator, and CUDA
    /// counts as initialised; any other code is returned as the error and
    /// the next request tries again.
    pub fn driver_init_returned(&mut self, result: u32) -> (r: Result<(), u32>)
        requires
            !old(self).is_initialized(),
        ensures
            *final(self) == old(self).after_driver_init(result),
            final(self).is_initialized() == (result == CUDA_SUCCESS),
            match r {
                Ok(()) => result == CUDA_SUCCESS,
                Err(code) => result != CUDA_SUCCESS && code == result,
            },
    {
        if result == CUDA_SUCCESS {
            self.initialized = true;
            Ok(())
        } else {
            Err(result)
        }
    }
}

/// Initialisation happens once: a request on a fresh state calls `cuInit`;
/// after `driver_init_returned` recorded a success, every later request is
/// done at once; after it recorded a failure, the next request calls `cuInit` again.
pub proof fn lemma_cuda_init_once(s: CudaInit, result: u32)
    requires
        !s.is_initialized(),
    ensures
        CudaInit::step_in(s.is_initialized()) == CudaInitStep::InitDriver,
        result == CUDA_SUCCESS ==> CudaInit::step_in(s.after_driver_init(result).is_initialized())
            == CudaInitStep::AlreadyInitialized,
        result != CUDA_SUCCESS ==> CudaInit::step_in(s.after_driver_init(result).is_initialized())
            == CudaInitStep::InitDriver,
{
}

/// Where the copy of a plane reads from.
#[derive(Debug, Clone, Copy, PartialEq, Eq)]
pub enum CopySource {
    /// The frame's CUDA array of the plane.
    Array,
    /// The frame's device pointer of the plane, with the frame's pitch.
    Pitched { pitch: usize },
}

/// The parameters of the 2D copy of one plane into the mapped video buffer.
#[derive(Debug, Clone, Copy, PartialEq, Eq)]
pub struct PlaneCopy {
    /// The plane's index.
    pub plane: usize,
    /// Where the copy reads from.
    pub source: CopySource,
    /// The device address the copy writes to.
    pub dst_device: u64,
    /// The pitch of the destination.
    pub dst_pitch: usize,
    /// The width of a row, in bytes.
    pub width_in_bytes: usize,
    /// The number of rows.
    pub height: usize,
}

/// Why the copies cannot be planned.
#[derive(Debug, Clone, Copy, PartialEq, Eq)]
pub enum PlaneCopyError {
    /// The frame is neither a CUDA array frame nor a pitched one.
    UnsupportedFrameType,
}

impl PlaneCopyError {
    /// The error's message.
    pub fn message(&self) -> (r: &'static str)
        ensures
            r@ == "Unsupported EGL frame type"@,
    {
        "Unsupported EGL frame type"
    }
}

/// The frame type of a mapped EGL frame that is a CUDA array.
pub const EGL_FRAME_TYPE_ARRAY: u32 = 0;

/// The frame type of a mapped EGL frame that is a pitched device pointer.
pub const EGL_FRAME_TYPE_PITCH: u32 = 1;

/// The formats whose chroma planes have half the rows of the luma plane.
pub open spec fn is_half_height_format(name: Seq<char>) -> bool {
    name == "NV12"@ || name == "NV21"@ || name == "I420"@ || name == "YV12"@
}

/// Whether the chroma planes of the named video format have half the rows.
pub fn half_height_chroma(format_name: &str) -> (r: bool)
    ensures
        r == is_half_height_format(format_name@),
{
    let name = String::from_str(format_name);
    name == String::from_str("NV12") || name == String::from_str("NV21") || name
        == String::from_str("I420") || name == String::from_str("YV12")
}

/// The number of rows to copy of a plane: the frame's height for the first
/// plane, half of it for the other planes of NV12, NV21, I420 and YV12.
pub open spec fn plane_rows(plane: nat, height: u32, format_name: Seq<char>) -> usize {
    if plane == 0 {
        height as usize
    } else if is_half_height_format(format_name) {
        (height as usize) / 2
    } else {
        height as usize
    }
}

/// The copy of plane `p` of a frame of a supported type.
pub open spec fn plane_copy(
    p: int,
    frame_type: u32,
    frame_pitch: u32,
    dst_base: u64,
    offsets: Seq<usize>,
    strides: Seq<i32>,
    height: u32,
    format_name: Seq<char>,
) -> PlaneCopy {
    PlaneCopy {
        plane: p as usize,
        source: if frame_type == EGL_FRAME_TYPE_ARRAY {
            CopySource::Array
        } else {
            CopySource::Pitched { pitch: frame_pitch as usize }
        },
        dst_device: (dst_base + offsets[p]) as u64,
        dst_pitch: strides[p] as usize,
        width_in_bytes: strides[p] as usize,
        height: plane_rows(p as nat, height, format_name),
    }
}

/// The rows of each planned copy: the first plane has the frame's height;
/// every other plane has half of it for NV12, NV21, I420 and YV12 and all of
/// it for any other format. Each copy writes to the buffer's plane offset
/// with the buffer's stride as pitch and row width.
pub proof fn lemma_plane_copy_rows(
    p: int,
    frame_type: u32,
    frame_pitch: u32,
    dst_base: u64,
    offsets: Seq<usize>,
    strides: Seq<i32>,
    height: u32,
    format_name: Seq<char>,
)
    requires
        offsets.len() == 4,
        strides.len() == 4,
        0 <= p < 4,
        dst_base + offsets[p] <= u64::MAX,
    ensures
        ({
            let c = plane_copy(p, frame_type, frame_pitch, dst_base, offsets, strides, height, format_name);
            &&& p == 0 ==> c.height == height as usize
            &&& p >= 1 && (format_name == "NV12"@ || format_name == "NV21"@ || format_name == "I420"@
                || format_name == "YV12"@) ==> c.height == (height as usize) / 2
            &&& p >= 1 && !(format_name == "NV12"@ || format_name == "NV21"@ || format_name == "I420"@
                || format_name == "YV12"@) ==> c.height == height as usize
            &&& c.plane == p
            &&& c.dst_device == dst_base + offsets[p]
            &&& c.dst_pitch == strides[p] as usize
            &&& c.width_in_bytes == strides[p] as usize
        }),
{
}

/// Plans the copy of each plane of a mapped EGL frame into a video buffer
/// mapped at `dst_base`, with the buffer's plane offsets and strides. A
/// frame with planes that is neither an array frame nor a pitched one is refused.
pub fn plan_plane_copies(
    frame_type: u32,
    plane_count: u32,
    frame_pitch: u32,
    dst_base: u64,
    offsets: &[usize; 4],
    strides: &[i32; 4],
    height: u32,
    format_name: &str,
) -> (r: Result<Vec<PlaneCopy>, PlaneCopyError>)
    requires
        frame_type == EGL_FRAME_TYPE_ARRAY || frame_type == EGL_FRAME_TYPE_PITCH ==> plane_count <= 3,
        frame_type == EGL_FRAME_TYPE_ARRAY || frame_type == EGL_FRAME_TYPE_PITCH ==> forall|p: int|
            0 <= p < plane_count && p < 4 ==> dst_base + offsets@[p] <= u64::MAX,
    ensures
        match r {
            Ok(copies) => {
                &&& (frame_type == EGL_FRAME_TYPE_ARRAY || frame_type == EGL_FRAME_TYPE_PITCH
                    || plane_count == 0)
                &&& copies@.len() == plane_count
                &&& forall|p: int|
                    0 <= p < plane_count ==> #[trigger] copies@[p] == plane_copy(
                        p,
                        frame_type,
                        frame_pitch,
                        dst_base,
                        offsets@,
                        strides@,
                        height,
                        format_name@,
                    )
                &&& forall|p: int|
                    0 <= p < plane_count ==> {
                        &&& (#[trigger] copies@[p]).plane == p
                        &&& copies@[p].dst_device == dst_base + offsets@[p]
                        &&& copies@[p].dst_pitch == strides@[p] as usize
                        &&& copies@[p].width_in_bytes == strides@[p] as usize
                        &&& (frame_type == EGL_FRAME_TYPE_ARRAY ==> copies@[p].source
                            == CopySource::Array)
                        &&& (frame_type == EGL_FRAME_TYPE_PITCH ==> copies@[p].source
                            == CopySource::Pitched { pitch: frame_pitch as usize })
                        &&& (p == 0 ==> copies@[p].height == height as usize)
                        &&& (p >= 1 && is_half_height_format(format_name@) ==> copies@[p].height
                            == (height as usize) / 2)
                        &&& (p >= 1 && !is_half_height_format(format_name@) ==> copies@[p].height
                            == height as usize)
                    }
            },
            Err(e) => e == PlaneCopyError::UnsupportedFrameType && plane_count > 0 && frame_type
                != EGL_FRAME_TYPE_ARRAY && frame_type != EGL_FRAME_TYPE_PITCH,
        },
{
    let mut copies: Vec<PlaneCopy> = Vec::new();
    if plane_count == 0 {
        return Ok(copies);
    }
    if frame_type != EGL_FRAME_TYPE_ARRAY && frame_type != EGL_FRAME_TYPE_PITCH {
        return Err(PlaneCopyError::UnsupportedFrameType);
    }
    let half = half_height_chroma(format_name);
    let count = plane_count as usize;
    let mut p: usize = 0;
    while p < count
        invariant
            count == plane_count,
            count <= 3,
            p <= count,
            half == is_half_height_format(format_name@),
            frame_type == EGL_FRAME_TYPE_ARRAY || frame_type == EGL_FRAME_TYPE_PITCH,
            forall|q: int| 0 <= q < plane_count && q < 4 ==> dst_base + offsets@[q] <= u64::MAX,
            copies@.len() == p,
            forall|q: int|
                0 <= q < p ==> #[trigger] copies@[q] == plane_copy(
                    q,
                    frame_type,
                    frame_pitch,
                    dst_base,
                    offsets@,
                    strides@,
                    height,
                    format_name@,
                ),
        decreases count - p,
    {
        let source = if frame_type == EGL_FRAME_TYPE_ARRAY {
            CopySource::Array
        } else {
            CopySource::Pitched { pitch: frame_pitch as usize }
        };
        let rows = if p == 0 {
            height as usize
        } else if half {
            (height as usize) / 2
        } else {
            height as usize
        };
        let copy = PlaneCopy {
            plane: p,
            source,
            dst_device: dst_base + offsets[p] as u64,
            dst_pitch: strides[p] as usize,
            width_in_bytes: strides[p] as usize,
            height: rows,
        };
        copies.push(copy);
        p = p + 1;
    }
    Ok(copies)
}

/// Where the copy of a mapped EGL frame into new GStreamer memory stands.
#[derive(Debug, Clone, Copy, PartialEq, Eq)]
pub enum BufferStage {
    /// Waiting for the CUDA context to be pushed, to map the frame.
    PushForMap,
    /// Waiting for the EGL frame of the CUDA resource.
    MapFrame,
    /// Waiting for the DMA-BUF video info to be converted to a GStreamer video info.
    ConvertInfo,
    /// Waiting for the CUDA memory to be allocated.
    Allocate,
    /// Waiting for the memory to be mapped for writing.
    MapMemory,
    /// Waiting for the CUDA context to be pushed, to copy.
    PushForCopy,
    /// Waiting for the per-plane copies to be planned.
    PlanCopies,
    /// Copying the planes.
    Copy,
    /// Waiting for the CUDA stream to be synchronised.
    Synchronize,
    /// The memory holds the frame and is ready to go into a buffer.
    Done,
    /// The copy failed.
    Failed,
}

/// What happened at the step the copy waited for.
#[derive(Debug, Clone, Copy, PartialEq, Eq)]
pub enum BufferEvent {
    /// The CUDA context was pushed (`true`) or not.
    Pushed(bool),
    /// What `cuGraphicsResourceGetMappedEglFrame` returned.
    FrameMapped(u32),
    /// The video info was converted (`true`) or not.
    InfoConverted(bool),
    /// The memory was allocated (`true`) or not.
    Allocated(bool),
    /// The memory was mapped (`true`) or not.
    MemoryMapped(bool),
    /// The copies were planned (`true`) or the frame type is not supported.
    Planned(bool),
    /// What the copy of a plane returned.
    PlaneCopied(usize, u32),
    /// Every planned copy was made.
    CopiesDone,
    /// What `cuStreamSynchronize` returned.
    Synchronized(u32),
}

/// Why the copy failed.
#[derive(Debug, Clone, Copy, PartialEq, Eq)]
pub enum BufferError {
    PushFailed,
    FrameMapFailed(u32),
    InfoConversionFailed,
    AllocationFailed,
    MemoryMapFailed,
    UnsupportedFrameType,
    PlaneCopyFailed(usize, u32),
    SyncFailed(u32),
}

/// The message of a failed copy.
pub open spec fn buffer_error_text(e: BufferError) -> Seq<char> {
    match e {
        BufferError::PushFailed => "Failed to push CUDA context"@,
        BufferError::FrameMapFailed(r) => cuda_error_text(
            "Failed to get EGL frame from CUDA resource"@,
            r,
        ),
        BufferError::InfoConversionFailed => "Failed to convert DMA-BUF video info to GStreamer video info"@,
        BufferError::AllocationFailed => "Failed to allocate GST CUDA memory"@,
        BufferError::MemoryMapFailed => "Failed to map GStreamer CUDA memory"@,
        BufferError::UnsupportedFrameType => "Unsupported EGL frame type"@,
        BufferError::PlaneCopyFailed(p, r) => plane_copy_error_text(p as nat, r),
        BufferError::SyncFailed(r) => cuda_error_text("Failed to synchronize CUDA stream"@, r),
    }
}

impl BufferError {
    /// The error's message.
    pub fn message(&self) -> (r: String)
        ensures
            r@ == buffer_error_text(*self),
    {
        match *self {
            BufferError::PushFailed => String::from_str("Failed to push CUDA context"),
            BufferError::FrameMapFailed(r) => cuda_error_message(
                "Failed to get EGL frame from CUDA resource",
                r,
            ),
            BufferError::InfoConversionFailed => String::from_str(
                "Failed to convert DMA-BUF video info to GStreamer video info",
            ),
            BufferError::AllocationFailed => String::from_str("Failed to allocate GST CUDA memory"),
            BufferError::MemoryMapFailed => String::from_str("Failed to map GStreamer CUDA memory"),
            BufferError::UnsupportedFrameType => String::from_str("Unsupported EGL frame type"),
            BufferError::PlaneCopyFailed(p, r) => plane_copy_error_message(p, r),
            BufferError::SyncFailed(r) => cuda_error_message("Failed to synchronize CUDA stream", r),
        }
    }
}

/// What the caller releases after a step, before anything else.
#[derive(Debug, Clone, Copy, PartialEq, Eq)]
pub struct Release {
    /// Pop the CUDA context.
    pub pop_context: bool,
    /// Unmap the memory.
    pub unmap_memory: bool,
    /// Drop the caller's reference to the memory.
    pub unref_memory: bool,
}

/// What the caller does after a step (and its releases).
#[derive(Debug, Clone, Copy, PartialEq, Eq)]
pub enum BufferAction {
    /// Go on with the next step.
    Continue,
    /// Stop with this error.
    Fail(BufferError),
    /// Put the memory into a new buffer.
    Finish,
}

/// The copy of a mapped EGL frame into new GStreamer CUDA memory: the stage
/// and what it holds (a pushed CUDA context, the memory, the memory's mapping).
#[derive(Debug, Clone, Copy, PartialEq, Eq)]
pub struct BufferRun {
    pub stage: BufferStage,
    pub context_pushed: bool,
    pub memory_held: bool,
    pub memory_mapped: bool,
}

/// The run before its first step.
pub open spec fn buffer_run_start() -> BufferRun {
    BufferRun {
        stage: BufferStage::PushForMap,
        context_pushed: false,
        memory_held: false,
        memory_mapped: false,
    }
}

/// What a step releases: what the run held before and no longer holds after.
pub open spec fn released(before: BufferRun, after: BufferRun) -> Release {
    Release {
        pop_context: before.context_pushed && !after.context_pushed,
        unmap_memory: before.memory_mapped && !after.memory_mapped,
        unref_memory: before.memory_held && !after.memory_held,
    }
}

/// One step of the copy: the next run and what to do. The caller first
/// releases what the run no longer holds (`released`).
///
/// The holdings follow the copy as it is written: the context pushed to map
/// the frame is popped right after; memory that cannot be mapped is dropped;
/// a failure when the context is pushed for the copies, when the frame type
/// is not supported, or when a plane's copy fails releases nothing; a failed
/// synchronisation releases everything; a finished copy pops the context and
/// unmaps the memory, which then goes into the buffer. An event that the
/// stage does not wait for changes nothing.
pub open spec fn buffer_step(s: BufferRun, e: BufferEvent) -> (BufferRun, BufferAction) {
    let failed = BufferRun { stage: BufferStage::Failed, ..s };
    match (s.stage, e) {
        (BufferStage::PushForMap, BufferEvent::Pushed(ok)) => if ok {
            (BufferRun { stage: BufferStage::MapFrame, context_pushed: true, ..s }, BufferAction::Continue)
        } else {
            (failed, BufferAction::Fail(BufferError::PushFailed))
        },
        (BufferStage::MapFrame, BufferEvent::FrameMapped(r)) => if r == CUDA_SUCCESS {
            (BufferRun { stage: BufferStage::ConvertInfo, context_pushed: false, ..s }, BufferAction::Continue)
        } else {
            (BufferRun { stage: BufferStage::Failed, context_pushed: false, ..s }, BufferAction::Fail(BufferError::FrameMapFailed(r)))
        },
        (BufferStage::ConvertInfo, BufferEvent::InfoConverted(ok)) => if ok {
            (BufferRun { stage: BufferStage::Allocate, ..s }, BufferAction::Continue)
        } else {
            (failed, BufferAction::Fail(BufferError::InfoConversionFailed))
        },
        (BufferStage::Allocate, BufferEvent::Allocated(ok)) => if ok {
            (BufferRun { stage: BufferStage::MapMemory, memory_held: true, ..s }, BufferAction::Continue)
        } else {
            (failed, BufferAction::Fail(BufferError::AllocationFailed))
        },
        (BufferStage::MapMemory, BufferEvent::MemoryMapped(ok)) => if ok {
            (BufferRun { stage: BufferStage::PushForCopy, memory_mapped: true, ..s }, BufferAction::Continue)
        } else {
            (BufferRun { stage: BufferStage::Failed, memory_held: false, ..s }, BufferAction::Fail(BufferError::MemoryMapFailed))
        },
        (BufferStage::PushForCopy, BufferEvent::Pushed(ok)) => if ok {
            (BufferRun { stage: BufferStage::PlanCopies, context_pushed: true, ..s }, BufferAction::Continue)
        } else {
            (failed, BufferAction::Fail(BufferError::PushFailed))
        },
        (BufferStage::PlanCopies, BufferEvent::Planned(ok)) => if ok {
            (BufferRun { stage: BufferStage::Copy, ..s }, BufferAction::Continue)
        } else {
            (failed, BufferAction::Fail(BufferError::UnsupportedFrameType))
        },
        (BufferStage::Copy, BufferEvent::PlaneCopied(p, r)) => if r == CUDA_SUCCESS {
            (s, BufferAction::Continue)
        } else {
            (failed, BufferAction::Fail(BufferError::PlaneCopyFailed(p, r)))
        },
        (BufferStage::Copy, BufferEvent::CopiesDone) => (
            BufferRun { stage: BufferStage::Synchronize, ..s },
            BufferAction::Continue,
        ),
        (BufferStage::Synchronize, BufferEvent::Synchronized(r)) => if r == CUDA_SUCCESS {
            (BufferRun { stage: BufferStage::Done, context_pushed: false, memory_mapped: false, ..s }, BufferAction::Finish)
        } else {
            (
                BufferRun { stage: BufferStage::Failed, context_pushed: false, memory_held: false, memory_mapped: false },
                BufferAction::Fail(BufferError::SyncFailed(r)),
            )
        },
        _ => (s, BufferAction::Continue),
    }
}

/// The event that a stage waits for.
pub open spec fn waits_for(stage: BufferStage, e: BufferEvent) -> bool {
    match stage {
        BufferStage::PushForMap => e is Pushed,
        BufferStage::MapFrame => e is FrameMapped,
        BufferStage::ConvertInfo => e is InfoConverted,
        BufferStage::Allocate => e is Allocated,
        BufferStage::MapMemory => e is MemoryMapped,
        BufferStage::PushForCopy => e is Pushed,
        BufferStage::PlanCopies => e is Planned,
        BufferStage::Copy => e is PlaneCopied || e is CopiesDone,
        BufferStage::Synchronize => e is Synchronized,
        BufferStage::Done => false,
        BufferStage::Failed => false,
    }
}

/// The event reports that its step failed.
pub open spec fn reports_failure(e: BufferEvent) -> bool {
    match e {
        BufferEvent::Pushed(ok) => !ok,
        BufferEvent::FrameMapped(r) => r != CUDA_SUCCESS,
        BufferEvent::InfoConverted(ok) => !ok,
        BufferEvent::Allocated(ok) => !ok,
        BufferEvent::MemoryMapped(ok) => !ok,
        BufferEvent::Planned(ok) => !ok,
        BufferEvent::PlaneCopied(_, r) => r != CUDA_SUCCESS,
        BufferEvent::CopiesDone => false,
        BufferEvent::Synchronized(r) => r != CUDA_SUCCESS,
    }
}

/// The error of a failed step.
pub open spec fn failure_error(e: BufferEvent) -> BufferError {
    match e {
        BufferEvent::Pushed(_) => BufferError::PushFailed,
        BufferEvent::FrameMapped(r) => BufferError::FrameMapFailed(r),
        BufferEvent::InfoConverted(_) => BufferError::InfoConversionFailed,
        BufferEvent::Allocated(_) => BufferError::AllocationFailed,
        BufferEvent::MemoryMapped(_) => BufferError::MemoryMapFailed,
        BufferEvent::Planned(_) => BufferError::UnsupportedFrameType,
        BufferEvent::PlaneCopied(p, r) => BufferError::PlaneCopyFailed(p, r),
        BufferEvent::CopiesDone => BufferError::PushFailed,
        BufferEvent::Synchronized(r) => BufferError::SyncFailed(r),
    }
}

/// A failed step fails the copy: when the stage waits for an event that
/// reports a failure, the copy stops with that step's error.
pub proof fn lemma_failed_step_fails(s: BufferRun, e: BufferEvent)
    requires
        waits_for(s.stage, e),
        reports_failure(e),
    ensures
        buffer_step(s, e).0.stage == BufferStage::Failed,
        buffer_step(s, e).1 == BufferAction::Fail(failure_error(e)),
{
}

/// A successful step goes on: the copy neither fails nor gives an error.
pub proof fn lemma_successful_step_goes_on(s: BufferRun, e: BufferEvent)
    requires
        waits_for(s.stage, e),
        !reports_failure(e),
    ensures
        buffer_step(s, e).0.stage != BufferStage::Failed,
        !(buffer_step(s, e).1 is Fail),
{
}

/// A failed copy stays failed: every later event changes nothing and asks for nothing.
pub proof fn lemma_failed_copy_stays_failed(s: BufferRun, e: BufferEvent)
    requires
        s.stage == BufferStage::Failed,
    ensures
        buffer_step(s, e) == (s, BufferAction::Continue),
{
}

impl BufferRun {
    /// The run before its first step: nothing pushed, allocated or mapped.
    pub fn start() -> (r: BufferRun)
        ensures
            r == buffer_run_start(),
    {
        BufferRun {
            stage: BufferStage::PushForMap,
            context_pushed: false,
            memory_held: false,
            memory_mapped: false,
        }
    }

    /// Records what happened at the step the run waits for, and says what to
    /// release and what to do next.
    pub fn step(&mut self, e: BufferEvent) -> (r: (Release, BufferAction))
        ensures
            (*final(self), r.1) == buffer_step(*old(self), e),
            r.0 == released(*old(self), *final(self)),
            waits_for(old(self).stage, e) && reports_failure(e) ==> final(self).stage
                == BufferStage::Failed && r.1 == BufferAction::Fail(failure_error(e)),
            waits_for(old(self).stage, e) && !reports_failure(e) ==> final(self).stage
                != BufferStage::Failed && !(r.1 is Fail),
            old(self).stage == BufferStage::Failed ==> *final(self) == *old(self) && r.1
                == BufferAction::Continue,
    {
        let s = *self;
        let mut next = s;
        let action = match (s.stage, e) {
            (BufferStage::PushForMap, BufferEvent::Pushed(ok)) | (BufferStage::PushForCopy, BufferEvent::Pushed(ok)) => {
                if ok {
                    next.stage = if matches!(s.stage, BufferStage::PushForMap) {
                        BufferStage::MapFrame
                    } else {
                        BufferStage::PlanCopies
                    };
                    next.context_pushed = true;
                    BufferAction::Continue
                } else {
                    next.stage = BufferStage::Failed;
                    BufferAction::Fail(BufferError::PushFailed)
                }
            },
            (BufferStage::MapFrame, BufferEvent::FrameMapped(r)) => {
                next.context_pushed = false;
                if r == CUDA_SUCCESS {
                    next.stage = BufferStage::ConvertInfo;
                    BufferAction::Continue
                } else {
                    next.stage = BufferStage::Failed;
                    BufferAction::Fail(BufferError::FrameMapFailed(r))
                }
            },
            (BufferStage::ConvertInfo, BufferEvent::InfoConverted(ok)) => if ok {
                next.stage = BufferStage::Allocate;
                BufferAction::Continue
            } else {
                next.stage = BufferStage::Failed;
                BufferAction::Fail(BufferError::InfoConversionFailed)
            },
            (BufferStage::Allocate, BufferEvent::Allocated(ok)) => if ok {
                next.stage = BufferStage::MapMemory;
                next.memory_held = true;
                BufferAction::Continue
            } else {
                next.stage = BufferStage::Failed;
                BufferAction::Fail(BufferError::AllocationFailed)
            },
            (BufferStage::MapMemory, BufferEvent::MemoryMapped(ok)) => if ok {
                next.stage = BufferStage::PushForCopy;
                next.memory_mapped = true;
                BufferAction::Continue
            } else {
                next.stage = BufferStage::Failed;
                next.memory_held = false;
                BufferAction::Fail(BufferError::MemoryMapFailed)
            },
            (BufferStage::PlanCopies, BufferEvent::Planned(ok)) => if ok {
                next.stage = BufferStage::Copy;
                BufferAction::Continue
            } else {
                next.stage = BufferStage::Failed;
                BufferAction::Fail(BufferError::UnsupportedFrameType)
            },
            (BufferStage::Copy, BufferEvent::PlaneCopied(p, r)) => if r == CUDA_SUCCESS {
                BufferAction::Continue
            } else {
                next.stage = BufferStage::Failed;
                BufferAction::Fail(BufferError::PlaneCopyFailed(p, r))
            },
            (BufferStage::Copy, BufferEvent::CopiesDone) => {
                next.stage = BufferStage::Synchronize;
                BufferAction::Continue
            },
            (BufferStage::Synchronize, BufferEvent::Synchronized(r)) => {
                next.context_pushed = false;
                next.memory_mapped = false;
                if r == CUDA_SUCCESS {
                    next.stage = BufferStage::Done;
                    BufferAction::Finish
                } else {
                    next.stage = BufferStage::Failed;
                    next.memory_held = false;
                    BufferAction::Fail(BufferError::SyncFailed(r))
                }
            },
            _ => BufferAction::Continue,
        };
        let release = Release {
            pop_context: s.context_pushed && !next.context_pushed,
            unmap_memory: s.memory_mapped && !next.memory_mapped,
            unref_memory: s.memory_held && !next.memory_held,
        };
        *self = next;
        (release, action)
    }
}

/// The run after the given events, in order, from `s`.
pub open spec fn buffer_run(s: BufferRun, es: Seq<BufferEvent>) -> BufferRun
    decreases es.len(),
{
    if es.len() == 0 {
        s
    } else {
        buffer_step(buffer_run(s, es.drop_last()), es.last()).0
    }
}

/// What the run holds at each stage it can reach from the start.
pub open spec fn buffer_holdings_fit(s: BufferRun) -> bool {
    match s.stage {
        BufferStage::PushForMap => !s.context_pushed && !s.memory_held && !s.memory_mapped,
        BufferStage::MapFrame => s.context_pushed && !s.memory_held && !s.memory_mapped,
        BufferStage::ConvertInfo => !s.context_pushed && !s.memory_held && !s.memory_mapped,
        BufferStage::Allocate => !s.context_pushed && !s.memory_held && !s.memory_mapped,
        BufferStage::MapMemory => !s.context_pushed && s.memory_held && !s.memory_mapped,
        BufferStage::PushForCopy => !s.context_pushed && s.memory_held && s.memory_mapped,
        BufferStage::PlanCopies => s.context_pushed && s.memory_held && s.memory_mapped,
        BufferStage::Copy => s.context_pushed && s.memory_held && s.memory_mapped,
        BufferStage::Synchronize => s.context_pushed && s.memory_held && s.memory_mapped,
        BufferStage::Done => !s.context_pushed && s.memory_held && !s.memory_mapped,
        BufferStage::Failed => true,
    }
}

proof fn lemma_buffer_run_holdings(es: Seq<BufferEvent>)
    ensures
        buffer_holdings_fit(buffer_run(buffer_run_start(), es)),
    decreases es.len(),
{
    if es.len() > 0 {
        lemma_buffer_run_holdings(es.drop_last());
    }
}

/// Once failed, a run stays failed whatever events follow.
proof fn lemma_run_failed_stays(es: Seq<BufferEvent>, k: int)
    requires
        0 <= k <= es.len(),
        buffer_run(buffer_run_start(), es.take(k)).stage == BufferStage::Failed,
    ensures
        buffer_run(buffer_run_start(), es).stage == BufferStage::Failed,
    decreases es.len(),
{
    if k == es.len() {
        assert(es.take(k) =~= es);
    } else {
        assert(es.drop_last().take(k) =~= es.take(k));
        lemma_run_failed_stays(es.drop_last(), k);
    }
}

/// A copy finishes only if every step it waited for succeeded: no event that
/// the run waited for on the way reported a failure.
pub proof fn lemma_finished_copy_had_no_failure(es: Seq<BufferEvent>)
    requires
        buffer_run(buffer_run_start(), es).stage == BufferStage::Done,
    ensures
        forall|i: int|
            0 <= i < es.len() ==> !(waits_for(buffer_run(buffer_run_start(), es.take(i)).stage, es[i])
                && reports_failure(#[trigger] es[i])),
{
    assert forall|i: int|
        0 <= i < es.len() implies !(waits_for(buffer_run(buffer_run_start(), es.take(i)).stage, es[i])
        && reports_failure(#[trigger] es[i])) by {
        if waits_for(buffer_run(buffer_run_start(), es.take(i)).stage, es[i]) && reports_failure(es[i]) {
            let t = es.take(i + 1);
            assert(t.drop_last() =~= es.take(i));
            assert(t.last() == es[i]);
            lemma_failed_step_fails(buffer_run(buffer_run_start(), es.take(i)), es[i]);
            lemma_run_failed_stays(es, i + 1);
        }
    }
}

/// A copy that finishes has popped the CUDA context every time it pushed
/// it and unmapped the memory, and still holds the memory for the buffer,
/// whatever events led there.
pub proof fn lemma_finished_copy_releases(es: Seq<BufferEvent>)
    requires
        buffer_run(buffer_run_start(), es).stage == BufferStage::Done,
    ensures
        !buffer_run(buffer_run_start(), es).context_pushed,
        !buffer_run(buffer_run_start(), es).memory_mapped,
        buffer_run(buffer_run_start(), es).memory_held,
{
    lemma_buffer_run_holdings(es);
}

} // verus!
