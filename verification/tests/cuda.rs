use wayland_display_core::cuda::{
    cuda_outcome, cuda_error_message, cuda_result_to_string, half_height_chroma,
    plan_plane_copies, plane_copy_error_message, CopySource, CudaInit, CudaInitStep, PlaneCopy,
    PlaneCopyError,
};

#[test]
fn result_names() {
    assert_eq!(cuda_result_to_string(0), "CUDA_SUCCESS");
    assert_eq!(cuda_result_to_string(1), "CUDA_ERROR_INVALID_VALUE");
    assert_eq!(cuda_result_to_string(2), "CUDA_ERROR_OUT_OF_MEMORY");
    assert_eq!(cuda_result_to_string(3), "CUDA_ERROR_NOT_INITIALIZED");
    assert_eq!(cuda_result_to_string(4), "CUDA_ERROR_DEINITIALIZED");
    assert_eq!(cuda_result_to_string(100), "CUDA_ERROR_NO_DEVICE");
    assert_eq!(cuda_result_to_string(101), "CUDA_ERROR_INVALID_DEVICE");
    assert_eq!(cuda_result_to_string(200), "CUDA_ERROR_INVALID_IMAGE");
    assert_eq!(cuda_result_to_string(201), "CUDA_ERROR_INVALID_CONTEXT");
    assert_eq!(cuda_result_to_string(5), "CUDA_ERROR_UNKNOWN");
    assert_eq!(cuda_result_to_string(999), "CUDA_ERROR_UNKNOWN");
}

#[test]
fn call_outcomes() {
    assert_eq!(cuda_outcome(0), Ok(()));
    assert_eq!(cuda_outcome(100), Err("CUDA error: CUDA_ERROR_NO_DEVICE".to_string()));
    assert_eq!(cuda_outcome(7), Err("CUDA error: CUDA_ERROR_UNKNOWN".to_string()));
}

#[test]
fn error_messages() {
    assert_eq!(
        cuda_error_message("CUDA initialization failed", 3),
        "CUDA initialization failed: CUDA_ERROR_NOT_INITIALIZED"
    );
    assert_eq!(plane_copy_error_message(1, 1), "Failed to copy plane 1: CUDA_ERROR_INVALID_VALUE");
    assert_eq!(plane_copy_error_message(12, 201), "Failed to copy plane 12: CUDA_ERROR_INVALID_CONTEXT");
}

#[test]
fn initialisation_happens_once() {
    let mut st = CudaInit::new();
    assert_eq!(st.begin(), CudaInitStep::InitDriver);
    assert_eq!(st.driver_init_returned(100), Err(100));
    assert_eq!(st.begin(), CudaInitStep::InitDriver);
    assert_eq!(st.driver_init_returned(0), Ok(()));
    assert_eq!(st.begin(), CudaInitStep::AlreadyInitialized);
    assert_eq!(st.begin(), CudaInitStep::AlreadyInitialized);
}

#[test]
fn half_height_formats() {
    for f in ["NV12", "NV21", "I420", "YV12"] {
        assert!(half_height_chroma(f));
    }
    for f in ["BGRx", "RGBA", "nv12", "NV12 ", "P010_10LE", ""] {
        assert!(!half_height_chroma(f));
    }
}

#[test]
fn plan_nv12_array_frame() {
    let offsets = [0usize, 1920 * 1080, 0, 0];
    let strides = [1920i32, 1920, 0, 0];
    let plan = plan_plane_copies(0, 2, 0, 0x1000, &offsets, &strides, 1080, "NV12").unwrap();
    assert_eq!(
        plan,
        vec![
            PlaneCopy {
                plane: 0,
                source: CopySource::Array,
                dst_device: 0x1000,
                dst_pitch: 1920,
                width_in_bytes: 1920,
                height: 1080,
            },
            PlaneCopy {
                plane: 1,
                source: CopySource::Array,
                dst_device: 0x1000 + 1920 * 1080,
                dst_pitch: 1920,
                width_in_bytes: 1920,
                height: 540,
            },
        ]
    );
}

#[test]
fn plan_pitched_frame_other_format() {
    let offsets = [16usize, 32, 64, 0];
    let strides = [4096i32, 2048, 2048, 0];
    let plan = plan_plane_copies(1, 3, 8192, 100, &offsets, &strides, 721, "Y444").unwrap();
    assert_eq!(plan.len(), 3);
    assert_eq!(plan[0].source, CopySource::Pitched { pitch: 8192 });
    assert_eq!(plan[0].dst_device, 116);
    assert_eq!(plan[0].height, 721);
    assert_eq!(plan[1].dst_device, 132);
    assert_eq!(plan[1].height, 721);
    assert_eq!(plan[2].dst_device, 164);
    assert_eq!(plan[2].dst_pitch, 2048);
    // An odd height halves down for the chroma planes of NV12.
    let plan = plan_plane_copies(1, 2, 8192, 0, &offsets, &strides, 721, "I420").unwrap();
    assert_eq!(plan[1].height, 360);
}

#[test]
fn plan_refuses_unknown_frame_type() {
    let offsets = [0usize; 4];
    let strides = [0i32; 4];
    assert_eq!(
        plan_plane_copies(2, 1, 0, 0, &offsets, &strides, 10, "NV12"),
        Err(PlaneCopyError::UnsupportedFrameType)
    );
    assert_eq!(PlaneCopyError::UnsupportedFrameType.message(), "Unsupported EGL frame type");
    // Without planes nothing is copied, whatever the type.
    assert_eq!(plan_plane_copies(7, 0, 0, 0, &offsets, &strides, 10, "NV12"), Ok(vec![]));
}

#[test]
fn plan_casts_a_negative_stride_like_as() {
    let offsets = [0usize; 4];
    let strides = [-1i32, 0, 0, 0];
    let plan = plan_plane_copies(0, 1, 0, 0, &offsets, &strides, 2, "NV12").unwrap();
    assert_eq!(plan[0].dst_pitch, -1i32 as usize);
}


use wayland_display_core::cuda::{
    BufferAction, BufferError, BufferEvent, BufferRun, BufferStage, Release,
};

fn rel(pop: bool, unmap: bool, unref: bool) -> Release {
    Release { pop_context: pop, unmap_memory: unmap, unref_memory: unref }
}

fn run_events(events: &[BufferEvent]) -> (BufferRun, Vec<(Release, BufferAction)>) {
    let mut run = BufferRun::start();
    let mut out = Vec::new();
    for e in events {
        out.push(run.step(*e));
    }
    (run, out)
}

#[test]
fn copy_run_success_releases_context_and_mapping() {
    let (run, steps) = run_events(&[
        BufferEvent::Pushed(true),
        BufferEvent::FrameMapped(0),
        BufferEvent::InfoConverted(true),
        BufferEvent::Allocated(true),
        BufferEvent::MemoryMapped(true),
        BufferEvent::Pushed(true),
        BufferEvent::Planned(true),
        BufferEvent::PlaneCopied(0, 0),
        BufferEvent::PlaneCopied(1, 0),
        BufferEvent::CopiesDone,
        BufferEvent::Synchronized(0),
    ]);
    assert_eq!(run.stage, BufferStage::Done);
    assert!(!run.context_pushed && !run.memory_mapped && run.memory_held);
    assert_eq!(steps[1], (rel(true, false, false), BufferAction::Continue));
    assert_eq!(steps[10], (rel(true, true, false), BufferAction::Finish));
}

#[test]
fn copy_run_failures() {
    let (_, s) = run_events(&[BufferEvent::Pushed(false)]);
    assert_eq!(s[0], (rel(false, false, false), BufferAction::Fail(BufferError::PushFailed)));
    assert_eq!(BufferError::PushFailed.message(), "Failed to push CUDA context");

    let (_, s) = run_events(&[BufferEvent::Pushed(true), BufferEvent::FrameMapped(201)]);
    assert_eq!(s[1], (rel(true, false, false), BufferAction::Fail(BufferError::FrameMapFailed(201))));
    assert_eq!(
        BufferError::FrameMapFailed(201).message(),
        "Failed to get EGL frame from CUDA resource: CUDA_ERROR_INVALID_CONTEXT"
    );

    let (_, s) = run_events(&[
        BufferEvent::Pushed(true),
        BufferEvent::FrameMapped(0),
        BufferEvent::InfoConverted(true),
        BufferEvent::Allocated(true),
        BufferEvent::MemoryMapped(false),
    ]);
    assert_eq!(s[4], (rel(false, false, true), BufferAction::Fail(BufferError::MemoryMapFailed)));
    assert_eq!(BufferError::MemoryMapFailed.message(), "Failed to map GStreamer CUDA memory");

    let prefix = [
        BufferEvent::Pushed(true),
        BufferEvent::FrameMapped(0),
        BufferEvent::InfoConverted(true),
        BufferEvent::Allocated(true),
        BufferEvent::MemoryMapped(true),
        BufferEvent::Pushed(true),
        BufferEvent::Planned(true),
    ];
    let mut ev = prefix.to_vec();
    ev.push(BufferEvent::PlaneCopied(1, 2));
    let (run, s) = run_events(&ev);
    assert_eq!(s[7], (rel(false, false, false), BufferAction::Fail(BufferError::PlaneCopyFailed(1, 2))));
    assert!(run.context_pushed && run.memory_mapped);
    assert_eq!(
        BufferError::PlaneCopyFailed(1, 2).message(),
        "Failed to copy plane 1: CUDA_ERROR_OUT_OF_MEMORY"
    );

    let mut ev = prefix.to_vec();
    ev.push(BufferEvent::CopiesDone);
    ev.push(BufferEvent::Synchronized(999));
    let (run, s) = run_events(&ev);
    assert_eq!(s[8], (rel(true, true, true), BufferAction::Fail(BufferError::SyncFailed(999))));
    assert!(!run.context_pushed && !run.memory_mapped && !run.memory_held);
    assert_eq!(
        BufferError::SyncFailed(999).message(),
        "Failed to synchronize CUDA stream: CUDA_ERROR_UNKNOWN"
    );

    let (_, s) = run_events(&[
        BufferEvent::Pushed(true),
        BufferEvent::FrameMapped(0),
        BufferEvent::InfoConverted(true),
        BufferEvent::Allocated(true),
        BufferEvent::MemoryMapped(true),
        BufferEvent::Pushed(true),
        BufferEvent::Planned(false),
    ]);
    assert_eq!(s[6], (rel(false, false, false), BufferAction::Fail(BufferError::UnsupportedFrameType)));
    assert_eq!(BufferError::InfoConversionFailed.message(), "Failed to convert DMA-BUF video info to GStreamer video info");
    assert_eq!(BufferError::AllocationFailed.message(), "Failed to allocate GST CUDA memory");
}

#[test]
fn copy_run_ignores_events_it_does_not_wait_for() {
    let mut run = BufferRun::start();
    let before = run;
    assert_eq!(run.step(BufferEvent::Synchronized(0)), (rel(false, false, false), BufferAction::Continue));
    assert_eq!(run, before);
    assert_eq!(run.step(BufferEvent::Pushed(true)), (rel(false, false, false), BufferAction::Continue));
    assert_eq!(run.stage, BufferStage::MapFrame);
    assert_eq!(run.step(BufferEvent::CopiesDone), (rel(false, false, false), BufferAction::Continue));
    assert_eq!(run.stage, BufferStage::MapFrame);
}
