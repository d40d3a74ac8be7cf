use frame_pipeline::manifest::{
    assembly_result, external_tool_args, select_backend, AssemblyError, AssemblyManifest, Backend,
};

#[test]
fn manifest_omits_the_missing_frame_and_keeps_the_order() {
    let manifest = AssemblyManifest::build(&vec![true, true, false, true, true]);
    assert_eq!(manifest.frames(), &vec![0, 1, 3, 4]);
    assert_eq!(manifest.len(), 4);
}

#[test]
fn manifest_of_a_job_without_gaps_lists_every_frame() {
    let manifest = AssemblyManifest::build(&vec![true; 6]);
    assert_eq!(manifest.frames(), &vec![0, 1, 2, 3, 4, 5]);
}

#[test]
fn manifest_of_a_job_without_frames_is_empty() {
    assert_eq!(AssemblyManifest::build(&vec![]).len(), 0);
    assert_eq!(AssemblyManifest::build(&vec![false, false, false]).len(), 0);
    assert_eq!(AssemblyManifest::build(&vec![]).native_text("downloads", "m"), "");
    assert_eq!(AssemblyManifest::build(&vec![false]).external_text(), "");
}

#[test]
fn manifest_is_strictly_increasing() {
    let exists: Vec<bool> = (0..50).map(|i| i % 3 != 1).collect();
    let manifest = AssemblyManifest::build(&exists);
    let frames = manifest.frames();
    for pair in frames.windows(2) {
        assert!(pair[0] < pair[1]);
    }
    for index in 0..50 {
        assert_eq!(frames.contains(&index), exists[index as usize]);
    }
}

#[test]
fn native_manifest_holds_one_frame_path_per_line() {
    let manifest = AssemblyManifest::build(&vec![true, true, false, true, true]);
    assert_eq!(
        manifest.native_text("downloads", "abc-123"),
        "downloads/abc-123/video0.jpeg\ndownloads/abc-123/video1.jpeg\n\
         downloads/abc-123/video3.jpeg\ndownloads/abc-123/video4.jpeg\n"
    );
}

#[test]
fn native_manifest_holds_absolute_paths_under_an_absolute_root() {
    let manifest = AssemblyManifest::build(&vec![false, true]);
    assert_eq!(manifest.native_text("/srv/frames", "m"), "/srv/frames/m/video1.jpeg\n");
}

#[test]
fn external_manifest_holds_one_file_directive_per_line() {
    let manifest = AssemblyManifest::build(&vec![true, true, false, true, true]);
    assert_eq!(
        manifest.external_text(),
        "file 'video0.jpeg'\nfile 'video1.jpeg'\nfile 'video3.jpeg'\nfile 'video4.jpeg'\n"
    );
}

#[test]
fn manifest_text_handles_indices_of_several_digits() {
    let mut exists = vec![false; 121];
    exists[9] = true;
    exists[10] = true;
    exists[120] = true;
    let manifest = AssemblyManifest::build(&exists);
    assert_eq!(
        manifest.external_text(),
        "file 'video9.jpeg'\nfile 'video10.jpeg'\nfile 'video120.jpeg'\n"
    );
}

#[test]
fn external_tool_is_preferred_where_it_is_available() {
    assert_eq!(select_backend(true), Backend::ExternalTool);
    assert_eq!(select_backend(false), Backend::Native);
}

#[test]
fn external_tool_is_asked_for_stream_copy_concatenation() {
    assert_eq!(
        external_tool_args("downloads/m/list.txt", "downloads/m.mp4"),
        vec![
            "-f",
            "concat",
            "-safe",
            "0",
            "-i",
            "downloads/m/list.txt",
            "-c",
            "copy",
            "downloads/m.mp4"
        ]
    );
}

#[test]
fn exit_code_zero_is_success_for_both_backends() {
    assert_eq!(assembly_result(Backend::Native, Some(0)), Ok(()));
    assert_eq!(assembly_result(Backend::ExternalTool, Some(0)), Ok(()));
}

#[test]
fn any_other_exit_code_is_an_assembly_error() {
    assert_eq!(
        assembly_result(Backend::Native, Some(1)),
        Err(AssemblyError { backend: Backend::Native })
    );
    assert_eq!(
        assembly_result(Backend::Native, Some(-1)),
        Err(AssemblyError { backend: Backend::Native })
    );
    assert_eq!(
        assembly_result(Backend::ExternalTool, Some(255)),
        Err(AssemblyError { backend: Backend::ExternalTool })
    );
}

#[test]
fn a_run_without_exit_code_is_an_assembly_error() {
    assert_eq!(
        assembly_result(Backend::ExternalTool, None),
        Err(AssemblyError { backend: Backend::ExternalTool })
    );
    assert_eq!(
        assembly_result(Backend::Native, None),
        Err(AssemblyError { backend: Backend::Native })
    );
}

#[test]
fn assembly_error_names_the_movie() {
    assert_eq!(
        AssemblyError { backend: Backend::Native }.message("abc-123"),
        "video processing failed for movie: abc-123"
    );
    assert_eq!(
        AssemblyError { backend: Backend::ExternalTool }.message("abc-123"),
        "FFmpeg execution failed for movie: abc-123"
    );
}
