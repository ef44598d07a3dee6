use wallscape::runtime::FitMode;
use wallscape::video::{
    describe_mpv_error_code, fit_mode_name, fit_mode_properties, fps_filter,
    initial_fit_mode_properties, mpv_error_name, readiness_step, readiness_timeout_message,
    validated_fps_cap, PlayerEvent, ReadinessStep,
};

#[test]
fn fit_modes_map_to_player_properties() {
    assert_eq!(fit_mode_name(FitMode::Fill), "fill");
    assert_eq!(fit_mode_properties("fit"), Ok(("yes", "0")));
    assert_eq!(fit_mode_properties("fill"), Ok(("no", "-1")));
    assert_eq!(fit_mode_properties("stretch"), Ok(("no", "0")));
    assert_eq!(
        fit_mode_properties("zoom"),
        Err("Invalid fit mode: zoom. Use 'fit', 'fill', or 'stretch'".to_string())
    );
    assert_eq!(initial_fit_mode_properties("zoom"), ("yes", "0"));
    assert_eq!(initial_fit_mode_properties("fill"), ("no", "-1"));
}

#[test]
fn frame_rate_caps_are_validated_and_written_as_filters() {
    assert_eq!(validated_fps_cap(Some(0)), None);
    assert_eq!(validated_fps_cap(Some(241)), None);
    assert_eq!(validated_fps_cap(Some(240)), Some(240));
    assert_eq!(validated_fps_cap(None), None);
    assert_eq!(fps_filter(Some(30)), "lavfi=[fps=30]");
    assert_eq!(fps_filter(None), "");
}

#[test]
fn player_error_codes_are_named() {
    assert_eq!(mpv_error_name(-13), "LoadingFailed");
    assert_eq!(mpv_error_name(-12), "CommandFailed");
    assert_eq!(mpv_error_name(-99), "UnknownMpvError");
    assert_eq!(describe_mpv_error_code(-9), "PropertyFormat (-9)");
}

#[test]
fn readiness_is_judged_from_player_events() {
    assert_eq!(readiness_step(PlayerEvent::VideoReconfig), ReadinessStep::Ready);
    assert_eq!(readiness_step(PlayerEvent::PlaybackRestart), ReadinessStep::Ready);
    assert_eq!(readiness_step(PlayerEvent::EndFile), ReadinessStep::Ended);
    assert_eq!(readiness_step(PlayerEvent::FileLoaded), ReadinessStep::Waiting);
    assert_eq!(readiness_step(PlayerEvent::Other), ReadinessStep::Waiting);
    assert_eq!(
        readiness_timeout_message("C:/v.mp4", false, &Vec::new()),
        "mpv did not report file load or video output readiness for 'C:/v.mp4' within 5s; events: <none>"
    );
    assert_eq!(
        readiness_timeout_message(
            "C:/v.mp4",
            true,
            &vec!["StartFile".to_string(), "FileLoaded".to_string()]
        ),
        "mpv loaded 'C:/v.mp4', but did not report video output readiness within 5s; events: StartFile, FileLoaded"
    );
}
