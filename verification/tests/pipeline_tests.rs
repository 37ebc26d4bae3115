use printnanny_gst::config::{PrintNannyGstPipelineConfig, VideoSrcType};
use printnanny_gst::lifecycle::{handle_event, run, ErrorMessage, PipelineEvent, PipelineState, RunnerAction};
use printnanny_gst::pipeline::{handle_pad_added, Capability, PadAddedOutcome, PipelineApp, PropValue};

fn app(src_type: VideoSrcType) -> PipelineApp {
    let mut config = PrintNannyGstPipelineConfig::default();
    config.video_src_type = src_type;
    PipelineApp { config }
}

/// Hardware fallback: when the hardware encode/convert stages cannot be
/// instantiated, the software equivalents are substituted and the graph
/// still comes back fully linked — asserted via graph completeness.
#[test]
fn hardware_fallback_still_complete() {
    let a = app(VideoSrcType::Device);
    for enc in [Capability::Available, Capability::Unavailable] {
        for conv in [Capability::Available, Capability::Unavailable] {
            for hls in [false, true] {
                let g = a.create_pipeline(enc, conv, hls);
                assert!(g.is_complete());
                assert!(g.pending.is_none());
            }
        }
    }
}

/// The capability probe decides the element, silently.
#[test]
fn capability_selection() {
    let a = app(VideoSrcType::Device);
    let hw = a.make_common_pipeline(Capability::Available, Capability::Available, false);
    assert_eq!(hw.stages[6].factory, "v4l2h264enc");
    assert_eq!(hw.stages[0].factory, "v4l2convert");
    let sw = a.make_common_pipeline(Capability::Unavailable, Capability::Unavailable, false);
    assert_eq!(sw.stages[6].factory, "openh264enc");
    assert_eq!(sw.stages[0].factory, "videoconvert");
}

/// The HTTP-segment sink appears exactly when enabled.
#[test]
fn hls_branch() {
    let a = app(VideoSrcType::Device);
    let with = a.make_common_pipeline(Capability::Unavailable, Capability::Unavailable, true);
    let without = a.make_common_pipeline(Capability::Unavailable, Capability::Unavailable, false);
    assert_eq!(with.stages.len(), 37);
    assert_eq!(without.stages.len(), 34);
    assert_eq!(with.stages[36].factory, "hlssink2");
    assert!(without.stages.iter().all(|s| s.factory != "hlssink2"));
}

/// A URI source defers its link; stream discovery completes the graph;
/// a callback firing after teardown is a no-op, not a crash.
#[test]
fn dynamic_link() {
    let a = app(VideoSrcType::Uri);
    let mut g = a.create_pipeline(Capability::Unavailable, Capability::Unavailable, false);
    assert!(!g.is_complete());
    assert!(g.pending.is_some());

    // Torn down already: no-op.
    let r = handle_pad_added(&mut g, false, true);
    assert_eq!(r, PadAddedOutcome::GraphGone);
    assert!(g.pending.is_some());

    // Alive and the engine links: fully wired.
    let r = handle_pad_added(&mut g, true, true);
    assert_eq!(r, PadAddedOutcome::Linked);
    assert!(g.pending.is_none());
    assert!(g.is_complete());
}

/// A failed late link is reported, not performed.
#[test]
fn dynamic_link_failure() {
    let a = app(VideoSrcType::File);
    let mut g = a.create_pipeline(Capability::Unavailable, Capability::Unavailable, false);
    let r = handle_pad_added(&mut g, true, false);
    assert_eq!(r, PadAddedOutcome::LinkFailed);
    assert!(!g.is_complete());
}

/// End of stream terminates the run cleanly after teardown.
#[test]
fn run_until_eos() {
    let events = vec![
        PipelineEvent::Other,
        PipelineEvent::StateChanged {
            src_is_pipeline: true,
            old_state: PipelineState::Ready,
            current: PipelineState::Playing,
            pending: PipelineState::Playing,
        },
        PipelineEvent::Eos,
        PipelineEvent::Error {
            src: "late".to_string(),
            error: "ignored after eos".to_string(),
            debug: None,
        },
    ];
    let (result, state) = run(&events);
    assert!(result.is_ok());
    assert_eq!(state, PipelineState::Null);
}

/// A fatal error — synchronous or late-binding — is normalized and
/// returned after teardown.
#[test]
fn run_until_error() {
    let events = vec![
        PipelineEvent::Other,
        PipelineEvent::Error {
            src: "/pipeline/uridecodebin3".to_string(),
            error: "Failed to insert sink".to_string(),
            debug: Some("pad link rejected".to_string()),
        },
        PipelineEvent::Eos,
    ];
    let (result, state) = run(&events);
    assert_eq!(state, PipelineState::Null);
    let e = result.unwrap_err();
    assert_eq!(e.src, "/pipeline/uridecodebin3");
    assert_eq!(e.error, "Failed to insert sink");
    assert_eq!(e.debug.as_deref(), Some("pad link rejected"));
    assert_eq!(
        e.to_message(),
        "Received error from /pipeline/uridecodebin3: Failed to insert sink (debug: pad link rejected)"
    );
}

/// Per-event verdicts: top-level state changes dump a snapshot, others
/// are consumed silently.
#[test]
fn event_verdicts() {
    let dump = handle_event(&PipelineEvent::StateChanged {
        src_is_pipeline: true,
        old_state: PipelineState::Null,
        current: PipelineState::Ready,
        pending: PipelineState::Playing,
    });
    assert!(matches!(dump, RunnerAction::DumpGraph));
    let quiet = handle_event(&PipelineEvent::StateChanged {
        src_is_pipeline: false,
        old_state: PipelineState::Null,
        current: PipelineState::Ready,
        pending: PipelineState::Playing,
    });
    assert!(matches!(quiet, RunnerAction::Continue));
    assert!(matches!(handle_event(&PipelineEvent::Other), RunnerAction::Continue));
    assert!(matches!(handle_event(&PipelineEvent::Eos), RunnerAction::StopEos));
}

/// The builder assigns the configured values: transport and overlay
/// ports, model and label files, publish address, input caps, threshold.
#[test]
fn configured_properties() {
    let mut config = PrintNannyGstPipelineConfig::default();
    config.video_udp_port = 21001;
    config.overlay_udp_port = 21002;
    config.nats_server_uri = "nats://example:4223".to_string();
    config.tflite_model.model_file = "/models/m.tflite".to_string();
    config.tflite_model.label_file = "/models/labels.txt".to_string();
    config.tflite_model.nms_threshold = 60;
    let a = PipelineApp { config };
    let g = a.make_common_pipeline(Capability::Unavailable, Capability::Unavailable, true);

    let prop = |i: usize, key: &str| -> &PropValue {
        &g.stages[i].props.iter().find(|(k, _)| k == key).unwrap().1
    };
    assert!(matches!(prop(3, "width"), PropValue::Int(640)));
    assert!(matches!(prop(3, "height"), PropValue::Int(480)));
    assert!(matches!(prop(3, "framerate"), PropValue::Fraction(15, 1)));
    assert!(matches!(prop(10, "port"), PropValue::Int(21001)));
    assert!(matches!(prop(29, "port"), PropValue::Int(21002)));
    assert!(matches!(prop(18, "model"), PropValue::Str(m) if m == "/models/m.tflite"));
    assert!(matches!(prop(21, "option2"), PropValue::Str(l) if l == "/models/labels.txt"));
    assert!(matches!(prop(21, "option3-threshold"), PropValue::Int(60)));
    assert!(matches!(
        prop(32, "filter-threshold-micros"),
        PropValue::UInt(600_000)
    ));
    assert!(matches!(prop(33, "nats-address"), PropValue::Str(n) if n == "nats://example:4223"));
    assert!(
        matches!(prop(36, "location"), PropValue::Str(p) if p == "/var/run/printnanny-hls/segment%05d.ts")
    );
}

/// The wiring fans out as designed: the input tee feeds the transport
/// and tensor branches, the tensor tee feeds the overlay and aggregation
/// branches, and the device source links into the entry stage.
#[test]
fn wiring_fanout() {
    let a = app(VideoSrcType::Device);
    let g = a.create_pipeline(Capability::Unavailable, Capability::Unavailable, false);
    let has_link = |f: usize, t: usize| g.links.iter().any(|l| l.from == f && l.to == t);
    // Input tee (4): transport branch and tensor branch.
    assert!(has_link(4, 5));
    assert!(has_link(4, 11));
    // Tensor tee (19): overlay branch and aggregation branch.
    assert!(has_link(19, 20));
    assert!(has_link(19, 30));
    // Aggregation chain ends in the publish sink.
    assert!(has_link(30, 31) && has_link(31, 32) && has_link(32, 33));
    // The device source (last stage) links into the entry synchronously.
    let src = g.stages.len() - 1;
    assert_eq!(g.stages[src].factory, "libcamerasrc");
    assert!(has_link(src, 0));
    assert!(g.pending.is_none());
}

/// A URI source carries its address and buffering toggle.
#[test]
fn uri_source_properties() {
    let mut config = PrintNannyGstPipelineConfig::default();
    config.video_src_type = VideoSrcType::Uri;
    config.video_src = "rtsp://cam/stream".to_string();
    let a = PipelineApp { config };
    let g = a.create_pipeline(Capability::Unavailable, Capability::Unavailable, false);
    let src = &g.stages[g.stages.len() - 1];
    assert_eq!(src.factory, "uridecodebin3");
    assert!(matches!(&src.props[0], (k, PropValue::Str(v)) if k == "caps" && v == "video/x-raw"));
    assert!(matches!(&src.props[1], (k, PropValue::Bool(true)) if k == "use-buffering"));
    assert!(matches!(&src.props[2], (k, PropValue::Str(v)) if k == "uri" && v == "rtsp://cam/stream"));
    // Not yet linked: the pending link targets the entry stage.
    let p = g.pending.unwrap();
    assert_eq!(p.to, 0);
    assert_eq!(p.from, g.stages.len() - 1);
    assert_eq!(g.stages[0].name, "videoconvert__input");
}

/// The transport payloaders carry a synchronization source drawn from
/// the 31-bit range.
#[test]
fn payloader_ssrc_in_range() {
    let a = app(VideoSrcType::Device);
    let g = a.make_common_pipeline(Capability::Unavailable, Capability::Unavailable, false);
    let mut seen = 0;
    for s in &g.stages {
        if s.factory == "rtph264pay" {
            for (k, v) in &s.props {
                if k == "ssrc" {
                    match v {
                        printnanny_gst::pipeline::PropValue::UInt(u) => {
                            assert!(*u <= 2147483647);
                            seen += 1;
                        }
                        _ => panic!("ssrc must be an unsigned value"),
                    }
                }
            }
        }
    }
    assert_eq!(seen, 2);
}

/// The error renderer includes source, message, and the debug detail
/// when present.
#[test]
fn error_message_render() {
    let e = ErrorMessage {
        src: "sink".to_string(),
        error: "boom".to_string(),
        debug: None,
    };
    assert_eq!(e.to_message(), "Received error from sink: boom");
    let d = ErrorMessage {
        src: "sink".to_string(),
        error: "boom".to_string(),
        debug: Some("detail".to_string()),
    };
    assert_eq!(e.debug, None);
    assert_eq!(d.to_message(), "Received error from sink: boom (debug: detail)");
}
