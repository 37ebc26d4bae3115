use printnanny_gst::config::{PrintNannyGstPipelineConfig, TfliteModelConfig, VideoSrcType};

/// Resolving from built-in defaults alone succeeds and yields the
/// documented default snapshot.
#[test]
fn new_resolves_defaults() {
    let c = PrintNannyGstPipelineConfig::new().unwrap();
    assert_eq!(c.video_src, "/dev/video0");
    assert_eq!(c.video_src_type, VideoSrcType::Device);
    assert_eq!(c.video_width, 640);
    assert_eq!(c.video_height, 480);
    assert_eq!(c.video_framerate, 15);
    assert_eq!(c.video_udp_port, 20001);
    assert_eq!(c.overlay_udp_port, 20002);
    assert_eq!(c.hls_http_enabled, None);
    assert_eq!(c.hls_segments, "/var/run/printnanny-hls/segment%05d.ts");
    assert_eq!(c.hls_playlist, "/var/run/printnanny-hls/playlist.m3u8");
    assert_eq!(c.hls_playlist_root, "/printnanny-hls/");
    assert_eq!(c.nats_server_uri, "nats://127.0.0.1:4223");
    assert!(!c.preview);
}

/// Default model settings: file locations, the 320x320 tensor shape and
/// the 50 percent suppression threshold.
#[test]
fn model_defaults() {
    let m = TfliteModelConfig::default();
    assert_eq!(m.label_file, "/usr/share/printnanny/model/labels.txt");
    assert_eq!(m.model_file, "/usr/share/printnanny/model/model.tflite");
    assert_eq!(m.nms_threshold, 50);
    assert_eq!(m.tensor_batch_size, 40);
    assert_eq!(m.tensor_channels, 3);
    assert_eq!(m.tensor_height, 320);
    assert_eq!(m.tensor_width, 320);
    assert_eq!(m.tensor_framerate, 2);
}
