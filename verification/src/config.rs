//! Resolved pipeline configuration: a snapshot of video, model and network
//! settings treated as immutable for the lifetime of one pipeline instance.

use vstd::prelude::*;

verus! {

/// Default name of the configuration file.
pub const DEFAULT_CONFIG_FILENAME: &'static str = "printnanny-gst.toml";

/// Default location of the configuration file.
pub const DEFAULT_CONFIG_PATH: &'static str = "/etc/printnanny/printnanny-gst.toml";

/// Environment variable that overrides the configuration file location.
pub const CONFIG_ENV_VAR: &'static str = "PRINTNANNY_GST_CONFIG";

/// Which kind of media source feeds the pipeline.
#[derive(Debug, Clone, PartialEq, Eq, Structural)]
pub enum VideoSrcType {
    File,
    Device,
    Uri,
}

/// Settings of the tensor-inference model: file locations, tensor shape and
/// the non-maximum-suppression threshold (an integer percentage, 0 to 100).
#[derive(Debug, Clone)]
pub struct TfliteModelConfig {
    pub label_file: String,
    pub model_file: String,
    pub nms_threshold: i32,
    pub tensor_batch_size: i32,
    pub tensor_channels: i32,
    pub tensor_height: i32,
    pub tensor_width: i32,
    pub tensor_framerate: u16,
}

impl TfliteModelConfig {
    /// Shape and threshold limits that every resolved model configuration obeys.
    pub open spec fn wf(&self) -> bool {
        &&& 0 <= self.nms_threshold <= 100
        &&& 0 < self.tensor_batch_size
        &&& 0 < self.tensor_channels
        &&& 0 < self.tensor_height
        &&& 0 < self.tensor_width
    }

    /// Field values of the default model configuration.
    pub open spec fn is_default(&self) -> bool {
        &&& self.label_file@ == "/usr/share/printnanny/model/labels.txt"@
        &&& self.model_file@ == "/usr/share/printnanny/model/model.tflite"@
        &&& self.nms_threshold == 50
        &&& self.tensor_batch_size == 40
        &&& self.tensor_channels == 3
        &&& self.tensor_height == 320
        &&& self.tensor_width == 320
        &&& self.tensor_framerate == 2
    }
}

impl Default for TfliteModelConfig {
    fn default() -> (r: Self)
        ensures
            r.is_default(),
            r.wf(),
    {
        TfliteModelConfig {
            label_file: String::from_str("/usr/share/printnanny/model/labels.txt"),
            model_file: String::from_str("/usr/share/printnanny/model/model.tflite"),
            nms_threshold: 50,
            tensor_batch_size: 40,
            tensor_channels: 3,
            tensor_height: 320,
            tensor_width: 320,
            tensor_framerate: 2,
        }
    }
}

/// The error raised when a configuration cannot be resolved or persisted.
/// Each variant carries the reporting subsystem's message.
#[derive(Debug, Clone)]
pub enum PrintNannyGstConfigError {
    FigmentError { msg: String },
    TomlSerError { msg: String },
    IoError { msg: String },
}

/// One resolved configuration snapshot for a pipeline instance.
///
/// `hls_http_enabled` has three states: `Some(true)` / `Some(false)` are
/// explicit choices, `None` asks the topology builder to go by a probe of the
/// external HTTP service.
#[derive(Debug, Clone)]
pub struct PrintNannyGstPipelineConfig {
    pub video_src: String,
    pub preview: bool,
    pub nats_server_uri: String,
    pub overlay_udp_port: u16,
    pub video_udp_port: u16,
    pub video_height: i32,
    pub video_width: i32,
    pub video_framerate: i32,
    pub hls_segments: String,
    pub hls_playlist: String,
    pub hls_playlist_root: String,
    pub hls_http_enabled: Option<bool>,
    pub video_src_type: VideoSrcType,
    pub tflite_model: TfliteModelConfig,
}

impl PrintNannyGstPipelineConfig {
    /// Limits that every resolved configuration obeys.
    pub open spec fn wf(&self) -> bool {
        &&& self.tflite_model.wf()
        &&& 0 < self.video_height
        &&& 0 < self.video_width
        &&& 0 < self.video_framerate
    }

    /// Field values of the default configuration.
    pub open spec fn is_default(&self) -> bool {
        &&& self.video_src@ == "/dev/video0"@
        &&& !self.preview
        &&& self.nats_server_uri@ == "nats://127.0.0.1:4223"@
        &&& self.overlay_udp_port == 20002
        &&& self.video_udp_port == 20001
        &&& self.video_height == 480
        &&& self.video_width == 640
        &&& self.video_framerate == 15
        &&& self.hls_segments@ == "/var/run/printnanny-hls/segment%05d.ts"@
        &&& self.hls_playlist@ == "/var/run/printnanny-hls/playlist.m3u8"@
        &&& self.hls_playlist_root@ == "/printnanny-hls/"@
        &&& self.hls_http_enabled is None
        &&& self.video_src_type == VideoSrcType::Device
        &&& self.tflite_model.is_default()
    }

    /// Resolve a configuration from built-in defaults alone. File and
    /// environment overlays are merged outside the library, which only
    /// ever sees the resolved snapshot.
    pub fn new() -> (r: Result<Self, PrintNannyGstConfigError>)
        ensures
            r is Ok,
            r matches Ok(c) ==> c.is_default() && c.wf(),
    {
        Ok(Self::default())
    }
}

impl Default for PrintNannyGstPipelineConfig {
    fn default() -> (r: Self)
        ensures
            r.is_default(),
            r.wf(),
    {
        PrintNannyGstPipelineConfig {
            video_src: String::from_str("/dev/video0"),
            preview: false,
            nats_server_uri: String::from_str("nats://127.0.0.1:4223"),
            overlay_udp_port: 20002,
            video_udp_port: 20001,
            video_height: 480,
            video_width: 640,
            video_framerate: 15,
            hls_segments: String::from_str("/var/run/printnanny-hls/segment%05d.ts"),
            hls_playlist: String::from_str("/var/run/printnanny-hls/playlist.m3u8"),
            hls_playlist_root: String::from_str("/printnanny-hls/"),
            hls_http_enabled: None,
            video_src_type: VideoSrcType::Device,
            tflite_model: TfliteModelConfig::default(),
        }
    }
}

} // verus!
