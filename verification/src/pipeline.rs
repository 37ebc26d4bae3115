//! The pipeline topology builder: from a resolved configuration to a fully
//! wired, not-yet-playing processing graph.
//!
//! The graph is a directed graph of named stages with typed properties.
//! The media engine that executes it lives outside the library; the
//! builder's obligation, stated and proved here, is that every stage it
//! adds is linked into its chain: no port is left dangling, whichever
//! encode/convert capability the runtime probe reported and whether or not
//! the HTTP segment sink is enabled. For file and network sources the
//! source's outgoing link is deferred until the engine reports the
//! negotiated media type; the graph records that one pending link.

use vstd::prelude::*;
use rand::Rng;
use crate::config::{PrintNannyGstPipelineConfig, VideoSrcType};

verus! {

/// The outcome of probing the runtime for a hardware-accelerated stage.
#[derive(Debug, Clone, Copy, PartialEq, Eq, Structural)]
pub enum Capability {
    Available,
    Unavailable,
}

/// A typed property value of a stage; the engine adapter renders it.
#[derive(Debug, Clone, PartialEq, Eq)]
pub enum PropValue {
    Int(i64),
    UInt(u64),
    Str(String),
    Bool(bool),
    Fraction(i32, i32),
}

/// One stage of the processing graph.
#[derive(Debug, Clone)]
pub struct Stage {
    /// The element kind to instantiate, e.g. a converter or a sink.
    pub factory: String,
    /// Instance name, for later lookup; empty when unnamed.
    pub name: String,
    /// Property assignments applied before the graph starts.
    pub props: Vec<(String, PropValue)>,
    /// A stage with no input port (a media source).
    pub is_source: bool,
    /// A stage with no output port (a sink).
    pub is_sink: bool,
}

/// A directed connection from one stage's output to another's input.
#[derive(Debug, Clone, Copy, PartialEq, Eq, Structural)]
pub struct Link {
    pub from: usize,
    pub to: usize,
}

/// The processing graph: stages, the links wired so far, and at most one
/// link deferred until the source negotiates its media type.
#[derive(Debug, Clone)]
pub struct PipelineGraph {
    pub stages: Vec<Stage>,
    pub links: Vec<Link>,
    pub pending: Option<Link>,
}

/// Some link feeds stage `i`.
pub open spec fn has_incoming(g: PipelineGraph, i: int) -> bool {
    exists|k: int| 0 <= k < g.links@.len() && (#[trigger] g.links@[k]).to == i
}

/// Some link drains stage `i`.
pub open spec fn has_outgoing(g: PipelineGraph, i: int) -> bool {
    exists|k: int| 0 <= k < g.links@.len() && (#[trigger] g.links@[k]).from == i
}

/// Every link connects stages that exist.
pub open spec fn links_in_range(g: PipelineGraph) -> bool {
    forall|k: int|
        0 <= k < g.links@.len() ==> (#[trigger] g.links@[k]).from < g.stages@.len()
            && g.links@[k].to < g.stages@.len()
}

/// Stage `i` has all the connections its ports require, except that an
/// exempted stage (one whose input arrives by a later dynamic link) may
/// lack its incoming link.
pub open spec fn stage_wired(g: PipelineGraph, i: int, exempt: int) -> bool {
    &&& (g.stages@[i].is_source || i == exempt || has_incoming(g, i))
    &&& (g.stages@[i].is_sink || has_outgoing(g, i))
}

/// A fully linked graph but for the entry stage at `exempt`, which still
/// awaits its input.
pub open spec fn complete_except(g: PipelineGraph, exempt: int) -> bool {
    &&& links_in_range(g)
    &&& forall|i: int| 0 <= i < g.stages@.len() ==> #[trigger] stage_wired(g, i, exempt)
}

/// A fully linked graph: every non-source stage is fed, every non-sink
/// stage drains somewhere, and no link dangles.
pub open spec fn complete(g: PipelineGraph) -> bool {
    &&& links_in_range(g)
    &&& forall|i: int| 0 <= i < g.stages@.len() ==> #[trigger] stage_wired(g, i, -1)
}

impl PipelineGraph {
    /// An empty graph.
    pub fn empty() -> (g: Self)
        ensures
            g.stages@.len() == 0,
            g.links@.len() == 0,
            g.pending is None,
    {
        PipelineGraph { stages: Vec::new(), links: Vec::new(), pending: None }
    }

    /// Add a stage; its index is returned.
    pub fn add_stage(&mut self, stage: Stage) -> (idx: usize)
        ensures
            final(self).stages@ == old(self).stages@.push(stage),
            final(self).links == old(self).links,
            final(self).pending == old(self).pending,
            idx == old(self).stages@.len(),
    {
        let idx = self.stages.len();
        self.stages.push(stage);
        idx
    }

    /// Wire one link from `from`'s output to `to`'s input.
    pub fn link(&mut self, from: usize, to: usize)
        requires
            from < old(self).stages@.len(),
            to < old(self).stages@.len(),
        ensures
            final(self).stages == old(self).stages,
            final(self).links@ == old(self).links@.push(Link { from, to }),
            final(self).pending == old(self).pending,
    {
        self.links.push(Link { from, to });
    }

    /// Decide whether the graph is fully linked.
    pub fn is_complete(&self) -> (r: bool)
        ensures
            r == complete(*self),
    {
        let n = self.stages.len();
        let m = self.links.len();
        let mut k: usize = 0;
        while k < m
            invariant
                k <= m,
                m == self.links@.len(),
                n == self.stages@.len(),
                forall|j: int|
                    0 <= j < k ==> (#[trigger] self.links@[j]).from < n && self.links@[j].to < n,
            decreases m - k,
        {
            if self.links[k].from >= n || self.links[k].to >= n {
                return false;
            }
            k = k + 1;
        }
        let mut i: usize = 0;
        while i < n
            invariant
                i <= n,
                n == self.stages@.len(),
                m == self.links@.len(),
                links_in_range(*self),
                forall|j: int| 0 <= j < i ==> #[trigger] stage_wired(*self, j, -1),
            decreases n - i,
        {
            if !self.stages[i].is_source {
                let mut found: bool = false;
                let mut k: usize = 0;
                while k < m
                    invariant
                        k <= m,
                        m == self.links@.len(),
                        found == exists|j: int|
                            0 <= j < k && (#[trigger] self.links@[j]).to == i as int,
                    decreases m - k,
                {
                    if self.links[k].to == i {
                        found = true;
                    }
                    k = k + 1;
                }
                if !found {
                    proof {
                        assert(!has_incoming(*self, i as int));
                        assert(!stage_wired(*self, i as int, -1));
                    }
                    return false;
                }
            }
            if !self.stages[i].is_sink {
                let mut found: bool = false;
                let mut k: usize = 0;
                while k < m
                    invariant
                        k <= m,
                        m == self.links@.len(),
                        found == exists|j: int|
                            0 <= j < k && (#[trigger] self.links@[j]).from == i as int,
                    decreases m - k,
                {
                    if self.links[k].from == i {
                        found = true;
                    }
                    k = k + 1;
                }
                if !found {
                    proof {
                        assert(!has_outgoing(*self, i as int));
                        assert(!stage_wired(*self, i as int, -1));
                    }
                    return false;
                }
            }
            i = i + 1;
        }
        true
    }
}

/// Select the encode stage: the hardware encoder when the probe found
/// one, else the software fallback (an informational substitution, not an
/// error).
pub fn detect_h264_encoder(probe: Capability) -> (r: &'static str)
    ensures
        probe == Capability::Available ==> r@ == "v4l2h264enc"@,
        probe == Capability::Unavailable ==> r@ == "openh264enc"@,
{
    match probe {
        Capability::Available => "v4l2h264enc",
        Capability::Unavailable => "openh264enc",
    }
}

/// Select the convert stage: hardware when available, software otherwise.
pub fn detect_vconverter(probe: Capability) -> (r: &'static str)
    ensures
        probe == Capability::Available ==> r@ == "v4l2convert"@,
        probe == Capability::Unavailable ==> r@ == "videoconvert"@,
{
    match probe {
        Capability::Available => "v4l2convert",
        Capability::Unavailable => "videoconvert",
    }
}

/// Resolve the HTTP-segment-sink toggle: an explicit setting wins; absent
/// one, the cached result of probing the external web service decides.
pub fn resolve_hls_http_enabled(explicit: Option<bool>, probe: bool) -> (r: bool)
    ensures
        r == (match explicit {
            Some(v) => v,
            None => probe,
        }),
{
    match explicit {
        Some(v) => v,
        None => probe,
    }
}

/// Relies on rand's `Rng::gen_range` over `0..=2147483647`: the sample
/// lies within the requested inclusive range.
#[verifier::external_body]
fn random_ssrc() -> (r: u32)
    ensures
        r <= 2147483647,
{
    rand::thread_rng().gen_range(0..=2147483647u32)
}

fn plain_stage(factory: &str, name: &str) -> (s: Stage)
    ensures
        s.factory@ == factory@,
        s.name@ == name@,
        s.props@.len() == 0,
        !s.is_source,
        !s.is_sink,
{
    Stage {
        factory: String::from_str(factory),
        name: String::from_str(name),
        props: Vec::new(),
        is_source: false,
        is_sink: false,
    }
}

fn sink_stage(factory: &str, name: &str) -> (s: Stage)
    ensures
        s.factory@ == factory@,
        s.name@ == name@,
        s.props@.len() == 0,
        !s.is_source,
        s.is_sink,
{
    Stage {
        factory: String::from_str(factory),
        name: String::from_str(name),
        props: Vec::new(),
        is_source: false,
        is_sink: true,
    }
}

fn push_prop(s: &mut Stage, key: &str, value: PropValue)
    ensures
        final(s).factory == old(s).factory,
        final(s).name == old(s).name,
        final(s).is_source == old(s).is_source,
        final(s).is_sink == old(s).is_sink,
        final(s).props@.len() == old(s).props@.len() + 1,
        forall|i: int| 0 <= i < old(s).props@.len() ==> final(s).props@[i] == old(s).props@[i],
        final(s).props@.last().0@ == key@,
        final(s).props@.last().1 == value,
{
    s.props.push((String::from_str(key), value));
}

/// Property `i` of the stage is `key` with the given integer value.
pub open spec fn prop_int(st: Stage, i: int, key: Seq<char>, v: i64) -> bool {
    &&& 0 <= i < st.props@.len()
    &&& st.props@[i].0@ == key
    &&& st.props@[i].1 == PropValue::Int(v)
}

/// Property `i` of the stage is `key` with the given unsigned value.
pub open spec fn prop_uint(st: Stage, i: int, key: Seq<char>, v: u64) -> bool {
    &&& 0 <= i < st.props@.len()
    &&& st.props@[i].0@ == key
    &&& st.props@[i].1 == PropValue::UInt(v)
}

/// Property `i` of the stage is `key` with the given truth value.
pub open spec fn prop_bool(st: Stage, i: int, key: Seq<char>, v: bool) -> bool {
    &&& 0 <= i < st.props@.len()
    &&& st.props@[i].0@ == key
    &&& st.props@[i].1 == PropValue::Bool(v)
}

/// Property `i` of the stage is `key` with the given fraction.
pub open spec fn prop_frac(st: Stage, i: int, key: Seq<char>, n: i32, d: i32) -> bool {
    &&& 0 <= i < st.props@.len()
    &&& st.props@[i].0@ == key
    &&& st.props@[i].1 == PropValue::Fraction(n, d)
}

/// Property `i` of the stage is `key` with the given text value.
pub open spec fn prop_str(st: Stage, i: int, key: Seq<char>, v: Seq<char>) -> bool {
    &&& 0 <= i < st.props@.len()
    &&& st.props@[i].0@ == key
    &&& st.props@[i].1 matches PropValue::Str(x) && x@ == v
}

/// Number of stages of the common graph (the full graph less its source).
pub open spec fn common_stage_count(hls_enabled: bool) -> int {
    if hls_enabled {
        37
    } else {
        34
    }
}

/// The complete wiring of the common graph, link by link: the decode
/// chain into the input tee; the transport branch (teed into the segment
/// sink when enabled); the tensor branch from the input tee; and, from
/// the tensor tee, the overlay branch and the aggregation branch.
pub open spec fn common_links(hls_enabled: bool) -> Seq<Link> {
    if hls_enabled {
        seq![
            Link { from: 0, to: 1 },
            Link { from: 1, to: 2 },
            Link { from: 2, to: 3 },
            Link { from: 3, to: 4 },
            Link { from: 4, to: 5 },
            Link { from: 5, to: 6 },
            Link { from: 6, to: 7 },
            Link { from: 7, to: 34 },
            Link { from: 34, to: 35 },
            Link { from: 35, to: 36 },
            Link { from: 34, to: 8 },
            Link { from: 8, to: 9 },
            Link { from: 9, to: 10 },
            Link { from: 4, to: 11 },
            Link { from: 11, to: 12 },
            Link { from: 12, to: 13 },
            Link { from: 13, to: 14 },
            Link { from: 14, to: 15 },
            Link { from: 15, to: 16 },
            Link { from: 16, to: 17 },
            Link { from: 17, to: 18 },
            Link { from: 18, to: 19 },
            Link { from: 19, to: 20 },
            Link { from: 20, to: 21 },
            Link { from: 21, to: 22 },
            Link { from: 22, to: 23 },
            Link { from: 23, to: 24 },
            Link { from: 24, to: 25 },
            Link { from: 25, to: 26 },
            Link { from: 26, to: 27 },
            Link { from: 27, to: 28 },
            Link { from: 28, to: 29 },
            Link { from: 19, to: 30 },
            Link { from: 30, to: 31 },
            Link { from: 31, to: 32 },
            Link { from: 32, to: 33 },
        ]
    } else {
        seq![
            Link { from: 0, to: 1 },
            Link { from: 1, to: 2 },
            Link { from: 2, to: 3 },
            Link { from: 3, to: 4 },
            Link { from: 4, to: 5 },
            Link { from: 5, to: 6 },
            Link { from: 6, to: 7 },
            Link { from: 7, to: 8 },
            Link { from: 8, to: 9 },
            Link { from: 9, to: 10 },
            Link { from: 4, to: 11 },
            Link { from: 11, to: 12 },
            Link { from: 12, to: 13 },
            Link { from: 13, to: 14 },
            Link { from: 14, to: 15 },
            Link { from: 15, to: 16 },
            Link { from: 16, to: 17 },
            Link { from: 17, to: 18 },
            Link { from: 18, to: 19 },
            Link { from: 19, to: 20 },
            Link { from: 20, to: 21 },
            Link { from: 21, to: 22 },
            Link { from: 22, to: 23 },
            Link { from: 23, to: 24 },
            Link { from: 24, to: 25 },
            Link { from: 25, to: 26 },
            Link { from: 26, to: 27 },
            Link { from: 27, to: 28 },
            Link { from: 28, to: 29 },
            Link { from: 19, to: 30 },
            Link { from: 30, to: 31 },
            Link { from: 31, to: 32 },
            Link { from: 32, to: 33 },
        ]
    }
}

/// The common graph's stages carry the configuration: the selected
/// convert and encode elements, the input caps from the video settings,
/// the transport and overlay ports, the model and label files, the
/// suppression threshold (as a score threshold in millionths), the
/// bounded payloader synchronization sources, the publish address, and
/// the segment-sink paths when enabled.
pub open spec fn common_stages_ok(
    g: PipelineGraph,
    cfg: PrintNannyGstPipelineConfig,
    encoder_cap: Capability,
    vconverter_cap: Capability,
    hls_enabled: bool,
) -> bool {
    &&& g.stages@.len() >= common_stage_count(hls_enabled)
    &&& g.stages@[0].name@ == "videoconvert__input"@
    &&& !g.stages@[0].is_source && !g.stages@[0].is_sink
    &&& g.stages@[0].factory@ == (if vconverter_cap == Capability::Available {
        "v4l2convert"@
    } else {
        "videoconvert"@
    })
    &&& prop_int(g.stages@[3], 0, "width"@, cfg.video_width as i64)
    &&& prop_int(g.stages@[3], 1, "height"@, cfg.video_height as i64)
    &&& prop_frac(g.stages@[3], 2, "framerate"@, cfg.video_framerate, 1)
    &&& g.stages@[4].factory@ == "tee"@
    &&& g.stages@[6].factory@ == (if encoder_cap == Capability::Available {
        "v4l2h264enc"@
    } else {
        "openh264enc"@
    })
    &&& g.stages@[9].factory@ == "rtph264pay"@
    &&& 4 <= g.stages@[9].props@.len()
    &&& g.stages@[9].props@[3].0@ == "ssrc"@
    &&& (g.stages@[9].props@[3].1 matches PropValue::UInt(u) && u <= 2147483647)
    &&& g.stages@[10].factory@ == "udpsink"@ && g.stages@[10].is_sink
    &&& prop_int(g.stages@[10], 0, "port"@, cfg.video_udp_port as i64)
    &&& g.stages@[18].factory@ == "tensor_filter"@
    &&& prop_str(g.stages@[18], 1, "model"@, cfg.tflite_model.model_file@)
    &&& g.stages@[19].factory@ == "tee"@
    &&& g.stages@[21].factory@ == "tensor_decoder"@
    &&& prop_str(g.stages@[21], 2, "option2"@, cfg.tflite_model.label_file@)
    &&& prop_int(g.stages@[21], 4, "option3-threshold"@, cfg.tflite_model.nms_threshold as i64)
    &&& g.stages@[27].factory@ == "rtph264pay"@
    &&& 4 <= g.stages@[27].props@.len()
    &&& g.stages@[27].props@[3].0@ == "ssrc"@
    &&& (g.stages@[27].props@[3].1 matches PropValue::UInt(u2) && u2 <= 2147483647)
    &&& g.stages@[29].factory@ == "udpsink"@ && g.stages@[29].is_sink
    &&& prop_int(g.stages@[29], 0, "port"@, cfg.overlay_udp_port as i64)
    &&& g.stages@[31].factory@ == "tensor_decoder"@
    &&& prop_str(g.stages@[31], 1, "option1"@, "printnanny_bb_dataframe_decoder"@)
    &&& g.stages@[32].factory@ == "dataframe_agg"@
    &&& prop_uint(
        g.stages@[32],
        0,
        "filter-threshold-micros"@,
        ((cfg.tflite_model.nms_threshold as u64) * 10_000) as u64,
    )
    &&& g.stages@[33].factory@ == "nats_sink"@ && g.stages@[33].is_sink
    &&& prop_str(g.stages@[33], 0, "nats-address"@, cfg.nats_server_uri@)
    &&& (hls_enabled ==> {
        &&& g.stages@[34].factory@ == "tee"@
        &&& g.stages@[36].factory@ == "hlssink2"@ && g.stages@[36].is_sink
        &&& prop_str(g.stages@[36], 0, "location"@, cfg.hls_segments@)
        &&& prop_str(g.stages@[36], 1, "playlist-location"@, cfg.hls_playlist@)
        &&& prop_str(g.stages@[36], 2, "playlist-root"@, cfg.hls_playlist_root@)
    })
}

/// A camera-device source stage: linked synchronously, no properties.
pub open spec fn device_source_ok(s: Stage) -> bool {
    &&& s.is_source && !s.is_sink
    &&& s.factory@ == "libcamerasrc"@
    &&& s.props@.len() == 0
}

/// A file or network source stage: a buffered URI decoder carrying the
/// configured source address, whose output appears only at stream
/// discovery.
pub open spec fn uri_source_ok(s: Stage, cfg: PrintNannyGstPipelineConfig) -> bool {
    &&& s.is_source && !s.is_sink
    &&& s.factory@ == "uridecodebin3"@
    &&& prop_str(s, 0, "caps"@, "video/x-raw"@)
    &&& prop_bool(s, 1, "use-buffering"@, true)
    &&& prop_str(s, 2, "uri"@, cfg.video_src@)
}

/// A graph whose one deferred link is the only wiring still missing: its
/// target's input and its origin's output wait for stream discovery,
/// everything else is fully linked.
pub open spec fn complete_pending(g: PipelineGraph) -> bool {
    &&& g.pending matches Some(l) && l.from < g.stages@.len() && l.to < g.stages@.len()
    &&& links_in_range(g)
    &&& forall|i: int|
        0 <= i < g.stages@.len() ==> (((#[trigger] g.stages@[i]).is_source || i
            == g.pending->Some_0.to || has_incoming(g, i)) && (g.stages@[i].is_sink || i
            == g.pending->Some_0.from || has_outgoing(g, i)))
}

/// What became of a deferred link when the source reported its stream.
#[derive(Debug, Clone, Copy, PartialEq, Eq, Structural)]
pub enum PadAddedOutcome {
    /// The graph was already torn down; nothing to do, not an error.
    GraphGone,
    /// The deferred link is wired; the graph is fully linked.
    Linked,
    /// The engine refused the link; report on the error channel.
    LinkFailed,
}

/// Perform the deferred dynamic link once the source's stream is known.
///
/// The callback runs on an arbitrary worker thread holding only a
/// non-owning reference: a graph that is already gone is a no-op, and an
/// engine-side link failure leaves the graph for the error channel to
/// report, since the graph may already be playing.
pub fn handle_pad_added(g: &mut PipelineGraph, alive: bool, link_ok: bool) -> (r: PadAddedOutcome)
    requires
        complete_pending(*old(g)),
    ensures
        !alive ==> r == PadAddedOutcome::GraphGone && *final(g) == *old(g),
        alive && !link_ok ==> r == PadAddedOutcome::LinkFailed && *final(g) == *old(g),
        alive && link_ok ==> r == PadAddedOutcome::Linked && complete(*final(g)) && (final(
            g
        ).pending is None) && final(g).stages == old(g).stages,
{
    if !alive {
        return PadAddedOutcome::GraphGone;
    }
    if !link_ok {
        return PadAddedOutcome::LinkFailed;
    }
    let l = match &g.pending {
        Some(l) => Link { from: l.from, to: l.to },
        None => {
            proof {
                assert(false);
            }
            Link { from: 0, to: 0 }
        },
    };
    g.pending = None;
    let ghost before = *g;
    g.links.push(l);
    proof {
        let gg = *g;
        assert(gg.links@ == before.links@.push(l));
        assert forall|i: int| 0 <= i < gg.stages@.len() implies #[trigger] stage_wired(
            gg,
            i,
            -1,
        ) by {
            if !gg.stages@[i].is_source && !has_incoming(before, i) {
                assert(i == l.to || gg.stages@[i].is_source || has_incoming(before, i));
            }
            if has_incoming(before, i) {
                let k = choose|k: int|
                    0 <= k < before.links@.len() && (#[trigger] before.links@[k]).to == i;
                assert(gg.links@[k].to == i);
            }
            if has_outgoing(before, i) {
                let k = choose|k: int|
                    0 <= k < before.links@.len() && (#[trigger] before.links@[k]).from == i;
                assert(gg.links@[k].from == i);
            }
            if i == l.to {
                assert(gg.links@[gg.links@.len() - 1].to == i);
            }
            if i == l.from {
                assert(gg.links@[gg.links@.len() - 1].from == i);
            }
        }
    }
    PadAddedOutcome::Linked
}

/// The pipeline application: one resolved configuration, from which the
/// processing graph is assembled.
#[derive(Debug, Clone)]
pub struct PipelineApp {
    pub config: PrintNannyGstPipelineConfig,
}

impl PipelineApp {
    /// Describe the decoded-video source stage for the configured source
    /// type: the camera device, a demuxed file, or a buffered network URI.
    pub fn decoded_video_src(&self) -> (s: Stage)
        ensures
            s.is_source,
            !s.is_sink,
            self.config.video_src_type == VideoSrcType::Device ==> device_source_ok(s),
            self.config.video_src_type != VideoSrcType::Device ==> uri_source_ok(s, self.config),
    {
        match self.config.video_src_type {
            VideoSrcType::Device => {
                Stage {
                    factory: String::from_str("libcamerasrc"),
                    name: String::from_str("videosrc"),
                    props: Vec::new(),
                    is_source: true,
                    is_sink: false,
                }
            },
            _ => {
                let mut st = Stage {
                    factory: String::from_str("uridecodebin3"),
                    name: String::from_str("videosrc"),
                    props: Vec::new(),
                    is_source: true,
                    is_sink: false,
                };
                push_prop(&mut st, "caps", PropValue::Str(String::from_str("video/x-raw")));
                push_prop(&mut st, "use-buffering", PropValue::Bool(true));
                push_prop(&mut st, "uri", PropValue::Str(self.config.video_src.clone()));
                st
            },
        }
    }

    /// Build the common graph: decode-side convert/rate/scale/caps into a
    /// tee, the transport-encode branch (teed again into an HTTP segment
    /// sink when enabled), and the tensor-inference branch teed into the
    /// detection-overlay path and the aggregation path. Stage 0 is the
    /// graph's entry; its input is linked when the source attaches.
    ///
    /// Whatever the capability probes reported and whether or not the
    /// segment sink is enabled, the graph comes back fully linked but for
    /// that entry.
    #[verifier::rlimit(100)]
    pub fn make_common_pipeline(
        &self,
        encoder_cap: Capability,
        vconverter_cap: Capability,
        hls_enabled: bool,
    ) -> (g: PipelineGraph)
        requires
            self.config.wf(),
        ensures
            g.pending is None,
            complete_except(g, 0),
            g.stages@.len() == common_stage_count(hls_enabled),
            common_stages_ok(g, self.config, encoder_cap, vconverter_cap, hls_enabled),
            g.links@ == common_links(hls_enabled),
    {
        let cfg = &self.config;
        let mut g = PipelineGraph::empty();

        // Decode-side common chain into the input tee.
        let vconv = detect_vconverter(vconverter_cap);
        let i_conv = g.add_stage(plain_stage(vconv, "videoconvert__input"));
        let i_rate = g.add_stage(plain_stage("videorate", "videorate__input"));
        let i_scale = g.add_stage(plain_stage("videoscale", "videoscale__input"));
        let mut caps_in = plain_stage("capsfilter", "capsfilter__inputvideo");
        push_prop(&mut caps_in, "width", PropValue::Int(cfg.video_width as i64));
        push_prop(&mut caps_in, "height", PropValue::Int(cfg.video_height as i64));
        push_prop(&mut caps_in, "framerate", PropValue::Fraction(cfg.video_framerate, 1));
        let i_caps = g.add_stage(caps_in);
        let i_tee = g.add_stage(plain_stage("tee", "tee__inputvideo"));

        // Transport-encode branch.
        let i_h264q = g.add_stage(plain_stage("queue", "h264_q"));
        let enc_name = detect_h264_encoder(encoder_cap);
        let mut enc = plain_stage(enc_name, "encoder__video");
        if matches!(encoder_cap, Capability::Available) {
            push_prop(
                &mut enc,
                "extra-controls",
                PropValue::Str(String::from_str("controls,repeat_sequence_header=1")),
            );
        }
        let i_enc = g.add_stage(enc);
        let mut h264caps = plain_stage("capsfilter", "capsfilter__video_h264_level");
        push_prop(&mut h264caps, "level", PropValue::Str(String::from_str("3")));
        push_prop(&mut h264caps, "profile", PropValue::Str(String::from_str("main")));
        let i_h264caps = g.add_stage(h264caps);
        let i_rtpq = g.add_stage(plain_stage("queue", "queue__rtph264pay"));
        let mut pay = plain_stage("rtph264pay", "rtph264pay__video");
        push_prop(&mut pay, "config-interval", PropValue::Int(1));
        push_prop(&mut pay, "aggregate-mode", PropValue::Str(String::from_str("zero-latency")));
        push_prop(&mut pay, "pt", PropValue::Int(96));
        push_prop(&mut pay, "ssrc", PropValue::UInt(random_ssrc() as u64));
        let i_pay = g.add_stage(pay);
        let mut udp = sink_stage("udpsink", "udpsink__video");
        push_prop(&mut udp, "port", PropValue::Int(cfg.video_udp_port as i64));
        let i_udp = g.add_stage(udp);

        // Tensor-inference branch.
        let mut leaky = plain_stage("queue", "queue__leaky");
        push_prop(&mut leaky, "leaky", PropValue::Str(String::from_str("2")));
        let i_tq = g.add_stage(leaky);
        let i_tconv = g.add_stage(plain_stage("videoconvert", "videoconvert__tflite_dim"));
        let i_tscale = g.add_stage(plain_stage("videoscale", "videoscale__tflite_dim"));
        let mut rgbcaps = plain_stage("capsfilter", "capsfilter__tflite_dim");
        push_prop(&mut rgbcaps, "format", PropValue::Str(String::from_str("RGB")));
        push_prop(&mut rgbcaps, "width", PropValue::Int(cfg.tflite_model.tensor_width as i64));
        push_prop(&mut rgbcaps, "height", PropValue::Int(cfg.tflite_model.tensor_height as i64));
        let i_rgbcaps = g.add_stage(rgbcaps);
        let i_tc = g.add_stage(plain_stage("tensor_converter", "tensor_converter__video"));
        let mut tt = plain_stage("tensor_transform", "tensor_transform__video");
        push_prop(&mut tt, "mode", PropValue::Str(String::from_str("arithmetic")));
        push_prop(&mut tt, "option", PropValue::Str(String::from_str("typecast:uint8,add:0,div:1")));
        let i_tt = g.add_stage(tt);
        let mut tcaps = plain_stage("capsfilter", "capsfilter__tensor");
        push_prop(&mut tcaps, "format", PropValue::Str(String::from_str("static")));
        let i_tcaps = g.add_stage(tcaps);
        let mut tf = plain_stage("tensor_filter", "tensor_filter__tflite");
        push_prop(&mut tf, "framework", PropValue::Str(String::from_str("tensorflow2-lite")));
        push_prop(&mut tf, "model", PropValue::Str(cfg.tflite_model.model_file.clone()));
        let i_tf = g.add_stage(tf);
        let i_ttee = g.add_stage(plain_stage("tee", "tflite_output_tee"));

        // Detection-overlay branch.
        let i_bq = g.add_stage(plain_stage("queue", "queue__box_decoder"));
        let mut bdec = plain_stage("tensor_decoder", "tensor__decoder_boxes");
        push_prop(&mut bdec, "mode", PropValue::Str(String::from_str("bounding_boxes")));
        push_prop(&mut bdec, "option1", PropValue::Str(String::from_str("mobilenet-ssd-postprocess")));
        push_prop(&mut bdec, "option2", PropValue::Str(cfg.tflite_model.label_file.clone()));
        push_prop(&mut bdec, "option3-classes", PropValue::Str(String::from_str("0:1:2:3")));
        push_prop(&mut bdec, "option3-threshold", PropValue::Int(cfg.tflite_model.nms_threshold as i64));
        push_prop(&mut bdec, "option4", PropValue::Fraction(cfg.video_width, cfg.video_height));
        push_prop(
            &mut bdec,
            "option5",
            PropValue::Fraction(cfg.tflite_model.tensor_width, cfg.tflite_model.tensor_height),
        );
        let i_bdec = g.add_stage(bdec);
        let i_bconv = g.add_stage(plain_stage("videoconvert", "videoconvert__boxes"));
        let i_brate = g.add_stage(plain_stage("videorate", "videorate__boxes"));
        let mut bcaps = plain_stage("capsfilter", "capsfilter__boxes");
        push_prop(&mut bcaps, "framerate", PropValue::Fraction(cfg.video_framerate, 1));
        let i_bcaps = g.add_stage(bcaps);
        let mut benc = plain_stage(enc_name, "encoder__boxes");
        if matches!(encoder_cap, Capability::Available) {
            push_prop(
                &mut benc,
                "extra-controls",
                PropValue::Str(String::from_str("controls,repeat_sequence_header=1")),
            );
        }
        let i_benc = g.add_stage(benc);
        let mut bh264caps = plain_stage("capsfilter", "capsfilter__box_h264_level");
        push_prop(&mut bh264caps, "level", PropValue::Str(String::from_str("3")));
        push_prop(&mut bh264caps, "profile", PropValue::Str(String::from_str("main")));
        let i_bh264caps = g.add_stage(bh264caps);
        let mut bpay = plain_stage("rtph264pay", "rtph264pay__boxes");
        push_prop(&mut bpay, "config-interval", PropValue::Int(1));
        push_prop(&mut bpay, "aggregate-mode", PropValue::Str(String::from_str("zero-latency")));
        push_prop(&mut bpay, "pt", PropValue::Int(96));
        push_prop(&mut bpay, "ssrc", PropValue::UInt(random_ssrc() as u64));
        let i_bpay = g.add_stage(bpay);
        let i_bq2 = g.add_stage(plain_stage("queue2", "queue2__boxes_udpsink"));
        let mut budp = sink_stage("udpsink", "udpsink__boxes");
        push_prop(&mut budp, "port", PropValue::Int(cfg.overlay_udp_port as i64));
        let i_budp = g.add_stage(budp);

        // Aggregation branch.
        let i_dfq = g.add_stage(plain_stage("queue", "queue__df_decoder"));
        let mut dfdec = plain_stage("tensor_decoder", "tensor_decoder__df");
        push_prop(&mut dfdec, "mode", PropValue::Str(String::from_str("custom-code")));
        push_prop(
            &mut dfdec,
            "option1",
            PropValue::Str(String::from_str("printnanny_bb_dataframe_decoder")),
        );
        let i_dfdec = g.add_stage(dfdec);
        let mut agg = plain_stage("dataframe_agg", "dataframe_agg__df");
        proof {
            assert(0 <= cfg.tflite_model.nms_threshold <= 100);
        }
        push_prop(
            &mut agg,
            "filter-threshold-micros",
            PropValue::UInt((cfg.tflite_model.nms_threshold as u64) * 10_000),
        );
        push_prop(&mut agg, "output-type", PropValue::Str(String::from_str("json")));
        let i_agg = g.add_stage(agg);
        let mut nats = sink_stage("nats_sink", "nats_sink__df");
        push_prop(&mut nats, "nats-address", PropValue::Str(cfg.nats_server_uri.clone()));
        let i_nats = g.add_stage(nats);

        // The HTTP segment branch, when enabled.
        let (i_htee, i_hq, i_hsink): (usize, usize, usize) = if hls_enabled {
            let a = g.add_stage(plain_stage("tee", "tee__h264_video"));
            let b = g.add_stage(plain_stage("queue", "queue__hlssink"));
            let mut hs = sink_stage("hlssink2", "hlssink__video");
            push_prop(&mut hs, "location", PropValue::Str(cfg.hls_segments.clone()));
            push_prop(&mut hs, "playlist-location", PropValue::Str(cfg.hls_playlist.clone()));
            push_prop(&mut hs, "playlist-root", PropValue::Str(cfg.hls_playlist_root.clone()));
            let c = g.add_stage(hs);
            (a, b, c)
        } else {
            (0, 0, 0)
        };

        // Wire the chains.
        g.link(i_conv, i_rate);
        g.link(i_rate, i_scale);
        g.link(i_scale, i_caps);
        g.link(i_caps, i_tee);
        g.link(i_tee, i_h264q);
        g.link(i_h264q, i_enc);
        g.link(i_enc, i_h264caps);
        if hls_enabled {
            g.link(i_h264caps, i_htee);
            g.link(i_htee, i_hq);
            g.link(i_hq, i_hsink);
            g.link(i_htee, i_rtpq);
        } else {
            g.link(i_h264caps, i_rtpq);
        }
        g.link(i_rtpq, i_pay);
        g.link(i_pay, i_udp);
        g.link(i_tee, i_tq);
        g.link(i_tq, i_tconv);
        g.link(i_tconv, i_tscale);
        g.link(i_tscale, i_rgbcaps);
        g.link(i_rgbcaps, i_tc);
        g.link(i_tc, i_tt);
        g.link(i_tt, i_tcaps);
        g.link(i_tcaps, i_tf);
        g.link(i_tf, i_ttee);
        g.link(i_ttee, i_bq);
        g.link(i_bq, i_bdec);
        g.link(i_bdec, i_bconv);
        g.link(i_bconv, i_brate);
        g.link(i_brate, i_bcaps);
        g.link(i_bcaps, i_benc);
        g.link(i_benc, i_bh264caps);
        g.link(i_bh264caps, i_bpay);
        g.link(i_bpay, i_bq2);
        g.link(i_bq2, i_budp);
        g.link(i_ttee, i_dfq);
        g.link(i_dfq, i_dfdec);
        g.link(i_dfdec, i_agg);
        g.link(i_agg, i_nats);

        proof {
            assert(g.links@ =~= common_links(hls_enabled)) by {
                if hls_enabled {
                    assert(g.links@[0].from == 0 && g.links@[0].to == 1);
                    assert(g.links@[1].from == 1 && g.links@[1].to == 2);
                    assert(g.links@[2].from == 2 && g.links@[2].to == 3);
                    assert(g.links@[3].from == 3 && g.links@[3].to == 4);
                    assert(g.links@[4].from == 4 && g.links@[4].to == 5);
                    assert(g.links@[5].from == 5 && g.links@[5].to == 6);
                    assert(g.links@[6].from == 6 && g.links@[6].to == 7);
                    assert(g.links@[7].from == 7 && g.links@[7].to == 34);
                    assert(g.links@[8].from == 34 && g.links@[8].to == 35);
                    assert(g.links@[9].from == 35 && g.links@[9].to == 36);
                    assert(g.links@[10].from == 34 && g.links@[10].to == 8);
                    assert(g.links@[11].from == 8 && g.links@[11].to == 9);
                    assert(g.links@[12].from == 9 && g.links@[12].to == 10);
                    assert(g.links@[13].from == 4 && g.links@[13].to == 11);
                    assert(g.links@[14].from == 11 && g.links@[14].to == 12);
                    assert(g.links@[15].from == 12 && g.links@[15].to == 13);
                    assert(g.links@[16].from == 13 && g.links@[16].to == 14);
                    assert(g.links@[17].from == 14 && g.links@[17].to == 15);
                    assert(g.links@[18].from == 15 && g.links@[18].to == 16);
                    assert(g.links@[19].from == 16 && g.links@[19].to == 17);
                    assert(g.links@[20].from == 17 && g.links@[20].to == 18);
                    assert(g.links@[21].from == 18 && g.links@[21].to == 19);
                    assert(g.links@[22].from == 19 && g.links@[22].to == 20);
                    assert(g.links@[23].from == 20 && g.links@[23].to == 21);
                    assert(g.links@[24].from == 21 && g.links@[24].to == 22);
                    assert(g.links@[25].from == 22 && g.links@[25].to == 23);
                    assert(g.links@[26].from == 23 && g.links@[26].to == 24);
                    assert(g.links@[27].from == 24 && g.links@[27].to == 25);
                    assert(g.links@[28].from == 25 && g.links@[28].to == 26);
                    assert(g.links@[29].from == 26 && g.links@[29].to == 27);
                    assert(g.links@[30].from == 27 && g.links@[30].to == 28);
                    assert(g.links@[31].from == 28 && g.links@[31].to == 29);
                    assert(g.links@[32].from == 19 && g.links@[32].to == 30);
                    assert(g.links@[33].from == 30 && g.links@[33].to == 31);
                    assert(g.links@[34].from == 31 && g.links@[34].to == 32);
                    assert(g.links@[35].from == 32 && g.links@[35].to == 33);
                } else {
                    assert(g.links@[0].from == 0 && g.links@[0].to == 1);
                    assert(g.links@[1].from == 1 && g.links@[1].to == 2);
                    assert(g.links@[2].from == 2 && g.links@[2].to == 3);
                    assert(g.links@[3].from == 3 && g.links@[3].to == 4);
                    assert(g.links@[4].from == 4 && g.links@[4].to == 5);
                    assert(g.links@[5].from == 5 && g.links@[5].to == 6);
                    assert(g.links@[6].from == 6 && g.links@[6].to == 7);
                    assert(g.links@[7].from == 7 && g.links@[7].to == 8);
                    assert(g.links@[8].from == 8 && g.links@[8].to == 9);
                    assert(g.links@[9].from == 9 && g.links@[9].to == 10);
                    assert(g.links@[10].from == 4 && g.links@[10].to == 11);
                    assert(g.links@[11].from == 11 && g.links@[11].to == 12);
                    assert(g.links@[12].from == 12 && g.links@[12].to == 13);
                    assert(g.links@[13].from == 13 && g.links@[13].to == 14);
                    assert(g.links@[14].from == 14 && g.links@[14].to == 15);
                    assert(g.links@[15].from == 15 && g.links@[15].to == 16);
                    assert(g.links@[16].from == 16 && g.links@[16].to == 17);
                    assert(g.links@[17].from == 17 && g.links@[17].to == 18);
                    assert(g.links@[18].from == 18 && g.links@[18].to == 19);
                    assert(g.links@[19].from == 19 && g.links@[19].to == 20);
                    assert(g.links@[20].from == 20 && g.links@[20].to == 21);
                    assert(g.links@[21].from == 21 && g.links@[21].to == 22);
                    assert(g.links@[22].from == 22 && g.links@[22].to == 23);
                    assert(g.links@[23].from == 23 && g.links@[23].to == 24);
                    assert(g.links@[24].from == 24 && g.links@[24].to == 25);
                    assert(g.links@[25].from == 25 && g.links@[25].to == 26);
                    assert(g.links@[26].from == 26 && g.links@[26].to == 27);
                    assert(g.links@[27].from == 27 && g.links@[27].to == 28);
                    assert(g.links@[28].from == 28 && g.links@[28].to == 29);
                    assert(g.links@[29].from == 19 && g.links@[29].to == 30);
                    assert(g.links@[30].from == 30 && g.links@[30].to == 31);
                    assert(g.links@[31].from == 31 && g.links@[31].to == 32);
                    assert(g.links@[32].from == 32 && g.links@[32].to == 33);
                }
            }
            assert(common_stages_ok(g, self.config, encoder_cap, vconverter_cap, hls_enabled)) by {
                assert(g.stages@[0].name@ == "videoconvert__input"@);
                assert(prop_int(g.stages@[3], 0, "width"@, self.config.video_width as i64));
                assert(prop_int(g.stages@[3], 1, "height"@, self.config.video_height as i64));
                assert(prop_frac(g.stages@[3], 2, "framerate"@, self.config.video_framerate, 1));
                assert(g.stages@[9].props@[3].0@ == "ssrc"@);
                assert(g.stages@[9].props@[3].1 matches PropValue::UInt(u) && u <= 2147483647);
                assert(prop_int(g.stages@[10], 0, "port"@, self.config.video_udp_port as i64));
                assert(prop_str(g.stages@[18], 1, "model"@, self.config.tflite_model.model_file@));
                assert(prop_str(g.stages@[21], 2, "option2"@, self.config.tflite_model.label_file@));
                assert(prop_int(
                    g.stages@[21],
                    4,
                    "option3-threshold"@,
                    self.config.tflite_model.nms_threshold as i64,
                ));
                assert(g.stages@[27].props@[3].0@ == "ssrc"@);
                assert(g.stages@[27].props@[3].1 matches PropValue::UInt(u2) && u2 <= 2147483647);
                assert(prop_int(g.stages@[29], 0, "port"@, self.config.overlay_udp_port as i64));
                assert(prop_str(
                    g.stages@[31],
                    1,
                    "option1"@,
                    "printnanny_bb_dataframe_decoder"@,
                ));
                assert(prop_uint(
                    g.stages@[32],
                    0,
                    "filter-threshold-micros"@,
                    ((self.config.tflite_model.nms_threshold as u64) * 10_000) as u64,
                ));
                assert(prop_str(g.stages@[33], 0, "nats-address"@, self.config.nats_server_uri@));
                if hls_enabled {
                    assert(prop_str(g.stages@[36], 0, "location"@, self.config.hls_segments@));
                    assert(prop_str(
                        g.stages@[36],
                        1,
                        "playlist-location"@,
                        self.config.hls_playlist@,
                    ));
                    assert(prop_str(
                        g.stages@[36],
                        2,
                        "playlist-root"@,
                        self.config.hls_playlist_root@,
                    ));
                }
            }
            assert forall|i: int| 0 <= i < g.stages@.len() implies #[trigger] stage_wired(
                g,
                i,
                0,
            ) by {
                if hls_enabled {
                    assert(g.links@[7].to == 34 && g.links@[7].from == 7);
                    assert(g.links@[8].to == 35 && g.links@[8].from == 34);
                    assert(g.links@[9].to == 36 && g.links@[9].from == 35);
                    assert(g.links@[10].to == 8 && g.links@[10].from == 34);
                } else {
                    assert(g.links@[7].to == 8 && g.links@[7].from == 7);
                }
                assert(g.links@[0].from == 0 && g.links@[0].to == 1);
                assert(g.links@[1].from == 1 && g.links@[1].to == 2);
                assert(g.links@[2].from == 2 && g.links@[2].to == 3);
                assert(g.links@[3].from == 3 && g.links@[3].to == 4);
                assert(g.links@[4].from == 4 && g.links@[4].to == 5);
                assert(g.links@[5].from == 5 && g.links@[5].to == 6);
                assert(g.links@[6].from == 6 && g.links@[6].to == 7);
                let b: int = if hls_enabled { 11 } else { 8 };
                assert(g.links@[b].from == 8 && g.links@[b].to == 9);
                assert(g.links@[b + 1].from == 9 && g.links@[b + 1].to == 10);
                assert(g.links@[b + 2].from == 4 && g.links@[b + 2].to == 11);
                assert(g.links@[b + 3].from == 11 && g.links@[b + 3].to == 12);
                assert(g.links@[b + 4].from == 12 && g.links@[b + 4].to == 13);
                assert(g.links@[b + 5].from == 13 && g.links@[b + 5].to == 14);
                assert(g.links@[b + 6].from == 14 && g.links@[b + 6].to == 15);
                assert(g.links@[b + 7].from == 15 && g.links@[b + 7].to == 16);
                assert(g.links@[b + 8].from == 16 && g.links@[b + 8].to == 17);
                assert(g.links@[b + 9].from == 17 && g.links@[b + 9].to == 18);
                assert(g.links@[b + 10].from == 18 && g.links@[b + 10].to == 19);
                assert(g.links@[b + 11].from == 19 && g.links@[b + 11].to == 20);
                assert(g.links@[b + 12].from == 20 && g.links@[b + 12].to == 21);
                assert(g.links@[b + 13].from == 21 && g.links@[b + 13].to == 22);
                assert(g.links@[b + 14].from == 22 && g.links@[b + 14].to == 23);
                assert(g.links@[b + 15].from == 23 && g.links@[b + 15].to == 24);
                assert(g.links@[b + 16].from == 24 && g.links@[b + 16].to == 25);
                assert(g.links@[b + 17].from == 25 && g.links@[b + 17].to == 26);
                assert(g.links@[b + 18].from == 26 && g.links@[b + 18].to == 27);
                assert(g.links@[b + 19].from == 27 && g.links@[b + 19].to == 28);
                assert(g.links@[b + 20].from == 28 && g.links@[b + 20].to == 29);
                assert(g.links@[b + 21].from == 19 && g.links@[b + 21].to == 30);
                assert(g.links@[b + 22].from == 30 && g.links@[b + 22].to == 31);
                assert(g.links@[b + 23].from == 31 && g.links@[b + 23].to == 32);
                assert(g.links@[b + 24].from == 32 && g.links@[b + 24].to == 33);
            }
        }
        g
    }

    /// Build the full graph for a camera device: the device's capability
    /// is known upfront, so the source links into the common graph at
    /// once.
    pub fn make_device_pipeline(
        &self,
        encoder_cap: Capability,
        vconverter_cap: Capability,
        hls_enabled: bool,
    ) -> (g: PipelineGraph)
        requires
            self.config.wf(),
            self.config.video_src_type == VideoSrcType::Device,
        ensures
            complete(g),
            g.pending is None,
            common_stages_ok(g, self.config, encoder_cap, vconverter_cap, hls_enabled),
            g.stages@.len() == common_stage_count(hls_enabled) + 1,
            device_source_ok(g.stages@.last()),
            g.links@.len() == common_links(hls_enabled).len() + 1,
            g.links@.drop_last() == common_links(hls_enabled),
            g.links@.last().from as int == common_stage_count(hls_enabled),
            g.links@.last().to == 0,
    {
        let mut g = self.make_common_pipeline(encoder_cap, vconverter_cap, hls_enabled);
        let ghost common = g;
        let src = self.decoded_video_src();
        let i_src = g.add_stage(src);
        g.link(i_src, 0);
        proof {
            let gg = g;
            assert forall|i: int| 0 <= i < gg.stages@.len() implies #[trigger] stage_wired(
                gg,
                i,
                -1,
            ) by {
                let last = gg.links@.len() - 1;
                assert(gg.links@[last].from == i_src && gg.links@[last].to == 0);
                if i < common.stages@.len() {
                    assert(stage_wired(common, i, 0));
                    if has_incoming(common, i) {
                        let k = choose|k: int|
                            0 <= k < common.links@.len() && (#[trigger] common.links@[k]).to == i;
                        assert(gg.links@[k].to == i);
                    }
                    if has_outgoing(common, i) {
                        let k = choose|k: int|
                            0 <= k < common.links@.len() && (#[trigger] common.links@[k]).from
                                == i;
                        assert(gg.links@[k].from == i);
                    }
                }
            }
            assert(gg.links@.drop_last() =~= common.links@);
        }
        g
    }

    /// Build the graph for a file or network source: the source does not
    /// expose its output synchronously, so its link into the common graph
    /// is deferred until the negotiated media type is reported; see
    /// [`handle_pad_added`].
    pub fn make_uri_pipeline(
        &self,
        encoder_cap: Capability,
        vconverter_cap: Capability,
        hls_enabled: bool,
    ) -> (g: PipelineGraph)
        requires
            self.config.wf(),
            self.config.video_src_type != VideoSrcType::Device,
        ensures
            complete_pending(g),
            common_stages_ok(g, self.config, encoder_cap, vconverter_cap, hls_enabled),
            g.stages@.len() == common_stage_count(hls_enabled) + 1,
            uri_source_ok(g.stages@.last(), self.config),
            g.pending matches Some(l) && l.to == 0 && l.from as int == common_stage_count(
                hls_enabled,
            ),
            g.links@ == common_links(hls_enabled),
    {
        let mut g = self.make_common_pipeline(encoder_cap, vconverter_cap, hls_enabled);
        let ghost common = g;
        let src = self.decoded_video_src();
        let i_src = g.add_stage(src);
        g.pending = Some(Link { from: i_src, to: 0 });
        proof {
            let gg = g;
            assert forall|i: int|
                0 <= i < gg.stages@.len() implies (((#[trigger] gg.stages@[i]).is_source || i
                    == gg.pending->Some_0.to || has_incoming(gg, i)) && (gg.stages@[i].is_sink || i
                    == gg.pending->Some_0.from || has_outgoing(gg, i))) by {
                if i < common.stages@.len() {
                    assert(stage_wired(common, i, 0));
                    if has_incoming(common, i) {
                        let k = choose|k: int|
                            0 <= k < common.links@.len() && (#[trigger] common.links@[k]).to == i;
                        assert(gg.links@[k].to == i);
                    }
                    if has_outgoing(common, i) {
                        let k = choose|k: int|
                            0 <= k < common.links@.len() && (#[trigger] common.links@[k]).from
                                == i;
                        assert(gg.links@[k].from == i);
                    }
                }
            }
        }
        g
    }

    /// Build the processing graph for the configured source type. Device
    /// sources come back fully linked; file and network sources carry one
    /// deferred link, completed at stream discovery.
    pub fn create_pipeline(
        &self,
        encoder_cap: Capability,
        vconverter_cap: Capability,
        hls_enabled: bool,
    ) -> (g: PipelineGraph)
        requires
            self.config.wf(),
        ensures
            common_stages_ok(g, self.config, encoder_cap, vconverter_cap, hls_enabled),
            g.stages@.len() == common_stage_count(hls_enabled) + 1,
            self.config.video_src_type == VideoSrcType::Device ==> complete(g) && (g.pending
                is None) && device_source_ok(g.stages@.last()) && g.links@.drop_last()
                == common_links(hls_enabled) && g.links@.last().from as int == common_stage_count(
                hls_enabled,
            ) && g.links@.last().to == 0,
            self.config.video_src_type != VideoSrcType::Device ==> complete_pending(g)
                && uri_source_ok(g.stages@.last(), self.config) && (g.pending matches Some(l)
                && l.to == 0 && l.from as int == common_stage_count(hls_enabled)) && g.links@
                == common_links(hls_enabled),
    {
        match self.config.video_src_type {
            VideoSrcType::Device => self.make_device_pipeline(
                encoder_cap,
                vconverter_cap,
                hls_enabled,
            ),
            VideoSrcType::File => self.make_uri_pipeline(encoder_cap, vconverter_cap, hls_enabled),
            VideoSrcType::Uri => self.make_uri_pipeline(encoder_cap, vconverter_cap, hls_enabled),
        }
    }
}

} // verus!
