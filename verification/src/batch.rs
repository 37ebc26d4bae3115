//! Structured detections: one record per detected object, one batch per
//! capture instant. Bounding-box coordinates and the confidence score keep
//! the 32-bit patterns the inference stage produced; the class label is the
//! truncated integer; the timestamp is the pipeline clock in nanoseconds.

use vstd::prelude::*;

verus! {

/// Number of columns of a detection batch, in the fixed order
/// `detection_boxes_x0, detection_boxes_y0, detection_boxes_x1,
/// detection_boxes_y1, detection_classes, detection_scores, ts`.
pub const COLUMN_COUNT: usize = 7;

/// One detected object.
#[derive(Debug, Clone, Copy, PartialEq, Eq, Structural)]
pub struct DetectionRecord {
    /// Pipeline clock reading at decode time, nanoseconds.
    pub ts: u64,
    /// Bounding-box corner coordinates, single-precision bit patterns.
    pub x0: u32,
    pub y0: u32,
    pub x1: u32,
    pub y1: u32,
    /// Class label, truncated from the model's float output.
    pub class: i32,
    /// Confidence score, single-precision bit pattern.
    pub score: u32,
}

/// An ordered sequence of detection records sharing a capture instant,
/// with the frame rate carried out-of-band as a fraction.
#[derive(Debug, Clone)]
pub struct DetectionBatch {
    pub records: Vec<DetectionRecord>,
    pub rate_n: i32,
    pub rate_d: i32,
}

/// Mathematical model of a batch.
pub struct BatchModel {
    pub records: Seq<DetectionRecord>,
    pub rate_n: i32,
    pub rate_d: i32,
}

impl View for DetectionBatch {
    type V = BatchModel;

    open spec fn view(&self) -> BatchModel {
        BatchModel { records: self.records@, rate_n: self.rate_n, rate_d: self.rate_d }
    }
}

impl DetectionBatch {
    /// An empty batch with no frame-rate information.
    pub fn empty() -> (r: Self)
        ensures
            r@.records.len() == 0,
            r@.rate_n == 0,
            r@.rate_d == 0,
    {
        DetectionBatch { records: Vec::new(), rate_n: 0, rate_d: 0 }
    }
}

/// The column names of every detection batch, in schema order.
pub fn column_names() -> (r: Vec<&'static str>)
    ensures
        r@.len() == COLUMN_COUNT,
        r@[0]@ == "detection_boxes_x0"@,
        r@[1]@ == "detection_boxes_y0"@,
        r@[2]@ == "detection_boxes_x1"@,
        r@[3]@ == "detection_boxes_y1"@,
        r@[4]@ == "detection_classes"@,
        r@[5]@ == "detection_scores"@,
        r@[6]@ == "ts"@,
{
    let mut v: Vec<&'static str> = Vec::new();
    v.push("detection_boxes_x0");
    v.push("detection_boxes_y0");
    v.push("detection_boxes_x1");
    v.push("detection_boxes_y1");
    v.push("detection_classes");
    v.push("detection_scores");
    v.push("ts");
    v
}

} // verus!
