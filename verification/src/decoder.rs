//! The tensor-frame decoder: turns one raw detection tensor set into one
//! structured detection batch.
//!
//! The expected memory layout is `4:N:1:1, N:1:1:1, N:1:1:1, 1:1:1:1` over
//! four 32-bit float tensors: an `N x 4` row-major box matrix (one row
//! `x0, y0, x1, y1` per detection), an `N`-vector of class labels, an
//! `N`-vector of scores, and the detection count. A set that violates the
//! rank, shape or type invariants is rejected with `ShapeMismatch` and
//! yields no rows; the decoder is stateless, so the next cycle proceeds
//! unharmed.

use vstd::prelude::*;
use crate::tensor::{GstTensorMemory, GstTensorsConfig, TensorType};
use crate::wire::{le32_at, read_le32};
use crate::fbits::{f32_trunc, f32_bits_trunc_i32};
use crate::batch::{DetectionRecord, DetectionBatch};

verus! {

/// Why a decode cycle failed.
#[derive(Debug, Clone, Copy, PartialEq, Eq, Structural)]
pub enum DecodeError {
    /// The tensor set violates the rank, shape or type invariants.
    ShapeMismatch,
    /// A downstream buffer could not be sized; raised by the stage adapter
    /// around the decoder, never by the decoder itself.
    AllocationFailure,
}

/// The detection count `N` announced by the boxes tensor's shape.
pub open spec fn num_detections(config: GstTensorsConfig) -> nat {
    config.info.info@[0].tensor_dim@[1] as nat
}

/// A tensor set the decoder accepts: four descriptors and memory blocks,
/// boxes shaped `4:N`, classes and scores shaped `N`, every element a
/// 32-bit float, and each memory block exactly as long as its shape says.
pub open spec fn tensors_valid(mems: Seq<GstTensorMemory>, config: GstTensorsConfig) -> bool {
    &&& config.info.num_tensors == 4
    &&& config.wf()
    &&& mems.len() == 4
    &&& config.info.info@[0].tensor_dim@[0] == 4
    &&& config.info.info@[0].tensor_dim@[1] == config.info.info@[1].tensor_dim@[0]
    &&& config.info.info@[0].tensor_dim@[1] == config.info.info@[2].tensor_dim@[0]
    &&& (forall|i: int|
        0 <= i < 4 ==> (#[trigger] config.info.info@[i]).tensor_type == TensorType::NNS_FLOAT32)
    &&& mems[0].data@.len() == 16 * num_detections(config)
    &&& mems[1].data@.len() == 4 * num_detections(config)
    &&& mems[2].data@.len() == 4 * num_detections(config)
}

/// The record decoded from row `i` of a valid tensor set.
pub open spec fn record_at(
    mems: Seq<GstTensorMemory>,
    config: GstTensorsConfig,
    ts: u64,
    i: int,
) -> DetectionRecord {
    DetectionRecord {
        ts,
        x0: le32_at(mems[0].data@, 16 * i),
        y0: le32_at(mems[0].data@, 16 * i + 4),
        x1: le32_at(mems[0].data@, 16 * i + 8),
        y1: le32_at(mems[0].data@, 16 * i + 12),
        class: f32_trunc(le32_at(mems[1].data@, 4 * i)) as i32,
        score: le32_at(mems[2].data@, 4 * i),
    }
}

/// Decode one detection tensor set into a detection batch stamped with the
/// given pipeline clock reading.
///
/// Succeeds exactly on valid tensor sets; the batch then has one record
/// per detection, in tensor order, and carries the configured frame rate.
pub fn printnanny_bb_dataframe_decoder(
    mems: &Vec<GstTensorMemory>,
    config: &GstTensorsConfig,
    ts: u64,
) -> (r: Result<DetectionBatch, DecodeError>)
    ensures
        r is Ok <==> tensors_valid(mems@, *config),
        r matches Ok(b) ==> {
            &&& b@.records.len() == num_detections(*config)
            &&& (forall|i: int|
                0 <= i < b@.records.len() ==> b@.records[i] == record_at(mems@, *config, ts, i))
            &&& b@.rate_n == config.rate_n
            &&& b@.rate_d == config.rate_d
        },
        r matches Err(e) ==> e == DecodeError::ShapeMismatch,
{
    if config.info.num_tensors != 4 {
        return Err(DecodeError::ShapeMismatch);
    }
    if config.info.info.len() != 4 {
        return Err(DecodeError::ShapeMismatch);
    }
    if mems.len() != 4 {
        return Err(DecodeError::ShapeMismatch);
    }
    let mut k: usize = 0;
    while k < 4
        invariant
            k <= 4,
            config.info.info@.len() == 4,
            forall|i: int| 0 <= i < k ==> (#[trigger] config.info.info@[i]).tensor_dim@.len() == 4,
            forall|i: int|
                0 <= i < k ==> (#[trigger] config.info.info@[i]).tensor_type
                    == TensorType::NNS_FLOAT32,
        decreases 4 - k,
    {
        if config.info.info[k].tensor_dim.len() != 4 {
            return Err(DecodeError::ShapeMismatch);
        }
        if !(config.info.info[k].tensor_type == TensorType::NNS_FLOAT32) {
            return Err(DecodeError::ShapeMismatch);
        }
        k = k + 1;
    }
    if config.info.info[0].tensor_dim[0] != 4 {
        return Err(DecodeError::ShapeMismatch);
    }
    let n: u32 = config.info.info[0].tensor_dim[1];
    if config.info.info[1].tensor_dim[0] != n || config.info.info[2].tensor_dim[0] != n {
        return Err(DecodeError::ShapeMismatch);
    }
    if (mems[0].data.len() as u64) != 16u64 * (n as u64) {
        return Err(DecodeError::ShapeMismatch);
    }
    if (mems[1].data.len() as u64) != 4u64 * (n as u64) {
        return Err(DecodeError::ShapeMismatch);
    }
    if (mems[2].data.len() as u64) != 4u64 * (n as u64) {
        return Err(DecodeError::ShapeMismatch);
    }
    assert(tensors_valid(mems@, *config));

    let boxes: &Vec<u8> = &mems[0].data;
    let classes: &Vec<u8> = &mems[1].data;
    let scores: &Vec<u8> = &mems[2].data;
    let mut records: Vec<DetectionRecord> = Vec::new();
    let mut i: usize = 0;
    while i < boxes.len() / 16
        invariant
            tensors_valid(mems@, *config),
            boxes == mems@[0].data,
            classes == mems@[1].data,
            scores == mems@[2].data,
            boxes@.len() == 16 * num_detections(*config),
            i <= num_detections(*config),
            records@.len() == i,
            forall|j: int| 0 <= j < i ==> records@[j] == record_at(mems@, *config, ts, j),
        decreases num_detections(*config) - i,
    {
        let base = 16 * i;
        let x0 = read_le32(boxes, base);
        let y0 = read_le32(boxes, base + 4);
        let x1 = read_le32(boxes, base + 8);
        let y1 = read_le32(boxes, base + 12);
        let class_bits = read_le32(classes, 4 * i);
        let class = f32_bits_trunc_i32(class_bits);
        let score = read_le32(scores, 4 * i);
        records.push(DetectionRecord { ts, x0, y0, x1, y1, class, score });
        i = i + 1;
    }
    Ok(DetectionBatch { records, rate_n: config.rate_n, rate_d: config.rate_d })
}

} // verus!
