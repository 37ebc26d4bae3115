use printnanny_gst::batch::{column_names, COLUMN_COUNT};
use printnanny_gst::decoder::{printnanny_bb_dataframe_decoder, DecodeError};
use printnanny_gst::tensor::{
    parse_tensor_shapes, GstTensorInfo, GstTensorMemory, GstTensorsConfig, GstTensorsInfo,
    TensorFormat, TensorType,
};

fn info(name: &str, ty: TensorType, dim: [u32; 4]) -> GstTensorInfo {
    GstTensorInfo {
        name: name.to_string(),
        tensor_type: ty,
        tensor_dim: dim.to_vec(),
    }
}

fn f32s_to_bytes(vals: &[f32]) -> Vec<u8> {
    let mut out = Vec::new();
    for v in vals {
        out.extend_from_slice(&v.to_le_bytes());
    }
    out
}

/// A well-formed tensor set with `n` detections.
fn make_tensor_set(
    boxes: &[f32],
    classes: &[f32],
    scores: &[f32],
) -> (Vec<GstTensorMemory>, GstTensorsConfig) {
    let n = classes.len() as u32;
    assert_eq!(boxes.len(), (4 * n) as usize);
    assert_eq!(scores.len(), n as usize);
    let mems = vec![
        GstTensorMemory { data: f32s_to_bytes(boxes) },
        GstTensorMemory { data: f32s_to_bytes(classes) },
        GstTensorMemory { data: f32s_to_bytes(scores) },
        GstTensorMemory { data: f32s_to_bytes(&[n as f32]) },
    ];
    let config = GstTensorsConfig {
        info: GstTensorsInfo {
            num_tensors: 4,
            info: vec![
                info("detection_boxes", TensorType::NNS_FLOAT32, [4, n, 1, 1]),
                info("detection_classes", TensorType::NNS_FLOAT32, [n, 1, 1, 1]),
                info("detection_scores", TensorType::NNS_FLOAT32, [n, 1, 1, 1]),
                info("num_detections", TensorType::NNS_FLOAT32, [1, 1, 1, 1]),
            ],
        },
        format: TensorFormat::NNS_TENSOR_FORMAT_STATIC,
        rate_n: 15,
        rate_d: 1,
    };
    (mems, config)
}

fn uniform_set(n: usize) -> (Vec<GstTensorMemory>, GstTensorsConfig) {
    let mut boxes = Vec::new();
    let mut classes = Vec::new();
    let mut scores = Vec::new();
    for i in 0..n {
        boxes.extend_from_slice(&[0.1, 0.2, 0.3, 0.4]);
        classes.push((i % 5) as f32);
        scores.push(0.75);
    }
    make_tensor_set(&boxes, &classes, &scores)
}

/// Sixteen decode cycles of forty detections each: every cycle yields a
/// batch of forty rows over the seven fixed columns.
#[test]
fn test_nnstreamer_callback() {
    let num_detections = 40;
    let expected_buffers = 16;
    let mut num_buffers = 0;
    for b in 0..expected_buffers {
        let (mems, config) = uniform_set(num_detections);
        let batch = printnanny_bb_dataframe_decoder(&mems, &config, 1_000 * b as u64)
            .expect("Failed to extract dataframe");
        assert_eq!(batch.records.len(), num_detections);
        assert_eq!(column_names().len(), 7);
        num_buffers += 1;
    }
    assert_eq!(num_buffers, expected_buffers);
}

/// Row-count invariant: a valid set with N detections decodes to exactly
/// N rows carrying the replicated timestamp and the frame rate.
#[test]
fn row_count_and_metadata() {
    let (mems, config) = make_tensor_set(
        &[0.0, 0.25, 0.5, 0.75, 0.1, 0.2, 0.3, 0.4],
        &[0.0, 3.0],
        &[0.9, 0.6],
    );
    let batch = printnanny_bb_dataframe_decoder(&mems, &config, 777).unwrap();
    assert_eq!(batch.records.len(), 2);
    assert_eq!(batch.rate_n, 15);
    assert_eq!(batch.rate_d, 1);
    assert_eq!(COLUMN_COUNT, 7);
    for r in &batch.records {
        assert_eq!(r.ts, 777);
    }
    assert_eq!(batch.records[0].x0, 0.0f32.to_bits());
    assert_eq!(batch.records[0].y0, 0.25f32.to_bits());
    assert_eq!(batch.records[0].x1, 0.5f32.to_bits());
    assert_eq!(batch.records[0].y1, 0.75f32.to_bits());
    assert_eq!(batch.records[0].class, 0);
    assert_eq!(batch.records[1].class, 3);
    assert_eq!(batch.records[0].score, 0.9f32.to_bits());
    assert_eq!(batch.records[1].score, 0.6f32.to_bits());
}

/// Class labels are truncated toward zero, exactly as the model encodes
/// them.
#[test]
fn class_labels_truncate() {
    let (mems, config) = make_tensor_set(
        &[0.0; 12],
        &[2.9, -1.5, 4.0],
        &[0.5, 0.5, 0.5],
    );
    let batch = printnanny_bb_dataframe_decoder(&mems, &config, 0).unwrap();
    assert_eq!(batch.records[0].class, 2);
    assert_eq!(batch.records[1].class, -1);
    assert_eq!(batch.records[2].class, 4);
}

/// Shape validation: a boxes tensor whose first dimension is not four is
/// rejected with `ShapeMismatch` and yields no rows.
#[test]
fn shape_mismatch_dim0() {
    let (mems, mut config) = uniform_set(3);
    config.info.info[0].tensor_dim[0] = 5;
    let r = printnanny_bb_dataframe_decoder(&mems, &config, 0);
    assert_eq!(r.unwrap_err(), DecodeError::ShapeMismatch);
}

/// Shape validation: any non-float32 tensor is rejected.
#[test]
fn shape_mismatch_type() {
    for k in 0..4 {
        let (mems, mut config) = uniform_set(3);
        config.info.info[k].tensor_type = TensorType::NNS_UINT8;
        let r = printnanny_bb_dataframe_decoder(&mems, &config, 0);
        assert_eq!(r.unwrap_err(), DecodeError::ShapeMismatch);
    }
}

/// Shape validation: mismatched detection counts across tensors are
/// rejected.
#[test]
fn shape_mismatch_count() {
    let (mems, mut config) = uniform_set(3);
    config.info.info[1].tensor_dim[0] = 2;
    let r = printnanny_bb_dataframe_decoder(&mems, &config, 0);
    assert_eq!(r.unwrap_err(), DecodeError::ShapeMismatch);
}

/// Shape validation: a memory block shorter than its shape announces is
/// rejected.
#[test]
fn shape_mismatch_memory() {
    let (mut mems, config) = uniform_set(3);
    mems[0].data.pop();
    let r = printnanny_bb_dataframe_decoder(&mems, &config, 0);
    assert_eq!(r.unwrap_err(), DecodeError::ShapeMismatch);
}

/// The wrong tensor count is rejected.
#[test]
fn shape_mismatch_rank() {
    let (mems, mut config) = uniform_set(3);
    config.info.num_tensors = 3;
    let r = printnanny_bb_dataframe_decoder(&mems, &config, 0);
    assert_eq!(r.unwrap_err(), DecodeError::ShapeMismatch);
}

/// The schema's column names, in order.
#[test]
fn schema_columns() {
    let names = column_names();
    assert_eq!(
        names,
        vec![
            "detection_boxes_x0",
            "detection_boxes_y0",
            "detection_boxes_x1",
            "detection_boxes_y1",
            "detection_classes",
            "detection_scores",
            "ts"
        ]
    );
}

/// The tensor-shapes property string parses into the dimension lists.
#[test]
fn tensor_shapes_parse() {
    let (n, shapes) = parse_tensor_shapes("4:40:1:1,40:1:1:1,40:1:1:1,1:1:1:1").unwrap();
    assert_eq!(n, 4);
    assert_eq!(
        shapes,
        vec![vec![4, 40, 1, 1], vec![40, 1, 1, 1], vec![40, 1, 1, 1], vec![1, 1, 1, 1]]
    );
    assert_eq!(parse_tensor_shapes("7").unwrap(), (1, vec![vec![7]]));
    assert_eq!(
        parse_tensor_shapes("4294967295").unwrap(),
        (1, vec![vec![4294967295]])
    );
    assert!(parse_tensor_shapes("").is_none());
    assert!(parse_tensor_shapes("4:,1").is_none());
    assert!(parse_tensor_shapes("4:x").is_none());
    assert!(parse_tensor_shapes("4:40:1:1,").is_none());
    assert!(parse_tensor_shapes("4294967296").is_none());
}
