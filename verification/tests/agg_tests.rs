use printnanny_gst::agg::{class_names, AggError, DataframeAgg, Settings, DEFAULT_SCORE_THRESHOLD};
use printnanny_gst::batch::{DetectionBatch, DetectionRecord};
use printnanny_gst::codec::encode;

const SECOND: u64 = 1_000_000_000;

fn record(ts: u64, class: i32, score: f32) -> DetectionRecord {
    DetectionRecord {
        ts,
        x0: 0.1f32.to_bits(),
        y0: 0.2f32.to_bits(),
        x1: 0.3f32.to_bits(),
        y1: 0.4f32.to_bits(),
        class,
        score: score.to_bits(),
    }
}

fn batch_bytes(records: Vec<DetectionRecord>) -> Vec<u8> {
    let b = DetectionBatch { records, rate_n: 15, rate_d: 1 };
    encode(&b).unwrap()
}

/// Per-class aggregation: scores [0.6, 0.8, 0.4] for class 0 in one
/// one-second window with threshold 0.5 filter down to [0.6, 0.8]:
/// count 2, mean 0.7, population standard deviation 0.1 (in millionths).
#[test]
fn per_class_aggregation() {
    let mut agg = DataframeAgg::default();
    assert_eq!(DEFAULT_SCORE_THRESHOLD, 500_000);
    let buf = batch_bytes(vec![
        record(100, 0, 0.6),
        record(200, 0, 0.8),
        record(300, 0, 0.4),
    ]);
    let ws = agg.sink_chain(&buf).unwrap();
    assert_eq!(ws.len(), 1);
    let w = &ws[0];
    assert_eq!(w.window_start, 0);
    assert_eq!(w.window_end, SECOND);
    assert_eq!(w.stats.len(), 5);
    assert_eq!(class_names()[0], "nozzle");
    let nozzle = &w.stats[0];
    assert_eq!(nozzle.count, 2);
    assert_eq!(nozzle.mean, Some(700_000));
    assert_eq!(nozzle.std, Some(100_000));
    for c in 1..5 {
        assert_eq!(w.stats[c].count, 0);
        assert_eq!(w.stats[c].mean, None);
    }
}

/// Appending batches with timestamps [5, 1, 3] seconds and sorting yields
/// the table ordered [1, 3, 5]; the windowed summaries are the same
/// whatever the arrival order was.
#[test]
fn concatenation_ordering() {
    let mut agg = DataframeAgg::default();
    agg.sink_chain(&batch_bytes(vec![record(5 * SECOND, 0, 0.9)])).unwrap();
    agg.sink_chain(&batch_bytes(vec![record(1 * SECOND, 0, 0.9)])).unwrap();
    let ws1 = agg.sink_chain(&batch_bytes(vec![record(3 * SECOND, 0, 0.9)])).unwrap();

    let sorted = agg.sorted_snapshot();
    let ts: Vec<u64> = sorted.iter().map(|r| r.ts).collect();
    assert_eq!(ts, vec![1 * SECOND, 3 * SECOND, 5 * SECOND]);

    // Same rows, different arrival order: identical summaries.
    let mut agg2 = DataframeAgg::default();
    agg2.sink_chain(&batch_bytes(vec![record(1 * SECOND, 0, 0.9)])).unwrap();
    agg2.sink_chain(&batch_bytes(vec![record(3 * SECOND, 0, 0.9)])).unwrap();
    let ws2 = agg2.sink_chain(&batch_bytes(vec![record(5 * SECOND, 0, 0.9)])).unwrap();
    assert_eq!(ws1, ws2);

    let starts: Vec<u64> = ws1.iter().map(|w| w.window_start).collect();
    assert_eq!(starts, vec![1 * SECOND, 3 * SECOND, 5 * SECOND]);
}

/// A corrupted serialized batch neither crashes the aggregator nor loses
/// previously aggregated rows.
#[test]
fn partial_failure_isolation() {
    let mut agg = DataframeAgg::default();
    agg.sink_chain(&batch_bytes(vec![record(10, 0, 0.9), record(20, 1, 0.8)])).unwrap();
    let before = agg.table_len();

    let mut corrupt = batch_bytes(vec![record(30, 2, 0.7)]);
    corrupt.truncate(corrupt.len() - 3);
    let err = agg.sink_chain(&corrupt).unwrap_err();
    assert_eq!(err, AggError::DecodeFailure);
    assert_eq!(agg.table_len(), before);

    // The next well-formed batch still lands.
    agg.sink_chain(&batch_bytes(vec![record(40, 2, 0.7)])).unwrap();
    assert_eq!(agg.table_len(), before + 1);
}

/// The score threshold is strict: a score at the threshold is excluded.
#[test]
fn threshold_is_strict() {
    let mut agg = DataframeAgg::default();
    let ws = agg.sink_chain(&batch_bytes(vec![record(0, 0, 0.5)])).unwrap();
    assert_eq!(ws.len(), 0);
}

/// Records outside the five known classes never contribute.
#[test]
fn unknown_classes_excluded() {
    let mut agg = DataframeAgg::default();
    let ws = agg
        .sink_chain(&batch_bytes(vec![record(0, 7, 0.9), record(0, -2, 0.9)]))
        .unwrap();
    assert_eq!(ws.len(), 0);
    assert_eq!(agg.table_len(), 2);
}

/// Sliding windows: a two-second period with a one-second interval puts
/// one record in two consecutive windows.
#[test]
fn sliding_windows() {
    let mut st = Settings::default();
    st.window_period = 2 * SECOND;
    let mut agg = DataframeAgg::new(st);
    let ws = agg
        .sink_chain(&batch_bytes(vec![record(3 * SECOND + 7, 0, 0.9)]))
        .unwrap();
    let starts: Vec<u64> = ws.iter().map(|w| w.window_start).collect();
    assert_eq!(starts, vec![2 * SECOND, 3 * SECOND]);
    assert_eq!(ws[0].stats[0].count, 1);
    assert_eq!(ws[1].stats[0].count, 1);
}

/// An explicit reset clears the table.
#[test]
fn reset_clears_table() {
    let mut agg = DataframeAgg::default();
    agg.sink_chain(&batch_bytes(vec![record(10, 0, 0.9)])).unwrap();
    assert_eq!(agg.table_len(), 1);
    agg.reset();
    assert_eq!(agg.table_len(), 0);
}

/// Retention: the duration knob drops rows too far behind the newest
/// one, the buffer knob caps the row count.
#[test]
fn retention_knobs() {
    let mut st = Settings::default();
    st.max_size_duration = 10 * SECOND;
    st.max_size_buffers = 2;
    let mut agg = DataframeAgg::new(st);
    agg.sink_chain(&batch_bytes(vec![
        record(1 * SECOND, 0, 0.9),
        record(14 * SECOND, 0, 0.9),
        record(15 * SECOND, 0, 0.9),
        record(20 * SECOND, 0, 0.9),
    ]))
    .unwrap();
    assert_eq!(agg.table_len(), 4);
    // 1 s is more than 10 s behind 20 s and goes; the cap then keeps the
    // last two of [14, 15, 20].
    agg.apply_retention();
    assert_eq!(agg.table_len(), 2);
    let ts: Vec<u64> = agg.sorted_snapshot().iter().map(|r| r.ts).collect();
    assert_eq!(ts, vec![15 * SECOND, 20 * SECOND]);
}

/// The adjustable properties: the two retention knobs read back what was
/// set, and the table is untouched.
#[test]
fn property_interface() {
    assert_eq!(
        DataframeAgg::properties(),
        vec![
            "max-size-buffers",
            "max-size-duration",
            "window-interval",
            "window-period",
            "window-offset",
            "window-truncate",
            "window-include-boundaries"
        ]
    );
    let mut agg = DataframeAgg::default();
    agg.sink_chain(&batch_bytes(vec![record(10, 0, 0.9)])).unwrap();
    agg.set_max_size_buffers(5);
    agg.set_max_size_duration(123);
    assert_eq!(agg.max_size_buffers(), 5);
    assert_eq!(agg.max_size_duration(), 123);
    assert_eq!(agg.table_len(), 1);
}

/// Sixteen decoded batches flow through the aggregator without error.
#[test]
fn test_dataframe_agg() {
    let num_detections = 40;
    let expected_buffers = 16;
    let mut agg = DataframeAgg::default();
    for i in 0..expected_buffers {
        let mut records = Vec::new();
        for d in 0..num_detections {
            records.push(record(i as u64 * SECOND / 16, (d % 5) as i32, 0.75));
        }
        agg.sink_chain(&batch_bytes(records)).unwrap();
    }
    assert_eq!(agg.table_len(), expected_buffers * num_detections);
}
