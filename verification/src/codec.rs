//! The columnar batch codec: a self-describing binary frame for detection
//! batches, exchanged between pipeline stages as opaque buffers.
//!
//! Frame layout, all integers little-endian:
//!
//! | bytes          | content                                             |
//! |----------------|-----------------------------------------------------|
//! | 0..4           | magic `D F B 1`                                     |
//! | 4              | column count (7)                                    |
//! | 5..12          | one type tag per column: five float-bit columns, an |
//! |                | integer class column, a 64-bit timestamp column     |
//! | 12..16, 16..20 | frame-rate numerator and denominator                |
//! | 20..24         | row count `n`                                       |
//! | 24..           | seven columns back to back, cells in row order      |
//!
//! A frame is self-delimiting (its length is `24 + 32 n`), so frames can be
//! concatenated and read back as a sequence without a leading count.

use vstd::prelude::*;
use crate::batch::{DetectionRecord, DetectionBatch, BatchModel};
use crate::wire::{le32_at, le64_at, enc_u32, enc_u64, lemma_le32_enc, lemma_le64_enc, lemma_le32_at_eq, lemma_le64_at_eq, read_le32, read_le64, push_le32, push_le64};

verus! {

/// Why a batch could not be serialized or deserialized.
#[derive(Debug, Clone, Copy, PartialEq, Eq, Structural)]
pub enum SerializationError {
    /// The batch cannot be framed (its row count exceeds the format).
    EncodeFailure,
    /// The byte stream is corrupt or truncated.
    DecodeFailure,
}

pub const MAGIC0: u8 = 0x44;

pub const MAGIC1: u8 = 0x46;

pub const MAGIC2: u8 = 0x42;

pub const MAGIC3: u8 = 0x31;

/// Type tag of a column of 32-bit float bit patterns.
pub const TAG_F32: u8 = 1;

/// Type tag of the 32-bit integer class column.
pub const TAG_I32: u8 = 2;

/// Type tag of the 64-bit timestamp column.
pub const TAG_I64: u8 = 3;

/// The 32-bit cell of column `c` of a record, for the six leading columns
/// `x0, y0, x1, y1, class, score`.
pub open spec fn cell32(r: DetectionRecord, c: int) -> u32 {
    if c == 0 {
        r.x0
    } else if c == 1 {
        r.y0
    } else if c == 2 {
        r.x1
    } else if c == 3 {
        r.y1
    } else if c == 4 {
        r.class as u32
    } else {
        r.score
    }
}

/// The encoded bytes of 32-bit column `c`: cell after cell in row order.
pub open spec fn col32(rs: Seq<DetectionRecord>, c: int) -> Seq<u8> {
    Seq::new((4 * rs.len()) as nat, |k: int| enc_u32(cell32(rs[k / 4], c))[k % 4])
}

/// The encoded bytes of the timestamp column.
pub open spec fn col64(rs: Seq<DetectionRecord>) -> Seq<u8> {
    Seq::new((8 * rs.len()) as nat, |k: int| enc_u64(rs[k / 8].ts)[k % 8])
}

/// The first `c` 32-bit columns, concatenated.
pub open spec fn cols_prefix(rs: Seq<DetectionRecord>, c: int) -> Seq<u8>
    decreases c,
{
    if c <= 0 {
        Seq::empty()
    } else {
        cols_prefix(rs, c - 1) + col32(rs, c - 1)
    }
}

/// The 24 header bytes: magic, schema, frame-rate metadata, row count.
pub open spec fn header_spec(m: BatchModel) -> Seq<u8> {
    seq![
        MAGIC0,
        MAGIC1,
        MAGIC2,
        MAGIC3,
        7u8,
        TAG_F32,
        TAG_F32,
        TAG_F32,
        TAG_F32,
        TAG_I32,
        TAG_F32,
        TAG_I64,
    ] + enc_u32(m.rate_n as u32) + enc_u32(m.rate_d as u32) + enc_u32(m.records.len() as u32)
}

/// The full frame of one batch.
pub open spec fn encode_spec(m: BatchModel) -> Seq<u8> {
    header_spec(m) + cols_prefix(m.records, 6) + col64(m.records)
}

/// Serialize one batch. Succeeds exactly when the row count fits the
/// format's 32-bit counter; the bytes are then the frame of the batch.
pub fn encode(b: &DetectionBatch) -> (r: Result<Vec<u8>, SerializationError>)
    ensures
        r is Ok <==> b@.records.len() <= 0xFFFF_FFFF,
        r matches Ok(bytes) ==> bytes@ == encode_spec(b@),
        r matches Err(e) ==> e == SerializationError::EncodeFailure,
{
    let rows: &Vec<DetectionRecord> = &b.records;
    if (rows.len() as u64) > 0xFFFF_FFFFu64 {
        return Err(SerializationError::EncodeFailure);
    }
    let n: usize = rows.len();
    let mut out: Vec<u8> = Vec::new();
    out.push(MAGIC0);
    out.push(MAGIC1);
    out.push(MAGIC2);
    out.push(MAGIC3);
    out.push(7u8);
    out.push(TAG_F32);
    out.push(TAG_F32);
    out.push(TAG_F32);
    out.push(TAG_F32);
    out.push(TAG_I32);
    out.push(TAG_F32);
    out.push(TAG_I64);
    push_le32(&mut out, b.rate_n as u32);
    push_le32(&mut out, b.rate_d as u32);
    push_le32(&mut out, n as u32);
    assert(out@ =~= header_spec(b@));
    let ghost header = header_spec(b@);

    let mut c: u8 = 0;
    while c < 6
        invariant
            c <= 6,
            rows == b.records,
            out@ == header + cols_prefix(b@.records, c as int),
        decreases 6 - c,
    {
        let mut i: usize = 0;
        let ghost col_start = out@;
        while i < rows.len()
            invariant
                i <= rows@.len(),
                c < 6,
                rows == b.records,
                col_start == header + cols_prefix(b@.records, c as int),
                out@ == col_start + col32(b@.records.take(i as int), c as int),
            decreases rows@.len() - i,
        {
            let v = cell32_of(&rows[i], c);
            push_le32(&mut out, v);
            proof {
                let rs = b@.records;
                let pre = rs.take(i as int);
                let post = rs.take(i as int + 1);
                assert(col32(post, c as int) =~= col32(pre, c as int) + enc_u32(
                    cell32(rs[i as int], c as int),
                )) by {
                    assert forall|k: int| 0 <= k < 4 * post.len() implies col32(post, c as int)[k]
                        == (col32(pre, c as int) + enc_u32(cell32(rs[i as int], c as int)))[k] by {
                        assert(post[k / 4] == if k / 4 < i as int {
                            pre[k / 4]
                        } else {
                            rs[i as int]
                        });
                    }
                }
                assert(out@ =~= col_start + col32(post, c as int));
            }
            i = i + 1;
        }
        proof {
            assert(b@.records.take(rows@.len() as int) =~= b@.records);
            assert(cols_prefix(b@.records, c as int + 1) == cols_prefix(b@.records, c as int)
                + col32(b@.records, c as int));
        }
        c = c + 1;
    }
    let ghost before_ts = out@;
    let mut i: usize = 0;
    while i < rows.len()
        invariant
            i <= rows@.len(),
            rows == b.records,
            before_ts == header + cols_prefix(b@.records, 6),
            out@ == before_ts + col64(b@.records.take(i as int)),
        decreases rows@.len() - i,
    {
        push_le64(&mut out, rows[i].ts);
        proof {
            let rs = b@.records;
            let pre = rs.take(i as int);
            let post = rs.take(i as int + 1);
            assert(col64(post) =~= col64(pre) + enc_u64(rs[i as int].ts)) by {
                assert forall|k: int| 0 <= k < 8 * post.len() implies col64(post)[k] == (col64(pre)
                    + enc_u64(rs[i as int].ts))[k] by {
                    assert(post[k / 8] == if k / 8 < i as int {
                        pre[k / 8]
                    } else {
                        rs[i as int]
                    });
                }
            }
            assert(out@ =~= before_ts + col64(post));
        }
        i = i + 1;
    }
    proof {
        assert(b@.records.take(rows@.len() as int) =~= b@.records);
        assert(out@ =~= encode_spec(b@));
    }
    Ok(out)
}

/// The header of a frame starts at `s[0]`: magic, column count and the
/// seven type tags all have their fixed values.
pub open spec fn header_ok(s: Seq<u8>) -> bool {
    &&& s.len() >= 24
    &&& s[0] == MAGIC0
    &&& s[1] == MAGIC1
    &&& s[2] == MAGIC2
    &&& s[3] == MAGIC3
    &&& s[4] == 7u8
    &&& s[5] == TAG_F32
    &&& s[6] == TAG_F32
    &&& s[7] == TAG_F32
    &&& s[8] == TAG_F32
    &&& s[9] == TAG_I32
    &&& s[10] == TAG_F32
    &&& s[11] == TAG_I64
}

/// The row count announced by the frame at `s[0]`.
pub open spec fn frame_rows(s: Seq<u8>) -> nat {
    le32_at(s, 20) as nat
}

/// The byte length of a frame with `n` rows.
pub open spec fn frame_len(n: nat) -> nat {
    (24 + 32 * n) as nat
}

/// A whole frame stands at `s[0]`: valid header, and the announced rows
/// fit in the buffer.
pub open spec fn frame_ok(s: Seq<u8>) -> bool {
    header_ok(s) && s.len() >= frame_len(frame_rows(s))
}

/// Record `i` of the frame at `s[0]`, read back from the seven columns.
pub open spec fn decoded_record(s: Seq<u8>, n: nat, i: int) -> DetectionRecord {
    DetectionRecord {
        ts: le64_at(s, 24 + 24 * n + 8 * i),
        x0: le32_at(s, 24 + 4 * i),
        y0: le32_at(s, 24 + 4 * n + 4 * i),
        x1: le32_at(s, 24 + 8 * n + 4 * i),
        y1: le32_at(s, 24 + 12 * n + 4 * i),
        class: le32_at(s, 24 + 16 * n + 4 * i) as i32,
        score: le32_at(s, 24 + 20 * n + 4 * i),
    }
}

/// The batch described by the frame at `s[0]`.
pub open spec fn decoded_model(s: Seq<u8>) -> BatchModel {
    let n = frame_rows(s);
    BatchModel {
        records: Seq::new(n, |i: int| decoded_record(s, n, i)),
        rate_n: le32_at(s, 12) as i32,
        rate_d: le32_at(s, 16) as i32,
    }
}

/// What a buffer holding exactly one frame describes, if anything.
pub open spec fn decode_spec(s: Seq<u8>) -> Option<BatchModel> {
    if frame_ok(s) && s.len() == frame_len(frame_rows(s)) {
        Some(decoded_model(s))
    } else {
        None
    }
}

/// Casting a signed word to unsigned and back preserves it.
proof fn lemma_i32_u32_round(x: i32)
    ensures
        ((x as u32) as i32) == x,
{
    assert((x as u32) as i32 == x) by (bit_vector);
}

/// The concatenated 32-bit columns have four bytes per cell per column.
proof fn lemma_cols_prefix_len(rs: Seq<DetectionRecord>, c: int)
    requires
        0 <= c,
    ensures
        cols_prefix(rs, c).len() as int == 4 * c * (rs.len() as int),
    decreases c,
{
    if c > 0 {
        lemma_cols_prefix_len(rs, c - 1);
        let l = rs.len() as int;
        let pl = cols_prefix(rs, c - 1).len() as int;
        let tl = cols_prefix(rs, c).len() as int;
        assert(col32(rs, c - 1).len() == 4 * l);
        assert(tl == pl + 4 * l);
        assert(pl == 4 * (c - 1) * l);
        assert(tl == 4 * c * l) by (nonlinear_arith)
            requires
                tl == pl + 4 * l,
                pl == 4 * (c - 1) * l,
        ;
    } else {
        assert(cols_prefix(rs, c) =~= Seq::<u8>::empty());
        assert(4 * c * (rs.len() as int) == 0) by (nonlinear_arith)
            requires
                c == 0,
        ;
    }
}

/// Within the concatenated 32-bit columns, column `cc` starts at byte
/// `4 * cc * n`.
proof fn lemma_cols_prefix_index(rs: Seq<DetectionRecord>, c: int)
    requires
        0 <= c,
    ensures
        forall|cc: int, k: int|
            0 <= cc < c && 0 <= k < 4 * rs.len() ==> #[trigger] cols_prefix(rs, c)[4 * cc * rs.len()
                + k] == col32(rs, cc)[k],
    decreases c,
{
    if c > 0 {
        lemma_cols_prefix_index(rs, c - 1);
        lemma_cols_prefix_len(rs, c - 1);
        let n = rs.len() as int;
        assert forall|cc: int, k: int| 0 <= cc < c && 0 <= k < 4 * n implies #[trigger] cols_prefix(
            rs,
            c,
        )[4 * cc * n + k] == col32(rs, cc)[k] by {
            if cc < c - 1 {
                assert(4 * cc * n + k < 4 * (c - 1) * n) by (nonlinear_arith)
                    requires
                        0 <= cc < c - 1,
                        0 <= k < 4 * n,
                ;
                assert(cols_prefix(rs, c)[4 * cc * n + k] == cols_prefix(rs, c - 1)[4 * cc * n + k]);
            } else {
                assert(4 * cc * n + k == 4 * (c - 1) * n + k);
                assert(cols_prefix(rs, c)[4 * (c - 1) * n + k] == col32(rs, c - 1)[k]);
            }
        }
    }
}

/// In an encoded frame (with any tail), the 32-bit cell of column `cc`,
/// row `i`, reads back as the record's cell.
proof fn lemma_cell32_of_encode(m: BatchModel, rest: Seq<u8>, i: int, cc: int)
    requires
        m.records.len() <= 0xFFFF_FFFF,
        0 <= i < m.records.len(),
        0 <= cc < 6,
    ensures
        le32_at(encode_spec(m) + rest, 24 + 4 * cc * (m.records.len() as int) + 4 * i) == cell32(
            m.records[i],
            cc,
        ),
{
    let rs = m.records;
    let n = rs.len() as int;
    let s = encode_spec(m) + rest;
    let body = cols_prefix(rs, 6);
    lemma_cols_prefix_len(rs, 6);
    lemma_cols_prefix_index(rs, 6);
    let base = 4 * cc * n + 4 * i;
    assert(0 <= base && base + 4 <= 24 * n) by (nonlinear_arith)
        requires
            0 <= cc < 6,
            0 <= i < n,
            base == 4 * cc * n + 4 * i,
    ;
    assert forall|j: int| 0 <= j < 4 implies #[trigger] s[24 + base + j] == enc_u32(
        cell32(rs[i], cc),
    )[j] by {
        assert(s[24 + base + j] == body[base + j]);
        assert(body[4 * cc * n + (4 * i + j)] == col32(rs, cc)[4 * i + j]);
        assert(col32(rs, cc)[4 * i + j] == enc_u32(cell32(rs[(4 * i + j) / 4], cc))[(4 * i + j)
            % 4]);
        assert((4 * i + j) / 4 == i && (4 * i + j) % 4 == j) by (nonlinear_arith)
            requires
                0 <= j < 4,
                0 <= i,
        ;
    }
    lemma_le32_at_eq(s, 24 + base, enc_u32(cell32(rs[i], cc)), 0);
    lemma_le32_enc(cell32(rs[i], cc));
}

/// In an encoded frame (with any tail), the timestamp of row `i` reads
/// back as the record's timestamp.
proof fn lemma_ts_of_encode(m: BatchModel, rest: Seq<u8>, i: int)
    requires
        m.records.len() <= 0xFFFF_FFFF,
        0 <= i < m.records.len(),
    ensures
        le64_at(encode_spec(m) + rest, 24 + 24 * (m.records.len() as int) + 8 * i) == m.records[i].ts,
{
    let rs = m.records;
    let n = rs.len() as int;
    let s = encode_spec(m) + rest;
    lemma_cols_prefix_len(rs, 6);
    assert forall|j: int| 0 <= j < 8 implies #[trigger] s[24 + 24 * n + 8 * i + j] == enc_u64(
        rs[i].ts,
    )[j] by {
        assert(0 <= 8 * i + j < 8 * n) by (nonlinear_arith)
            requires
                0 <= i < n,
                0 <= j < 8,
        ;
        assert(s[24 + 24 * n + (8 * i + j)] == col64(rs)[8 * i + j]);
        assert(col64(rs)[8 * i + j] == enc_u64(rs[(8 * i + j) / 8].ts)[(8 * i + j) % 8]);
        assert((8 * i + j) / 8 == i && (8 * i + j) % 8 == j) by (nonlinear_arith)
            requires
                0 <= j < 8,
                0 <= i,
        ;
    }
    lemma_le64_at_eq(s, 24 + 24 * n + 8 * i, enc_u64(rs[i].ts), 0);
    lemma_le64_enc(rs[i].ts);
}

/// An encoded frame followed by anything reads back as the batch it
/// encodes, and consuming the frame leaves exactly the tail.
pub proof fn lemma_frame_of_encode(m: BatchModel, rest: Seq<u8>)
    requires
        m.records.len() <= 0xFFFF_FFFF,
    ensures
        encode_spec(m).len() == frame_len(m.records.len()),
        frame_ok(encode_spec(m) + rest),
        frame_rows(encode_spec(m) + rest) == m.records.len(),
        decoded_model(encode_spec(m) + rest) == m,
        (encode_spec(m) + rest).skip(frame_len(m.records.len()) as int) =~= rest,
{
    let rs = m.records;
    let n = rs.len() as int;
    let hd = header_spec(m);
    let enc = encode_spec(m);
    let s = enc + rest;
    lemma_cols_prefix_len(rs, 6);
    assert(hd.len() == 24);
    assert(enc.len() == 24 + 32 * n);

    // Header bytes, including the stored row count.
    assert(le32_at(s, 20) == rs.len() as u32) by {
        assert forall|j: int| 0 <= j < 4 implies #[trigger] s[20 + j] == enc_u32(
            rs.len() as u32,
        )[j] by {}
        lemma_le32_at_eq(s, 20, enc_u32(rs.len() as u32), 0);
        lemma_le32_enc(rs.len() as u32);
    }
    assert(frame_rows(s) == rs.len());
    assert(header_ok(s));
    assert(frame_ok(s));

    // Frame-rate metadata.
    assert(le32_at(s, 12) == m.rate_n as u32) by {
        assert forall|j: int| 0 <= j < 4 implies #[trigger] s[12 + j] == enc_u32(
            m.rate_n as u32,
        )[j] by {}
        lemma_le32_at_eq(s, 12, enc_u32(m.rate_n as u32), 0);
        lemma_le32_enc(m.rate_n as u32);
    }
    assert(le32_at(s, 16) == m.rate_d as u32) by {
        assert forall|j: int| 0 <= j < 4 implies #[trigger] s[16 + j] == enc_u32(
            m.rate_d as u32,
        )[j] by {}
        lemma_le32_at_eq(s, 16, enc_u32(m.rate_d as u32), 0);
        lemma_le32_enc(m.rate_d as u32);
    }
    lemma_i32_u32_round(m.rate_n);
    lemma_i32_u32_round(m.rate_d);

    // Every record reads back field for field.
    assert forall|i: int| 0 <= i < n implies decoded_record(s, rs.len(), i) == rs[i] by {
        lemma_cell32_of_encode(m, rest, i, 0);
        lemma_cell32_of_encode(m, rest, i, 1);
        lemma_cell32_of_encode(m, rest, i, 2);
        lemma_cell32_of_encode(m, rest, i, 3);
        lemma_cell32_of_encode(m, rest, i, 4);
        lemma_cell32_of_encode(m, rest, i, 5);
        lemma_ts_of_encode(m, rest, i);
        lemma_i32_u32_round(rs[i].class);
        assert(le32_at(s, 24 + 4 * 0 * n + 4 * i) == cell32(rs[i], 0));
        assert(le32_at(s, 24 + 4 * 1 * n + 4 * i) == cell32(rs[i], 1));
        assert(le32_at(s, 24 + 4 * 2 * n + 4 * i) == cell32(rs[i], 2));
        assert(le32_at(s, 24 + 4 * 3 * n + 4 * i) == cell32(rs[i], 3));
        assert(le32_at(s, 24 + 4 * 4 * n + 4 * i) == cell32(rs[i], 4));
        assert(le32_at(s, 24 + 4 * 5 * n + 4 * i) == cell32(rs[i], 5));
    }
    assert(decoded_model(s).records =~= rs);
}

/// The codec round trip: decoding an encoded batch yields the batch,
/// schema, rows, cell values and frame-rate metadata alike.
pub proof fn lemma_codec_round_trip(m: BatchModel)
    requires
        m.records.len() <= 0xFFFF_FFFF,
    ensures
        decode_spec(encode_spec(m)) == Some(m),
{
    lemma_frame_of_encode(m, Seq::empty());
    assert(encode_spec(m) + Seq::empty() =~= encode_spec(m));
}

/// Deserialize a buffer holding exactly one frame.
pub fn decode(bytes: &Vec<u8>) -> (r: Result<DetectionBatch, SerializationError>)
    ensures
        r is Ok <==> decode_spec(bytes@) is Some,
        r matches Ok(b) ==> decode_spec(bytes@) == Some(b@),
        r matches Err(e) ==> e == SerializationError::DecodeFailure,
{
    match decode_frame_at(bytes, 0) {
        Ok((b, next)) => {
            if next != bytes.len() {
                proof {
                    assert(frame_len(frame_rows(bytes@)) != bytes@.len());
                }
                Err(SerializationError::DecodeFailure)
            } else {
                proof {
                    lemma_skip_zero_is_self(bytes@);
                }
                Ok(b)
            }
        },
        Err(e) => {
            proof {
                lemma_skip_zero_is_self(bytes@);
            }
            Err(e)
        },
    }
}

proof fn lemma_skip_zero_is_self(s: Seq<u8>)
    ensures
        s.skip(0) =~= s,
{
}

/// Deserialize the frame starting at `off`, returning the batch and the
/// offset just past the frame.
#[verifier::rlimit(100)]
fn decode_frame_at(bytes: &Vec<u8>, off: usize) -> (r: Result<
    (DetectionBatch, usize),
    SerializationError,
>)
    requires
        off <= bytes@.len(),
    ensures
        r is Ok <==> frame_ok(bytes@.skip(off as int)),
        r matches Ok((b, next)) ==> {
            &&& b@ == decoded_model(bytes@.skip(off as int))
            &&& next == off + frame_len(frame_rows(bytes@.skip(off as int)))
            &&& next <= bytes@.len()
        },
        r matches Err(e) ==> e == SerializationError::DecodeFailure,
{
    let ghost suf = bytes@.skip(off as int);
    let len: usize = bytes.len();
    if len - off < 24 {
        return Err(SerializationError::DecodeFailure);
    }
    let magic_ok: bool = bytes[off] == MAGIC0 && bytes[off + 1] == MAGIC1 && bytes[off + 2]
        == MAGIC2 && bytes[off + 3] == MAGIC3;
    let schema_ok: bool = bytes[off + 4] == 7u8 && bytes[off + 5] == TAG_F32 && bytes[off + 6]
        == TAG_F32 && bytes[off + 7] == TAG_F32 && bytes[off + 8] == TAG_F32 && bytes[off + 9]
        == TAG_I32 && bytes[off + 10] == TAG_F32 && bytes[off + 11] == TAG_I64;
    if !magic_ok || !schema_ok {
        assert(!header_ok(suf));
        return Err(SerializationError::DecodeFailure);
    }
    let n32: u32 = read_le32(bytes, off + 20);
    proof {
        lemma_le32_at_eq(bytes@, off as int + 20, suf, 20);
        assert(frame_rows(suf) == n32 as nat);
    }
    let n: usize = n32 as usize;
    if ((len - off) as u64) < 24u64 + 32u64 * (n as u64) {
        assert(!frame_ok(suf));
        return Err(SerializationError::DecodeFailure);
    }
    assert(frame_ok(suf));
    let rate_n: i32 = read_le32(bytes, off + 12) as i32;
    let rate_d: i32 = read_le32(bytes, off + 16) as i32;
    proof {
        lemma_le32_at_eq(bytes@, off as int + 12, suf, 12);
        lemma_le32_at_eq(bytes@, off as int + 16, suf, 16);
    }
    let mut records: Vec<DetectionRecord> = Vec::new();
    let mut i: usize = 0;
    while i < n
        invariant
            i <= n,
            n == frame_rows(suf),
            suf == bytes@.skip(off as int),
            off + 24 + 32 * n <= bytes@.len(),
            bytes@.len() <= usize::MAX,
            records@.len() == i,
            forall|j: int| 0 <= j < i ==> records@[j] == decoded_record(suf, n as nat, j),
        decreases n - i,
    {
        let x0 = read_le32(bytes, off + 24 + 4 * i);
        let y0 = read_le32(bytes, off + 24 + 4 * n + 4 * i);
        let x1 = read_le32(bytes, off + 24 + 8 * n + 4 * i);
        let y1 = read_le32(bytes, off + 24 + 12 * n + 4 * i);
        let class = read_le32(bytes, off + 24 + 16 * n + 4 * i) as i32;
        let score = read_le32(bytes, off + 24 + 20 * n + 4 * i);
        let ts = read_le64(bytes, off + 24 + 24 * n + 8 * i);
        proof {
            lemma_le32_at_eq(bytes@, off as int + 24 + 4 * i, suf, 24 + 4 * i);
            lemma_le32_at_eq(bytes@, off as int + 24 + 4 * n + 4 * i, suf, 24 + 4 * n + 4 * i);
            lemma_le32_at_eq(bytes@, off as int + 24 + 8 * n + 4 * i, suf, 24 + 8 * n + 4 * i);
            lemma_le32_at_eq(bytes@, off as int + 24 + 12 * n + 4 * i, suf, 24 + 12 * n + 4 * i);
            lemma_le32_at_eq(bytes@, off as int + 24 + 16 * n + 4 * i, suf, 24 + 16 * n + 4 * i);
            lemma_le32_at_eq(bytes@, off as int + 24 + 20 * n + 4 * i, suf, 24 + 20 * n + 4 * i);
            lemma_le64_at_eq(bytes@, off as int + 24 + 24 * n + 8 * i, suf, 24 + 24 * n + 8 * i);
        }
        records.push(DetectionRecord { ts, x0, y0, x1, y1, class, score });
        i = i + 1;
    }
    let b = DetectionBatch { records, rate_n, rate_d };
    proof {
        assert(b@.records =~= decoded_model(suf).records);
    }
    Ok((b, off + 24 + 32 * n))
}

/// What a buffer holding zero or more frames back to back describes:
/// the batches in order, or nothing if any frame is corrupt or truncated.
pub open spec fn decode_stream_spec(s: Seq<u8>) -> Option<Seq<BatchModel>>
    decreases s.len(),
{
    if s.len() == 0 {
        Some(Seq::empty())
    } else if frame_ok(s) {
        match decode_stream_spec(s.skip(frame_len(frame_rows(s)) as int)) {
            Some(rest) => Some(Seq::empty().push(decoded_model(s)) + rest),
            None => None,
        }
    } else {
        None
    }
}

/// Deserialize a concatenation of frames, in order. Succeeds exactly when
/// the whole buffer is a sequence of well-formed frames.
pub fn decode_stream(bytes: &Vec<u8>) -> (r: Result<Vec<DetectionBatch>, SerializationError>)
    ensures
        r is Ok <==> decode_stream_spec(bytes@) is Some,
        r matches Ok(bs) ==> decode_stream_spec(bytes@) == Some(
            bs@.map_values(|b: DetectionBatch| b@),
        ),
        r matches Err(e) ==> e == SerializationError::DecodeFailure,
{
    let mut out: Vec<DetectionBatch> = Vec::new();
    let mut off: usize = 0;
    let len: usize = bytes.len();
    proof {
        assert(bytes@.skip(0) =~= bytes@);
    }
    while off < len
        invariant
            off <= len,
            len == bytes@.len(),
            decode_stream_spec(bytes@) is Some <==> decode_stream_spec(
                bytes@.skip(off as int),
            ) is Some,
            decode_stream_spec(bytes@) is Some ==> decode_stream_spec(bytes@)->Some_0
                == out@.map_values(|b: DetectionBatch| b@) + decode_stream_spec(
                bytes@.skip(off as int),
            )->Some_0,
        decreases len - off,
    {
        match decode_frame_at(bytes, off) {
            Ok((b, next)) => {
                proof {
                    let suf = bytes@.skip(off as int);
                    assert(suf.len() > 0);
                    assert(frame_ok(suf));
                    assert(suf.skip(frame_len(frame_rows(suf)) as int) =~= bytes@.skip(
                        next as int,
                    ));
                    assert(next > off);
                }
                let ghost prev_out = out@;
                out.push(b);
                proof {
                    let suf = bytes@.skip(off as int);
                    let tail = bytes@.skip(next as int);
                    if decode_stream_spec(bytes@) is Some {
                        let all = decode_stream_spec(bytes@)->Some_0;
                        let rest = decode_stream_spec(suf)->Some_0;
                        let rest2 = decode_stream_spec(tail)->Some_0;
                        assert(rest == Seq::empty().push(decoded_model(suf)) + rest2);
                        assert(out@.map_values(|bb: DetectionBatch| bb@) =~= prev_out.map_values(
                            |bb: DetectionBatch| bb@,
                        ).push(b@));
                        assert(all =~= out@.map_values(|bb: DetectionBatch| bb@) + rest2);
                    }
                }
                off = next;
            },
            Err(e) => {
                proof {
                    let suf = bytes@.skip(off as int);
                    assert(suf.len() > 0);
                    assert(decode_stream_spec(suf) is None);
                }
                return Err(SerializationError::DecodeFailure);
            },
        }
    }
    proof {
        assert(bytes@.skip(off as int) =~= Seq::<u8>::empty());
        assert(decode_stream_spec(bytes@.skip(off as int)) == Some(Seq::<BatchModel>::empty()));
        if decode_stream_spec(bytes@) is Some {
            assert(decode_stream_spec(bytes@)->Some_0 =~= out@.map_values(
                |b: DetectionBatch| b@,
            ));
        }
    }
    Ok(out)
}

/// The concatenation of the frames of a sequence of batches.
pub open spec fn encode_all_spec(ms: Seq<BatchModel>) -> Seq<u8>
    decreases ms.len(),
{
    if ms.len() == 0 {
        Seq::empty()
    } else {
        encode_spec(ms[0]) + encode_all_spec(ms.drop_first())
    }
}

/// Concatenated frames read back as the batches that produced them: the
/// streaming round trip, for any number of batches in any order.
pub proof fn lemma_stream_round_trip(ms: Seq<BatchModel>)
    requires
        forall|i: int| 0 <= i < ms.len() ==> (#[trigger] ms[i]).records.len() <= 0xFFFF_FFFF,
    ensures
        decode_stream_spec(encode_all_spec(ms)) == Some(ms),
    decreases ms.len(),
{
    if ms.len() == 0 {
        assert(decode_stream_spec(Seq::empty()) == Some(Seq::<BatchModel>::empty()));
        assert(ms =~= Seq::<BatchModel>::empty());
    } else {
        let m = ms[0];
        let rest = ms.drop_first();
        let tail = encode_all_spec(rest);
        let s = encode_spec(m) + tail;
        lemma_frame_of_encode(m, tail);
        assert(s.len() > 0);
        lemma_stream_round_trip(rest);
        assert(s.skip(frame_len(frame_rows(s)) as int) =~= tail);
        assert(Seq::empty().push(decoded_model(s)) + rest =~= ms);
    }
}

/// The 32-bit cell of column `c` of a record.
fn cell32_of(r: &DetectionRecord, c: u8) -> (v: u32)
    requires
        c < 6,
    ensures
        v == cell32(*r, c as int),
{
    if c == 0 {
        r.x0
    } else if c == 1 {
        r.y0
    } else if c == 2 {
        r.x1
    } else if c == 3 {
        r.y1
    } else if c == 4 {
        r.class as u32
    } else {
        r.score
    }
}

} // verus!
