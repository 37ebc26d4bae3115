//! The raw inference output: four fixed-role tensors (bounding boxes,
//! classes, scores, detection count), each with rank-4 dimensions, an
//! element type and a block of mapped memory. The decoder consumes one such
//! set per inference cycle.

use vstd::prelude::*;

verus! {

/// Rank limit of the tensor framework: every dimension list has this length.
pub const NNS_TENSOR_RANK_LIMIT: usize = 4;

/// Element type of a tensor, as reported by the inference stage.
#[derive(Debug, Clone, Copy, PartialEq, Eq, Structural)]
#[allow(non_camel_case_types)]
pub enum TensorType {
    NNS_INT32,
    NNS_UINT32,
    NNS_INT16,
    NNS_UINT16,
    NNS_INT8,
    NNS_UINT8,
    NNS_FLOAT64,
    NNS_FLOAT32,
    NNS_INT64,
    NNS_UINT64,
    NNS_FLOAT16,
    NNS_END,
}

/// Layout family of a tensor stream.
#[derive(Debug, Clone, Copy, PartialEq, Eq, Structural)]
#[allow(non_camel_case_types)]
pub enum TensorFormat {
    NNS_TENSOR_FORMAT_STATIC,
    NNS_TENSOR_FORMAT_FLEXIBLE,
    NNS_TENSOR_FORMAT_SPARSE,
    NNS_TENSOR_FORMAT_END,
}

/// One mapped memory block handed over by the inference stage.
#[derive(Debug, Clone)]
pub struct GstTensorMemory {
    pub data: Vec<u8>,
}

/// Shape and type descriptor of one tensor.
#[derive(Debug, Clone)]
pub struct GstTensorInfo {
    pub name: String,
    pub tensor_type: TensorType,
    pub tensor_dim: Vec<u32>,
}

impl GstTensorInfo {
    /// Every descriptor carries exactly the rank-limit many dimensions.
    pub open spec fn wf(&self) -> bool {
        self.tensor_dim@.len() == 4
    }
}

/// Descriptors for a set of tensors produced in one inference cycle.
#[derive(Debug, Clone)]
pub struct GstTensorsInfo {
    pub num_tensors: i32,
    pub info: Vec<GstTensorInfo>,
}

impl GstTensorsInfo {
    /// The descriptor list is fully populated and consistent with the count.
    pub open spec fn wf(&self) -> bool {
        &&& self.info@.len() == 4
        &&& forall|i: int| 0 <= i < 4 ==> (#[trigger] self.info@[i]).wf()
    }
}

/// Stream-level configuration of a tensor set: descriptors, layout family
/// and the frame rate carried out-of-band as a fraction.
#[derive(Debug, Clone)]
pub struct GstTensorsConfig {
    pub info: GstTensorsInfo,
    pub format: TensorFormat,
    pub rate_n: i32,
    pub rate_d: i32,
}

impl GstTensorsConfig {
    pub open spec fn wf(&self) -> bool {
        self.info.wf()
    }
}

/// A decimal digit.
pub open spec fn is_digit(c: char) -> bool {
    48 <= c as int <= 57
}

/// The value of a decimal digit.
pub open spec fn digit_val(c: char) -> int {
    c as int - 48
}

/// The tensor-shapes grammar, value by value: groups of dimensions
/// separated by commas, dimensions within a group separated by colons,
/// each dimension a decimal number fitting 32 bits. `cur` is the number
/// being read (if any), `grp` the group being filled, `out` the finished
/// groups.
pub open spec fn parse_shapes_from(
    s: Seq<char>,
    i: int,
    cur: Option<int>,
    grp: Seq<u32>,
    out: Seq<Seq<u32>>,
) -> Option<Seq<Seq<u32>>>
    decreases s.len() - i,
{
    if i < 0 || i >= s.len() {
        match cur {
            Some(v) => Some(out.push(grp.push(v as u32))),
            None => None,
        }
    } else if is_digit(s[i]) {
        let v = (match cur {
            Some(v) => v * 10,
            None => 0,
        }) + digit_val(s[i]);
        if v > 0xFFFF_FFFF {
            None
        } else {
            parse_shapes_from(s, i + 1, Some(v), grp, out)
        }
    } else if s[i] == ':' {
        match cur {
            Some(v) => parse_shapes_from(s, i + 1, None, grp.push(v as u32), out),
            None => None,
        }
    } else if s[i] == ',' {
        match cur {
            Some(v) => parse_shapes_from(s, i + 1, None, Seq::empty(), out.push(grp.push(v as u32))),
            None => None,
        }
    } else {
        None
    }
}

/// What a tensor-shapes string like `4:40:1:1,40:1:1:1` describes, if it
/// is well-formed.
pub open spec fn parse_tensor_shapes_spec(s: Seq<char>) -> Option<Seq<Seq<u32>>> {
    parse_shapes_from(s, 0, None, Seq::empty(), Seq::empty())
}

/// The `cur` state as the grammar sees it.
pub open spec fn cur_val(cur: Option<u32>) -> Option<int> {
    match cur {
        Some(v) => Some(v as int),
        None => None,
    }
}

/// Parse a tensor-shapes string: the number of tensors and their
/// dimension lists. Succeeds exactly on strings the grammar accepts, and
/// returns exactly the values the grammar reads.
pub fn parse_tensor_shapes(s: &str) -> (r: Option<(usize, Vec<Vec<u32>>)>)
    ensures
        r is Some <==> parse_tensor_shapes_spec(s@) is Some,
        r matches Some((n, shapes)) ==> parse_tensor_shapes_spec(s@) == Some(shapes.deep_view())
            && n == shapes@.len(),
{
    let len: usize = s.unicode_len();
    let mut i: usize = 0;
    let mut cur: Option<u32> = None;
    let mut grp: Vec<u32> = Vec::new();
    let mut out: Vec<Vec<u32>> = Vec::new();
    proof {
        assert(out.deep_view() =~= Seq::<Seq<u32>>::empty());
    }
    while i < len
        invariant
            i <= len,
            len == s@.len(),
            parse_tensor_shapes_spec(s@) == parse_shapes_from(
                s@,
                i as int,
                cur_val(cur),
                grp@,
                out.deep_view(),
            ),
        decreases len - i,
    {
        let c = s.get_char(i);
        let cu: u32 = c as u32;
        if 48 <= cu && cu <= 57 {
            let d: u32 = cu - 48;
            let v64: u64 = (match cur {
                Some(v) => (v as u64) * 10,
                None => 0u64,
            }) + (d as u64);
            if v64 > 0xFFFF_FFFFu64 {
                proof {
                    assert(parse_shapes_from(s@, i as int, cur_val(cur), grp@, out.deep_view())
                        is None);
                }
                return None;
            }
            cur = Some(v64 as u32);
        } else if c == ':' {
            match cur {
                Some(v) => {
                    grp.push(v);
                    cur = None;
                },
                None => {
                    return None;
                },
            }
        } else if c == ',' {
            match cur {
                Some(v) => {
                    grp.push(v);
                    let ghost prev_out = out.deep_view();
                    let ghost done = grp@;
                    out.push(grp);
                    proof {
                        assert(out.deep_view() =~~= prev_out.push(done));
                    }
                    grp = Vec::new();
                    cur = None;
                    proof {
                        assert(grp@ =~= Seq::<u32>::empty());
                    }
                },
                None => {
                    return None;
                },
            }
        } else {
            return None;
        }
        i = i + 1;
    }
    match cur {
        Some(v) => {
            grp.push(v);
            let ghost prev_out = out.deep_view();
            let ghost done = grp@;
            out.push(grp);
            proof {
                assert(out.deep_view() =~~= prev_out.push(done));
            }
            let n = out.len();
            proof {
                assert(out.deep_view().len() == out@.len());
            }
            Some((n, out))
        },
        None => None,
    }
}

} // verus!
