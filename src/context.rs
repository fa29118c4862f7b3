use vstd::prelude::*;

verus! {

/// The output format that the decoding session writes.
#[derive(Clone, Copy, Debug, PartialEq, Eq, Structural)]
pub enum OutputFormat {
    Raw,
    Srt,
    Sami,
    Transcript,
    Rcwt,
    Null,
    SmpteTt,
    SpuPng,
    DvdRaw,
    WebVtt,
    SimpleXml,
    G608,
    Curl,
    Ssa,
    Mcc,
    Scc,
    Ccd,
}

/// One bound of the extraction window: whether it is set, and its time.
#[derive(Clone, Copy, Debug, PartialEq, Eq, Structural)]
pub struct BoundaryTime {
    pub set: bool,
    pub time_in_ms: u32,
}

/// The state that dispatching caption units reads and updates.
#[derive(Clone, Copy, Debug)]
pub struct DecoderContext {
    /// Format written by the session.
    pub write_format: OutputFormat,
    /// Field whose presentation time the next CEA-708 unit is stamped with.
    pub current_field: u8,
    /// Start of the extraction window.
    pub extraction_start: BoundaryTime,
    /// End of the extraction window.
    pub extraction_end: BoundaryTime,
    /// Set once a CEA-708 unit was seen past the end of the window.
    pub processed_enough: bool,
    /// Number of units dispatched, one counter for each caption type.
    pub cc_stats: [u64; 4],
    /// Number of CEA-708 units dispatched.
    pub cb_708: u64,
}

/// The mathematical value of a decoder context.
pub struct ContextModel {
    pub write_format: OutputFormat,
    pub current_field: u8,
    pub extraction_start: BoundaryTime,
    pub extraction_end: BoundaryTime,
    pub processed_enough: bool,
    pub cc_stats: Seq<int>,
    pub cb_708: int,
}

impl View for DecoderContext {
    type V = ContextModel;

    open spec fn view(&self) -> ContextModel {
        ContextModel {
            write_format: self.write_format,
            current_field: self.current_field,
            extraction_start: self.extraction_start,
            extraction_end: self.extraction_end,
            processed_enough: self.processed_enough,
            cc_stats: Seq::new(4, |i: int| self.cc_stats@[i] as int),
            cb_708: self.cb_708 as int,
        }
    }
}

/// Whether every counter of the context can still grow by `n`.
pub open spec fn counters_have_room(c: ContextModel, n: int) -> bool {
    &&& forall|i: int| 0 <= i < 4 ==> #[trigger] c.cc_stats[i] + n <= u64::MAX
    &&& c.cb_708 + n <= u64::MAX
}

impl DecoderContext {
    /// A fresh context for a session writing `write_format`: no field seen,
    /// no extraction bounds, all counters at zero.
    pub fn new(write_format: OutputFormat) -> (r: DecoderContext)
        ensures
            r@ == (ContextModel {
                write_format,
                current_field: 0,
                extraction_start: BoundaryTime { set: false, time_in_ms: 0 },
                extraction_end: BoundaryTime { set: false, time_in_ms: 0 },
                processed_enough: false,
                cc_stats: seq![0int, 0int, 0int, 0int],
                cb_708: 0,
            }),
    {
        let r = DecoderContext {
            write_format,
            current_field: 0,
            extraction_start: BoundaryTime { set: false, time_in_ms: 0 },
            extraction_end: BoundaryTime { set: false, time_in_ms: 0 },
            processed_enough: false,
            cc_stats: [0u64, 0u64, 0u64, 0u64],
            cb_708: 0,
        };
        assert(r@.cc_stats =~= seq![0int, 0int, 0int, 0int]);
        r
    }
}

} // verus!
