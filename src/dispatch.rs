use vstd::prelude::*;

use crate::context::{counters_have_room, ContextModel, DecoderContext, OutputFormat};
use crate::validate::{cc_type_of, cc_valid_of, lemma_marker_fields};

verus! {

/// A CEA-708 unit handed to the CEA-708 decoder.
#[derive(Clone, Copy, Debug, PartialEq, Eq, Structural)]
pub struct Cea708Packet {
    pub cc_valid: u8,
    pub cc_type: u8,
    pub data1: u8,
    pub data2: u8,
}

/// What dispatching one unit did.
#[derive(Clone, Copy, Debug, PartialEq, Eq, Structural)]
pub enum DispatchOutcome {
    /// A padding unit: nothing was counted.
    Padding,
    /// Neither valid nor of type 3: nothing was counted.
    Skipped,
    /// Line-21 data: counted and left for the line-21 decoder.
    LineTwentyOne,
    /// CEA-708 data outside the extraction window: counted, not forwarded.
    OutsideWindow,
    /// CEA-708 data in the window of a raw session: counted, not forwarded.
    KeptRaw,
    /// CEA-708 data to be processed by the CEA-708 decoder.
    Forwarded(Cea708Packet),
}

/// The padding markers.
pub open spec fn is_padding_marker(marker: u8) -> bool {
    marker == 0xFA || marker == 0xFC || marker == 0xFD
}

/// No padding marker is that of a CEA-708 unit that gets dispatched.
pub proof fn lemma_padding_marker_not_cea708(marker: u8)
    ensures
        is_padding_marker(marker) ==> cc_type_of(marker) <= 1 || !is_dispatched(marker),
{
    assert((marker == 0xFA || marker == 0xFC || marker == 0xFD) ==> marker & 3 <= 1 || ((marker
        & 4) >> 2 == 0 && marker & 3 == 2)) by (bit_vector);
}

/// Whether the unit is a padding unit that a session writing `format` skips:
/// the format is not a raw one, the marker is a padding marker and both
/// payload bytes are zero in their low seven bits.
pub open spec fn is_padding(format: OutputFormat, marker: u8, data1: u8, data2: u8) -> bool {
    &&& format != OutputFormat::Raw
    &&& format != OutputFormat::DvdRaw
    &&& is_padding_marker(marker)
    &&& data1 & 0x7F == 0
    &&& data2 & 0x7F == 0
}

/// Whether a unit with this marker is counted and handed on: it is valid, or
/// it is of type 3.
pub open spec fn is_dispatched(marker: u8) -> bool {
    cc_valid_of(marker) == 1 || cc_type_of(marker) == 3
}

/// Whether `time` falls before a set start of the extraction window.
pub open spec fn before_start(c: ContextModel, time: u32) -> bool {
    c.extraction_start.set && time < c.extraction_start.time_in_ms
}

/// Whether `time` falls after a set end of the extraction window.
pub open spec fn after_end(c: ContextModel, time: u32) -> bool {
    c.extraction_end.set && time > c.extraction_end.time_in_ms
}

/// Whether `time` lies inside the extraction window.
pub open spec fn in_window(c: ContextModel, time: u32) -> bool {
    !before_start(c, time) && !after_end(c, time)
}

/// What dispatching the unit in context `c` at presentation time `time` does.
pub open spec fn dispatch_outcome(
    c: ContextModel,
    marker: u8,
    data1: u8,
    data2: u8,
    time: u32,
) -> DispatchOutcome {
    if is_padding(c.write_format, marker, data1, data2) {
        DispatchOutcome::Padding
    } else if !is_dispatched(marker) {
        DispatchOutcome::Skipped
    } else if cc_type_of(marker) <= 1 {
        DispatchOutcome::LineTwentyOne
    } else if !in_window(c, time) {
        DispatchOutcome::OutsideWindow
    } else if c.write_format == OutputFormat::Raw {
        DispatchOutcome::KeptRaw
    } else {
        DispatchOutcome::Forwarded(
            Cea708Packet {
                cc_valid: cc_valid_of(marker),
                cc_type: cc_type_of(marker),
                data1,
                data2,
            },
        )
    }
}

/// The context after dispatching the unit in context `c` at presentation
/// time `time`.
pub open spec fn dispatch_state(
    c: ContextModel,
    marker: u8,
    data1: u8,
    data2: u8,
    time: u32,
) -> ContextModel {
    let t = cc_type_of(marker) as int;
    if is_padding(c.write_format, marker, data1, data2) || !is_dispatched(marker) {
        c
    } else if t <= 1 {
        ContextModel { cc_stats: c.cc_stats.update(t, c.cc_stats[t] + 1), ..c }
    } else {
        ContextModel {
            cc_stats: c.cc_stats.update(t, c.cc_stats[t] + 1),
            current_field: 3,
            processed_enough: c.processed_enough || after_end(c, time),
            cb_708: c.cb_708 + 1,
            ..c
        }
    }
}

/// Dispatches the unit `[marker, data1, data2]` at the start of `cc_block`
/// according to its type.
///
/// `current_time` is the presentation time of `ctx.current_field`; it only
/// matters for CEA-708 units. The unit is expected to have passed
/// `validate_cc_pair`. Padding units are skipped before anything is counted.
/// A CEA-708 unit sets the current field to 3, is counted in `cb_708`, and is
/// forwarded when its time lies in the extraction window and the session is
/// not raw; a time past the end of the window sets `processed_enough`.
pub fn do_cb(ctx: &mut DecoderContext, cc_block: &[u8], current_time: u32) -> (r: DispatchOutcome)
    requires
        cc_block@.len() >= 3,
        counters_have_room(old(ctx)@, 1),
    ensures
        r == dispatch_outcome(old(ctx)@, cc_block@[0], cc_block@[1], cc_block@[2], current_time),
        final(ctx)@ == dispatch_state(
            old(ctx)@,
            cc_block@[0],
            cc_block@[1],
            cc_block@[2],
            current_time,
        ),
        is_padding(old(ctx).write_format, cc_block@[0], cc_block@[1], cc_block@[2]) ==> r
            == DispatchOutcome::Padding && final(ctx)@ == old(ctx)@,
        cc_type_of(cc_block@[0]) >= 2 && is_dispatched(cc_block@[0]) ==> {
            &&& final(ctx).current_field == 3
            &&& final(ctx)@.cc_stats == old(ctx)@.cc_stats.update(
                cc_type_of(cc_block@[0]) as int,
                old(ctx)@.cc_stats[cc_type_of(cc_block@[0]) as int] + 1,
            )
            &&& final(ctx).cb_708 == old(ctx).cb_708 + 1
            &&& before_start(old(ctx)@, current_time) ==> r == DispatchOutcome::OutsideWindow
            &&& after_end(old(ctx)@, current_time) ==> final(ctx).processed_enough
        },
        old(ctx).processed_enough ==> final(ctx).processed_enough,
{
    let marker = cc_block[0];
    let data1 = cc_block[1];
    let data2 = cc_block[2];
    let cc_valid = (marker & 4) >> 2;
    let cc_type = marker & 3;
    proof {
        lemma_marker_fields(marker);
        lemma_padding_marker_not_cea708(marker);
    }
    let ghost c0 = ctx@;

    if ctx.write_format != OutputFormat::Raw && ctx.write_format != OutputFormat::DvdRaw && (marker
        == 0xFA || marker == 0xFC || marker == 0xFD) && (data1 & 0x7F) == 0 && (data2 & 0x7F) == 0 {
        return DispatchOutcome::Padding;
    }
    if !(cc_valid == 1 || cc_type == 3) {
        return DispatchOutcome::Skipped;
    }
    let t = cc_type as usize;
    ctx.cc_stats[t] = ctx.cc_stats[t] + 1;
    if cc_type <= 1 {
        // Line-21 data is left to the line-21 decoder.
        assert(ctx@.cc_stats =~= c0.cc_stats.update(t as int, c0.cc_stats[t as int] + 1));
        return DispatchOutcome::LineTwentyOne;
    }
    ctx.current_field = 3;
    ctx.cb_708 = ctx.cb_708 + 1;
    let mut timeok = true;
    if ctx.extraction_start.set && current_time < ctx.extraction_start.time_in_ms {
        timeok = false;
    }
    if ctx.extraction_end.set && current_time > ctx.extraction_end.time_in_ms {
        timeok = false;
        ctx.processed_enough = true;
    }
    assert(ctx@.cc_stats =~= c0.cc_stats.update(t as int, c0.cc_stats[t as int] + 1));
    if !timeok {
        DispatchOutcome::OutsideWindow
    } else if ctx.write_format == OutputFormat::Raw {
        DispatchOutcome::KeptRaw
    } else {
        DispatchOutcome::Forwarded(Cea708Packet { cc_valid, cc_type, data1, data2 })
    }
}

} // verus!
