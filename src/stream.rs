use vstd::prelude::*;

use crate::context::{counters_have_room, ContextModel, DecoderContext};
use crate::dispatch::{
    after_end, dispatch_outcome, dispatch_state, do_cb, is_dispatched,
    lemma_padding_marker_not_cea708, Cea708Packet, DispatchOutcome,
};
use crate::validate::{cc_type_of, lemma_marker_fields, pair_accepted, validate_cc_pair, validated_unit};

verus! {

/// The source of presentation times of the decoding session.
pub trait TimingSource {
    /// The current presentation time, in milliseconds, of `field`.
    fn get_fts(&self, field: u8) -> u32;
}

/// Why a batch of caption data gave nothing to decode.
#[derive(Clone, Copy, Debug, PartialEq, Eq, Structural)]
pub enum CcDataError {
    /// The buffer holds fewer than three bytes for each announced unit.
    ShortBuffer,
    /// No unit of the batch passed validation.
    NothingAccepted,
}

/// The `i`-th three-byte unit of `data`.
pub open spec fn unit_at(data: Seq<u8>, i: int) -> Seq<u8> {
    data.subrange(3 * i, 3 * i + 3)
}

/// The outcome of a batch: the context after it, the CEA-708 packets to
/// forward, in order, and whether any unit passed validation.
pub struct BatchModel {
    pub ctx: ContextModel,
    pub packets: Seq<Cea708Packet>,
    pub accepted: bool,
}

/// Processing the first `times.len()` units of `data` in order, starting in
/// context `c`, where `times[i]` is the presentation time looked up for unit
/// `i`: each unit is validated, and an accepted unit is dispatched.
pub open spec fn run_units(c: ContextModel, data: Seq<u8>, times: Seq<u32>) -> BatchModel
    decreases times.len(),
{
    if times.len() == 0 {
        BatchModel { ctx: c, packets: seq![], accepted: false }
    } else {
        let i = times.len() - 1;
        let before = run_units(c, data, times.drop_last());
        let u = unit_at(data, i);
        if pair_accepted(u[0], u[2]) {
            let v = validated_unit(u);
            let o = dispatch_outcome(before.ctx, v[0], v[1], v[2], times[i]);
            BatchModel {
                ctx: dispatch_state(before.ctx, v[0], v[1], v[2], times[i]),
                packets: match o {
                    DispatchOutcome::Forwarded(p) => before.packets.push(p),
                    _ => before.packets,
                },
                accepted: true,
            }
        } else {
            before
        }
    }
}

/// Once a batch starts with `processed_enough` set, it ends with it set:
/// the flag is never cleared by processing further units.
pub proof fn lemma_processed_enough_latches(c: ContextModel, data: Seq<u8>, times: Seq<u32>)
    requires
        c.processed_enough,
    ensures
        run_units(c, data, times).ctx.processed_enough,
    decreases times.len(),
{
    if times.len() > 0 {
        lemma_processed_enough_latches(c, data, times.drop_last());
    }
}

/// A unit whose presentation time falls after a set end of the extraction
/// window sets `processed_enough`, and every unit processed after it in the
/// session leaves it set.
pub proof fn lemma_end_of_window_latches(
    c: ContextModel,
    marker: u8,
    data1: u8,
    data2: u8,
    time: u32,
    data: Seq<u8>,
    times: Seq<u32>,
)
    requires
        after_end(c, time),
        cc_type_of(marker) >= 2,
        is_dispatched(marker),
    ensures
        dispatch_state(c, marker, data1, data2, time).processed_enough,
        run_units(dispatch_state(c, marker, data1, data2, time), data, times).ctx.processed_enough,
{
    lemma_padding_marker_not_cea708(marker);
    lemma_processed_enough_latches(dispatch_state(c, marker, data1, data2, time), data, times);
}

/// Validates and dispatches the `cc_count` three-byte units at the start of
/// `data`, in order, and returns the CEA-708 packets to forward to the
/// CEA-708 decoder.
///
/// The presentation time of each accepted unit is looked up in `timing` for
/// the context's current field at that point. Fails with `ShortBuffer`,
/// before any unit is looked at, when `data` is shorter than three bytes per
/// unit, and with `NothingAccepted` when no unit passes validation.
pub fn process_cc_data<T: TimingSource>(
    ctx: &mut DecoderContext,
    timing: &T,
    data: &[u8],
    cc_count: usize,
) -> (r: Result<Vec<Cea708Packet>, CcDataError>)
    requires
        counters_have_room(old(ctx)@, cc_count as int),
    ensures
        (r == Err::<Vec<Cea708Packet>, CcDataError>(CcDataError::ShortBuffer)) <==> data@.len() < 3
            * cc_count,
        data@.len() < 3 * cc_count ==> final(ctx)@ == old(ctx)@,
        data@.len() >= 3 * cc_count ==> exists|times: Seq<u32>|
            #![trigger run_units(old(ctx)@, data@, times)]
            {
                let b = run_units(old(ctx)@, data@, times);
                &&& times.len() == cc_count
                &&& final(ctx)@ == b.ctx
                &&& b.accepted ==> r is Ok && r->Ok_0@ == b.packets
                &&& !b.accepted ==> r == Err::<Vec<Cea708Packet>, CcDataError>(
                    CcDataError::NothingAccepted,
                )
            },
        old(ctx).processed_enough ==> final(ctx).processed_enough,
{
    if cc_count > data.len() / 3 {
        return Err(CcDataError::ShortBuffer);
    }
    let len = data.len();
    let ghost c0 = ctx@;
    let ghost mut times: Seq<u32> = seq![];
    let mut packets: Vec<Cea708Packet> = Vec::new();
    let mut accepted = false;
    let mut i: usize = 0;
    while i < cc_count
        invariant
            len == data@.len(),
            3 * cc_count <= len,
            i <= cc_count,
            times.len() == i,
            counters_have_room(ctx@, cc_count - i),
            run_units(c0, data@, times) == (BatchModel {
                ctx: ctx@,
                packets: packets@,
                accepted,
            }),
        decreases cc_count - i,
    {
        let mut unit: [u8; 3] = [data[3 * i], data[3 * i + 1], data[3 * i + 2]];
        let ghost raw = unit@;
        assert(raw =~= unit_at(data@, i as int));
        let ghost before = times;
        if validate_cc_pair(&mut unit) {
            assert(unit@ =~= validated_unit(raw));
            let now = timing.get_fts(ctx.current_field);
            let ghost prior = ctx@;
            proof {
                lemma_marker_fields(unit@[0]);
            }
            let outcome = do_cb(ctx, &unit, now);
            assert forall|k: int| 0 <= k < 4 implies #[trigger] ctx@.cc_stats[k] <= prior.cc_stats[k]
                + 1 by {}
            match outcome {
                DispatchOutcome::Forwarded(p) => {
                    packets.push(p);
                },
                _ => {},
            }
            accepted = true;
            proof {
                times = times.push(now);
            }
        } else {
            proof {
                times = times.push(0);
            }
        }
        assert(times.drop_last() =~= before);
        i = i + 1;
    }
    proof {
        if c0.processed_enough {
            lemma_processed_enough_latches(c0, data@, times);
        }
    }
    if accepted {
        Ok(packets)
    } else {
        Err(CcDataError::NothingAccepted)
    }
}

} // verus!
