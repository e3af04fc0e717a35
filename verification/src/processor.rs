//! Stereo processor: one filter per channel, updated as a pair.
//!
//! The processor owns exactly two [`Filter`] instances. A parameter update
//! is applied to both channels as one logical operation, so the channels
//! are always parameter-consistent and diverge only in their per-sample
//! delay state. A block of interleaved stereo frames is processed in place,
//! frame by frame, in frame order.
//!
//! The audio-task entry point combines the coalescing drain of the
//! parameter channel with at most one update and one block pass, exactly
//! as the audio interrupt runs them back to back.

use crate::channel::ParamChannel;
use crate::filter::{
    coeffs_for, default_params, shifted, tick_output, valid_params, zero_state, Coefficients,
    ConfigError, DelayState, Filter, FilterParams, FilterType,
};
use vstd::prelude::*;

verus! {

/// Frames per hardware transfer block: fixed for the life of the system.
pub const BLOCK_LENGTH: usize = 32;

/// The system's fixed sample rate in hertz.
pub const SAMPLE_RATE_HZ: u32 = 48_000;

/// A pair of samples, one per channel, at the same instant.
#[derive(Clone, Copy, PartialEq, Eq, Structural, Debug)]
pub struct AudioFrame {
    pub left: i64,
    pub right: i64,
}

/// The left samples of a sequence of frames.
pub open spec fn lefts(frames: Seq<AudioFrame>) -> Seq<i64> {
    frames.map_values(|f: AudioFrame| f.left)
}

/// The right samples of a sequence of frames.
pub open spec fn rights(frames: Seq<AudioFrame>) -> Seq<i64> {
    frames.map_values(|f: AudioFrame| f.right)
}

/// The delay state a filter with the given coefficients reaches after
/// consuming the whole input sequence, starting from `st`.
pub open spec fn state_after(c: Coefficients, st: DelayState, inputs: Seq<i64>) -> DelayState
    decreases inputs.len(),
{
    if inputs.len() == 0 {
        st
    } else {
        let prev = state_after(c, st, inputs.drop_last());
        shifted(prev, inputs.last(), tick_output(c, prev, inputs.last()) as i64)
    }
}

/// The output sample the filter produces for `inputs[i]`, having already
/// consumed `inputs[..i]` from the starting state.
pub open spec fn output_at(c: Coefficients, st: DelayState, inputs: Seq<i64>, i: int) -> int
    recommends
        0 <= i < inputs.len(),
{
    tick_output(c, state_after(c, st, inputs.take(i)), inputs[i])
}

/// Stereo processor: both filters always share type, sample rate,
/// parameters and coefficients; only the delay state is channel-specific.
pub struct Processor {
    pub filter_left: Filter,
    pub filter_right: Filter,
}

/// The frames a processor produces for a block: each frame is replaced by
/// the two channels' outputs, in frame order.
pub open spec fn frame_outputs(p: Processor, frames: Seq<AudioFrame>) -> Seq<AudioFrame> {
    Seq::new(
        frames.len(),
        |i: int|
            (AudioFrame {
                left: output_at(p.filter_left.coeffs, p.filter_left.state, lefts(frames), i) as i64,
                right: output_at(
                    p.filter_right.coeffs,
                    p.filter_right.state,
                    rights(frames),
                    i,
                ) as i64,
            }),
    )
}

/// The processor after a block pass: both filters keep their configuration
/// and advance their delay state over their channel's samples.
pub open spec fn advanced(p: Processor, frames: Seq<AudioFrame>) -> Processor {
    Processor {
        filter_left: Filter {
            state: state_after(p.filter_left.coeffs, p.filter_left.state, lefts(frames)),
            ..p.filter_left
        },
        filter_right: Filter {
            state: state_after(p.filter_right.coeffs, p.filter_right.state, rights(frames)),
            ..p.filter_right
        },
    }
}

/// What a coalescing drain of the given pending entries yields: the most
/// recent entry, or nothing.
pub open spec fn coalesced(entries: Seq<FilterParams>) -> Option<FilterParams> {
    if entries.len() == 0 {
        None
    } else {
        Some(entries.last())
    }
}

/// The processor after applying a drained parameter set, when one was
/// drained and it is valid at the processor's rate; otherwise unchanged.
pub open spec fn with_update(p: Processor, drained: Option<FilterParams>) -> Processor {
    match drained {
        None => p,
        Some(params) => if valid_params(params, p.filter_left.sample_rate_hz) {
            Processor {
                filter_left: Filter {
                    params,
                    coeffs: coeffs_for(
                        p.filter_left.ftype,
                        p.filter_left.sample_rate_hz,
                        params,
                    ),
                    ..p.filter_left
                },
                filter_right: Filter {
                    params,
                    coeffs: coeffs_for(
                        p.filter_right.ftype,
                        p.filter_right.sample_rate_hz,
                        params,
                    ),
                    ..p.filter_right
                },
            }
        } else {
            p
        },
    }
}

/// The configuration both channel filters hold right after construction:
/// lowpass, the system sample rate, the default parameters and the
/// coefficients derived from exactly that triple.
pub open spec fn initial_filter() -> Filter {
    Filter {
        ftype: FilterType::Lowpass,
        sample_rate_hz: SAMPLE_RATE_HZ,
        params: default_params(),
        coeffs: coeffs_for(FilterType::Lowpass, SAMPLE_RATE_HZ, default_params()),
        state: zero_state(),
    }
}

impl Processor {
    /// Well-formedness: both filters are well-formed and share type, rate,
    /// parameters and coefficients.
    pub open spec fn wf(self) -> bool {
        &&& self.filter_left.wf()
        &&& self.filter_right.wf()
        &&& self.filter_left.ftype == self.filter_right.ftype
        &&& self.filter_left.sample_rate_hz == self.filter_right.sample_rate_hz
        &&& self.filter_left.params == self.filter_right.params
        &&& self.filter_left.coeffs == self.filter_right.coeffs
    }

    /// Constructs the stereo pair: two lowpass filters bound to the fixed
    /// system sample rate. The fixed rate is statically valid, so
    /// construction cannot fail.
    pub fn new() -> (p: Processor)
        ensures
            p.wf(),
            p.filter_left == initial_filter(),
            p.filter_right == initial_filter(),
    {
        let mut filter_left = Filter::new(FilterType::Lowpass);
        let mut filter_right = Filter::new(FilterType::Lowpass);
        match filter_left.set_sample_rate(SAMPLE_RATE_HZ) {
            Ok(()) => {},
            Err(_) => {
                proof {
                    assert(false);
                }
            },
        }
        match filter_right.set_sample_rate(SAMPLE_RATE_HZ) {
            Ok(()) => {},
            Err(_) => {
                proof {
                    assert(false);
                }
            },
        }
        Processor { filter_left, filter_right }
    }

    /// Applies a parameter set to both channel filters as one logical
    /// operation. Succeeds exactly when the set is valid at the system
    /// rate; on failure neither channel is touched, so the channels stay
    /// parameter-consistent either way. Configuration errors propagate to
    /// the caller.
    pub fn update(&mut self, params: FilterParams) -> (r: Result<(), ConfigError>)
        requires
            old(self).wf(),
        ensures
            final(self).wf(),
            r is Ok <==> valid_params(params, old(self).filter_left.sample_rate_hz),
            r is Ok ==> *final(self) == with_update(*old(self), Some(params)),
            r is Err ==> *final(self) == *old(self),
    {
        match self.filter_left.set_params(params) {
            Ok(()) => {},
            Err(e) => {
                return Err(e);
            },
        }
        match self.filter_right.set_params(params) {
            Ok(()) => {},
            Err(_) => {
                proof {
                    assert(false);
                }
            },
        }
        Ok(())
    }

    /// Processes a whole block in place: every frame is replaced by the two
    /// channels' outputs for it, in frame order.
    pub fn process(&mut self, block: &mut Vec<AudioFrame>)
        requires
            old(self).wf(),
            old(block).len() == BLOCK_LENGTH,
        ensures
            final(self).wf(),
            *final(self) == advanced(*old(self), old(block)@),
            final(block)@ == frame_outputs(*old(self), old(block)@),
    {
        let ghost frames0 = old(block)@;
        let ghost p0 = *old(self);
        let mut idx: usize = 0;
        while idx < BLOCK_LENGTH
            invariant
                idx <= BLOCK_LENGTH,
                block.len() == BLOCK_LENGTH,
                frames0.len() == BLOCK_LENGTH,
                p0.wf(),
                self.filter_left == (Filter {
                    state: state_after(
                        p0.filter_left.coeffs,
                        p0.filter_left.state,
                        lefts(frames0).take(idx as int),
                    ),
                    ..p0.filter_left
                }),
                self.filter_right == (Filter {
                    state: state_after(
                        p0.filter_right.coeffs,
                        p0.filter_right.state,
                        rights(frames0).take(idx as int),
                    ),
                    ..p0.filter_right
                }),
                forall|j: int| 0 <= j < idx ==> block@[j] == frame_outputs(p0, frames0)[j],
                forall|j: int| idx <= j < BLOCK_LENGTH ==> block@[j] == frames0[j],
            decreases BLOCK_LENGTH - idx,
        {
            let frame = block[idx];
            proof {
                assert(lefts(frames0).take(idx as int + 1).drop_last() =~= lefts(frames0).take(
                    idx as int,
                ));
                assert(rights(frames0).take(idx as int + 1).drop_last() =~= rights(frames0).take(
                    idx as int,
                ));
                assert(lefts(frames0)[idx as int] == frames0[idx as int].left);
                assert(rights(frames0)[idx as int] == frames0[idx as int].right);
            }
            let out_left = self.filter_left.tick(frame.left);
            let out_right = self.filter_right.tick(frame.right);
            block.set(idx, AudioFrame { left: out_left, right: out_right });
            idx = idx + 1;
        }
        proof {
            assert(lefts(frames0).take(BLOCK_LENGTH as int) =~= lefts(frames0));
            assert(rights(frames0).take(BLOCK_LENGTH as int) =~= rights(frames0));
            assert(block@ =~= frame_outputs(p0, frames0));
        }
    }
}

/// One audio-task activation: drain the parameter channel keeping only the
/// most recent pending set, apply it to the processor exactly once (when
/// present and valid), then process the block in place. The channel is
/// left empty; intermediate pending values are discarded, never applied.
pub fn audio_task_step(
    processor: &mut Processor,
    channel: &mut ParamChannel,
    block: &mut Vec<AudioFrame>,
) -> (drained: Option<FilterParams>)
    requires
        old(processor).wf(),
        old(block).len() == BLOCK_LENGTH,
    ensures
        final(processor).wf(),
        drained == coalesced(old(channel).pending()),
        final(channel).pending() == Seq::<FilterParams>::empty(),
        *final(processor) == advanced(
            with_update(*old(processor), coalesced(old(channel).pending())),
            old(block)@,
        ),
        final(block)@ == frame_outputs(
            with_update(*old(processor), coalesced(old(channel).pending())),
            old(block)@,
        ),
{
    let drained = channel.coalescing_drain();
    if let Some(params) = drained {
        let _ = processor.update(params);
    }
    processor.process(block);
    drained
}

/// Channel symmetry: when both channel filters are identical and every
/// frame carries the same sample left and right, the processed block is
/// channel-symmetric — the left output equals the right output, sample for
/// sample — and both filters end in identical states.
pub proof fn lemma_process_symmetric(p: Processor, frames: Seq<AudioFrame>)
    requires
        p.filter_left == p.filter_right,
        forall|i: int| 0 <= i < frames.len() ==> frames[i].left == frames[i].right,
    ensures
        forall|i: int|
            0 <= i < frames.len() ==> #[trigger] frame_outputs(p, frames)[i].left
                == frame_outputs(p, frames)[i].right,
        advanced(p, frames).filter_left == advanced(p, frames).filter_right,
{
    assert(lefts(frames) =~= rights(frames));
}

} // verus!
