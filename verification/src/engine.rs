//! The block-level stutter engine: trigger edge detection and the stereo
//! pair of loop buffers driven in lockstep.

use vstd::prelude::*;

use crate::ring::{run_outputs, run_state, RingBuffer, RingModel};

verus! {

/// What the trigger gate did between the previous block and this one.
/// Only a rising or falling edge causes any loop-buffer transition; a gate
/// held steadily true or false across a block produces no action.
#[derive(Clone, Copy, Debug, PartialEq, Eq, Structural)]
pub enum TriggerEdge {
    NoChange,
    RisingEdge,
    FallingEdge,
}

/// The edge produced by the previous block's gate and the current one's.
pub open spec fn spec_detect_edge(prev: bool, curr: bool) -> TriggerEdge {
    if !prev && curr {
        TriggerEdge::RisingEdge
    } else if prev && !curr {
        TriggerEdge::FallingEdge
    } else {
        TriggerEdge::NoChange
    }
}

/// Detect a trigger edge between two blocks. Runs once per block, not per
/// sample: a pulse shorter than one block is missed or lands a block late by
/// design.
pub fn detect_edge(prev: bool, curr: bool) -> (e: TriggerEdge)
    ensures
        e == spec_detect_edge(prev, curr),
{
    if !prev && curr {
        TriggerEdge::RisingEdge
    } else if prev && !curr {
        TriggerEdge::FallingEdge
    } else {
        TriggerEdge::NoChange
    }
}

/// A channel's state after the once-per-block control work: the loop-length
/// request is applied (clamped), then the detected edge, if any.
pub open spec fn spec_apply_controls(
    m: RingModel,
    prev_trigger: bool,
    trigger: bool,
    size_request: nat,
) -> RingModel {
    let sized = m.with_size_request(size_request);
    match spec_detect_edge(prev_trigger, trigger) {
        TriggerEdge::RisingEdge => sized.with_trigger_started(),
        TriggerEdge::FallingEdge => sized.with_trigger_stopped(),
        TriggerEdge::NoChange => sized,
    }
}

/// Mathematical model of the whole engine: one loop-buffer model per channel
/// and the trigger gate as the previous block saw it.
#[verifier::ext_equal]
pub struct EngineModel {
    pub left: RingModel,
    pub right: RingModel,
    pub last_trigger: bool,
}

/// The stereo stutter engine. Both channels are driven by the same detected
/// edge and the same loop-length request, so they stay in lockstep.
pub struct StutterEngine {
    left: RingBuffer,
    right: RingBuffer,
    last_trigger: bool,
}

impl View for StutterEngine {
    type V = EngineModel;

    closed spec fn view(&self) -> EngineModel {
        EngineModel { left: self.left@, right: self.right@, last_trigger: self.last_trigger }
    }
}

impl StutterEngine {
    /// Both channels well formed and in lockstep: same capacity, same loop
    /// length, same needle, same trigger flag.
    pub open spec fn wf(&self) -> bool {
        &&& self@.left.wf()
        &&& self@.right.wf()
        &&& self@.left.buffer.len() == self@.right.buffer.len()
        &&& self@.left.size == self@.right.size
        &&& self@.left.needle == self@.right.needle
        &&& self@.left.trigger == self@.right.trigger
    }

    /// Construct the engine: one zero-filled channel buffer per side at the
    /// given capacity, untriggered, gate remembered as low.
    pub fn new(capacity: usize) -> (r: StutterEngine)
        requires
            1 <= capacity,
        ensures
            r.wf(),
            r@.left.capacity() == capacity,
            r@.left.size == capacity,
            r@.left.needle == 0,
            r@.left.trigger == false,
            r@.right.trigger == false,
            r@.last_trigger == false,
    {
        StutterEngine {
            left: RingBuffer::new(capacity),
            right: RingBuffer::new(capacity),
            last_trigger: false,
        }
    }

    /// The fixed per-channel capacity.
    pub fn capacity(&self) -> (c: usize)
        requires
            self.wf(),
        ensures
            c == self@.left.capacity(),
    {
        self.left.capacity()
    }

    /// How many samples the current triggered episode has processed.
    pub fn needle_position(&self) -> (n: usize)
        ensures
            n == self@.left.needle,
    {
        self.left.needle_position()
    }

    /// Process one block.
    ///
    /// Once per block: the loop-length request is clamped and applied to both
    /// channels, this block's trigger and the previous block's give the edge, and a
    /// rising edge restarts capture (needle to zero) while a falling edge
    /// resumes pass-through. Then every sample of each channel goes through
    /// its loop buffer, one `step` of the model at a time. The raw looped
    /// outputs are returned; blending them with the dry input is the host
    /// glue's affair.
    pub fn process_block(
        &mut self,
        trigger: bool,
        size_request: usize,
        left_in: &Vec<u32>,
        right_in: &Vec<u32>,
    ) -> (out: (Vec<u32>, Vec<u32>))
        requires
            old(self).wf(),
            left_in@.len() == right_in@.len(),
            old(self)@.left.needle + left_in@.len() <= usize::MAX,
        ensures
            final(self).wf(),
            ({
                let start = spec_apply_controls(
                    old(self)@.left,
                    old(self)@.last_trigger,
                    trigger,
                    size_request as nat,
                );
                &&& out.0@ == run_outputs(start, left_in@)
                &&& final(self)@.left == run_state(start, left_in@)
            }),
            ({
                let start = spec_apply_controls(
                    old(self)@.right,
                    old(self)@.last_trigger,
                    trigger,
                    size_request as nat,
                );
                &&& out.1@ == run_outputs(start, right_in@)
                &&& final(self)@.right == run_state(start, right_in@)
            }),
            final(self)@.last_trigger == trigger,
            out.0@.len() == left_in@.len(),
            out.1@.len() == right_in@.len(),
    {
        self.left.set_size(size_request);
        self.right.set_size(size_request);

        match detect_edge(self.last_trigger, trigger) {
            TriggerEdge::RisingEdge => {
                self.left.set_triggered();
                self.right.set_triggered();
            },
            TriggerEdge::FallingEdge => {
                self.left.set_untriggered();
                self.right.set_untriggered();
            },
            TriggerEdge::NoChange => {},
        }

        let ghost start_left = self.left@;
        let ghost start_right = self.right@;
        let left_out = process_channel(&mut self.left, left_in);
        let right_out = process_channel(&mut self.right, right_in);
        self.last_trigger = trigger;

        proof {
            crate::ring::lemma_run_state_controls(start_left, left_in@);
            crate::ring::lemma_run_state_controls(start_right, right_in@);
        }

        (left_out, right_out)
    }
}

/// Feed a whole block through one channel's loop buffer, sample by sample.
pub fn process_channel(rb: &mut RingBuffer, input: &Vec<u32>) -> (out: Vec<u32>)
    requires
        old(rb).wf(),
        old(rb)@.needle + input@.len() <= usize::MAX,
    ensures
        final(rb).wf(),
        final(rb)@ == run_state(old(rb)@, input@),
        out@ == run_outputs(old(rb)@, input@),
        out@.len() == input@.len(),
        final(rb)@.buffer.len() == old(rb)@.buffer.len(),
        final(rb)@.size == old(rb)@.size,
        final(rb)@.trigger == old(rb)@.trigger,
        final(rb)@.needle <= old(rb)@.needle + input@.len(),
{
    let ghost m0 = rb@;
    let mut out: Vec<u32> = Vec::new();
    let mut i: usize = 0;
    while i < input.len()
        invariant
            i <= input@.len(),
            rb.wf(),
            m0.wf(),
            m0.needle + input@.len() <= usize::MAX,
            rb@ == run_state(m0, input@.take(i as int)),
            out@ == run_outputs(m0, input@.take(i as int)),
            out@.len() == i,
            rb@.buffer.len() == m0.buffer.len(),
            rb@.size == m0.size,
            rb@.trigger == m0.trigger,
            rb@.needle <= m0.needle + i,
        decreases input@.len() - i,
    {
        proof {
            crate::ring::lemma_run_snoc(m0, input@.take(i as int), input@[i as int]);
            assert(input@.take(i as int).push(input@[i as int]) =~= input@.take(i + 1));
        }
        let sample = rb.next(input[i]);
        out.push(sample);
        i = i + 1;
    }
    proof {
        assert(input@.take(input@.len() as int) =~= input@);
    }
    out
}

} // verus!
