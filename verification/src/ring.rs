//! The per-channel loop buffer: a fixed-capacity circular capture/playback
//! structure together with its mathematical model.

use vstd::prelude::*;

verus! {

/// Mathematical model of one channel's loop buffer.
///
/// `buffer` is the fixed sample storage (its length is the capacity, fixed
/// for the structure's lifetime), `needle` the monotonic cursor of the
/// current triggered episode, `size` the currently configured loop length,
/// and `trigger` whether the buffer is capturing/looping or passing through.
#[verifier::ext_equal]
pub struct RingModel {
    pub buffer: Seq<u32>,
    pub needle: nat,
    pub size: nat,
    pub trigger: bool,
}

impl RingModel {
    /// The fixed capacity: how many samples the storage holds.
    pub open spec fn capacity(self) -> nat {
        self.buffer.len()
    }

    /// Structural invariant: the loop length always lies in `[1, capacity]`,
    /// so playback indexing (`needle % size`) never divides by zero and never
    /// reads out of range.
    pub open spec fn wf(self) -> bool {
        1 <= self.size <= self.buffer.len()
    }

    /// One per-sample step.
    ///
    /// Passing through (trigger off) leaves the state untouched and echoes
    /// the input. While triggered, the input is captured at `needle` as long
    /// as the needle has not run off the end of the storage, the output is
    /// read back at `needle % size` from the just-updated storage, and the
    /// needle advances by one.
    pub open spec fn step(self, input: u32) -> (RingModel, u32) {
        if self.trigger {
            let written = if self.needle < self.buffer.len() {
                self.buffer.update(self.needle as int, input)
            } else {
                self.buffer
            };
            let out = written[self.needle as int % self.size as int];
            (
                RingModel {
                    buffer: written,
                    needle: self.needle + 1,
                    size: self.size,
                    trigger: self.trigger,
                },
                out,
            )
        } else {
            (self, input)
        }
    }

    /// The state after a rising trigger edge: capture restarts from the
    /// beginning, discarding the previous episode's playback position.
    pub open spec fn with_trigger_started(self) -> RingModel {
        RingModel { buffer: self.buffer, needle: 0, size: self.size, trigger: true }
    }

    /// The state after a falling trigger edge: pass-through resumes; the
    /// needle and the captured material are left as they are.
    pub open spec fn with_trigger_stopped(self) -> RingModel {
        RingModel { buffer: self.buffer, needle: self.needle, size: self.size, trigger: false }
    }

    /// The state after a loop-length request: the request is clamped into
    /// `[1, capacity]` and nothing else changes.
    pub open spec fn with_size_request(self, request: nat) -> RingModel {
        RingModel {
            buffer: self.buffer,
            needle: self.needle,
            size: clamp_size(request, self.capacity()),
            trigger: self.trigger,
        }
    }
}

/// Clamp a requested loop length into `[1, capacity]`.
pub open spec fn clamp_size(request: nat, capacity: nat) -> nat {
    if request < 1 {
        1
    } else if request > capacity {
        capacity
    } else {
        request
    }
}

/// The state after feeding a whole block of inputs, one `step` at a time.
pub open spec fn run_state(m: RingModel, inputs: Seq<u32>) -> RingModel
    decreases inputs.len(),
{
    if inputs.len() == 0 {
        m
    } else {
        run_state(m.step(inputs[0]).0, inputs.drop_first())
    }
}

/// The outputs produced while feeding a whole block of inputs.
pub open spec fn run_outputs(m: RingModel, inputs: Seq<u32>) -> Seq<u32>
    decreases inputs.len(),
{
    if inputs.len() == 0 {
        Seq::empty()
    } else {
        seq![m.step(inputs[0]).1] + run_outputs(m.step(inputs[0]).0, inputs.drop_first())
    }
}

/// Feeding a block one sample at a time is the same as feeding it whole:
/// appending one input runs the block first and then takes a single step.
pub proof fn lemma_run_snoc(m: RingModel, inputs: Seq<u32>, x: u32)
    ensures
        run_state(m, inputs.push(x)) == run_state(m, inputs).step(x).0,
        run_outputs(m, inputs.push(x)) == run_outputs(m, inputs).push(
            run_state(m, inputs).step(x).1,
        ),
    decreases inputs.len(),
{
    if inputs.len() == 0 {
        reveal_with_fuel(run_state, 2);
        reveal_with_fuel(run_outputs, 2);
        assert(inputs.push(x).drop_first() =~= inputs);
        assert(inputs.push(x)[0] == x);
        assert(run_outputs(m, inputs.push(x)) =~= run_outputs(m, inputs).push(
            run_state(m, inputs).step(x).1,
        ));
    } else {
        let m1 = m.step(inputs[0]).0;
        lemma_run_snoc(m1, inputs.drop_first(), x);
        assert(inputs.push(x).drop_first() =~= inputs.drop_first().push(x));
        assert(inputs.push(x)[0] == inputs[0]);
        assert(run_outputs(m, inputs.push(x)) =~= run_outputs(m, inputs).push(
            run_state(m, inputs).step(x).1,
        ));
    }
}

/// A run changes no control state: the trigger flag, the loop length and the
/// capacity come out as they went in, and the needle advances by exactly the
/// block length while triggered and not at all otherwise.
pub proof fn lemma_run_state_controls(m: RingModel, inputs: Seq<u32>)
    ensures
        run_state(m, inputs).trigger == m.trigger,
        run_state(m, inputs).size == m.size,
        run_state(m, inputs).buffer.len() == m.buffer.len(),
        run_state(m, inputs).needle == if m.trigger {
            m.needle + inputs.len()
        } else {
            m.needle
        },
        m.wf() ==> run_state(m, inputs).wf(),
    decreases inputs.len(),
{
    if inputs.len() > 0 {
        lemma_run_state_controls(m.step(inputs[0]).0, inputs.drop_first());
    }
}

/// Pass-through: while the trigger is off, a whole block leaves the state
/// untouched and the output equals the input, sample for sample.
pub proof fn lemma_pass_through(m: RingModel, inputs: Seq<u32>)
    requires
        !m.trigger,
    ensures
        run_state(m, inputs) == m,
        run_outputs(m, inputs) == inputs,
    decreases inputs.len(),
{
    if inputs.len() == 0 {
        assert(run_outputs(m, inputs) =~= inputs);
    } else {
        lemma_pass_through(m, inputs.drop_first());
        assert(run_outputs(m, inputs) =~= inputs);
    }
}

/// The heart of the loop effect. While triggered, the storage is exactly the
/// raw input history of the episode (as far as the capacity reaches), and the
/// `k`-th output of a block is the history sample at `(needle + k) % size` —
/// the fresh input during warm-up, the captured window afterwards.
///
/// `hist` is the episode's input history so far: the needle equals its
/// length, and the storage agrees with it wherever it has been written.
pub proof fn lemma_triggered_run(m: RingModel, hist: Seq<u32>, inputs: Seq<u32>)
    requires
        m.wf(),
        m.trigger,
        m.needle == hist.len(),
        forall|p: int| 0 <= p < hist.len() && p < m.buffer.len() ==> m.buffer[p] == hist[p],
    ensures
        run_state(m, inputs).wf(),
        run_state(m, inputs).trigger,
        run_state(m, inputs).size == m.size,
        run_state(m, inputs).buffer.len() == m.buffer.len(),
        run_state(m, inputs).needle == hist.len() + inputs.len(),
        forall|p: int|
            0 <= p < hist.len() + inputs.len() && p < m.buffer.len() ==> run_state(
                m,
                inputs,
            ).buffer[p] == (hist + inputs)[p],
        run_outputs(m, inputs).len() == inputs.len(),
        forall|k: int|
            0 <= k < inputs.len() ==> run_outputs(m, inputs)[k] == (hist + inputs)[(hist.len()
                + k) % (m.size as int)],
    decreases inputs.len(),
{
    if inputs.len() == 0 {
        assert(hist + inputs =~= hist);
    } else {
        let x = inputs[0];
        let m1 = m.step(x).0;
        let out0 = m.step(x).1;
        let hist1 = hist.push(x);
        let q0 = (hist.len() as int) % (m.size as int);

        // The index played back this step is inside both the loop window and
        // the storage, and no further along than the needle.
        assert(0 <= q0 < m.size) by {
            vstd::arithmetic::div_mod::lemma_mod_bound(hist.len() as int, m.size as int);
        }
        assert(q0 <= hist.len()) by {
            vstd::arithmetic::div_mod::lemma_mod_decreases(hist.len() as nat, m.size);
        }

        // The first output is the history sample at q0: during warm-up the
        // sample just written is read straight back; once the needle has
        // passed the window, an earlier captured sample is read, untouched by
        // this step's write.
        assert(out0 == hist1[q0]) by {
            if hist.len() < m.size {
                vstd::arithmetic::div_mod::lemma_small_mod(hist.len() as nat, m.size);
                assert(q0 == hist.len());
            } else {
                assert(q0 < hist.len());
                assert(m.step(x).1 == hist[q0]);
            }
        }

        // The new state carries the extended history.
        assert(m1.needle == hist1.len());
        assert(forall|p: int|
            0 <= p < hist1.len() && p < m1.buffer.len() ==> m1.buffer[p] == hist1[p]);

        lemma_triggered_run(m1, hist1, inputs.drop_first());

        assert(hist1 + inputs.drop_first() =~= hist + inputs);

        let outs = run_outputs(m, inputs);
        let outs1 = run_outputs(m1, inputs.drop_first());
        assert(outs =~= seq![out0] + outs1);
        assert(forall|k: int|
            0 <= k < inputs.len() ==> outs[k] == (hist + inputs)[(hist.len() + k) % (
            m.size as int)]) by {
            assert forall|k: int| 0 <= k < inputs.len() implies outs[k] == (hist + inputs)[(
            hist.len() + k) % (m.size as int)] by {
                if k == 0 {
                    assert(outs[0] == out0);
                    assert((hist + inputs)[q0] == hist1[q0]);
                } else {
                    assert(outs[k] == outs1[k - 1]);
                    assert(hist1.len() + (k - 1) == hist.len() + k);
                }
            }
        }
    }
}

/// Capture-then-loop: triggered from a fresh episode (needle zero), the
/// `k`-th output of a block is the block's own sample at `k % size` — the
/// live input while the window first fills, then the captured window
/// repeating with period `size`.
pub proof fn lemma_capture_then_loop(m: RingModel, inputs: Seq<u32>)
    requires
        m.wf(),
        m.trigger,
        m.needle == 0,
    ensures
        run_outputs(m, inputs).len() == inputs.len(),
        forall|k: int|
            0 <= k < inputs.len() ==> run_outputs(m, inputs)[k] == inputs[k % (m.size as int)],
    decreases inputs.len(),
{
    lemma_triggered_run(m, Seq::empty(), inputs);
    assert(Seq::<u32>::empty() + inputs =~= inputs);
}

/// A rising edge discards the previous episode entirely: whatever the
/// buffer's earlier playback position and contents, after the edge the
/// outputs are determined by the new episode's inputs alone.
pub proof fn lemma_rising_edge_restarts(m: RingModel, inputs: Seq<u32>)
    requires
        m.wf(),
    ensures
        m.with_trigger_started().needle == 0,
        m.with_trigger_started().trigger,
        forall|k: int|
            0 <= k < inputs.len() ==> run_outputs(m.with_trigger_started(), inputs)[k] == inputs[k
                % (m.size as int)],
{
    lemma_capture_then_loop(m.with_trigger_started(), inputs);
}

/// Falling edge: on the very next sample the output is the raw input again —
/// pass-through resumes with no extra latency — and it stays that way.
pub proof fn lemma_falling_edge(m: RingModel, inputs: Seq<u32>)
    requires
        inputs.len() > 0,
    ensures
        run_outputs(m.with_trigger_stopped(), inputs)[0] == inputs[0],
        run_outputs(m.with_trigger_stopped(), inputs) == inputs,
        run_state(m.with_trigger_stopped(), inputs) == m.with_trigger_stopped(),
{
    lemma_pass_through(m.with_trigger_stopped(), inputs);
}

/// Seamless grow: capture a fresh episode over `first`, then enlarge the
/// loop to `new_size`, no longer than what was captured. Every later output
/// is a raw sample captured during the first block — in particular the newly
/// exposed positions play the material that was captured beyond the old
/// window, not repeats of the old window.
pub proof fn lemma_seamless_grow(m: RingModel, first: Seq<u32>, later: Seq<u32>, new_size: nat)
    requires
        m.wf(),
        m.trigger,
        m.needle == 0,
        1 <= new_size <= first.len(),
        new_size <= m.capacity(),
    ensures
        forall|k: int|
            0 <= k < later.len() ==> run_outputs(
                run_state(m, first).with_size_request(new_size),
                later,
            )[k] == first[(first.len() + k) % (new_size as int)],
{
    let mid = run_state(m, first);
    lemma_triggered_run(m, Seq::empty(), first);
    assert(Seq::<u32>::empty() + first =~= first);
    let grown = mid.with_size_request(new_size);
    assert(grown.size == new_size);
    assert(grown.wf());
    lemma_triggered_run(grown, first, later);
    assert forall|k: int| 0 <= k < later.len() implies run_outputs(grown, later)[k] == first[(
    first.len() + k) % (new_size as int)] by {
        let q = (first.len() + k) % (new_size as int);
        vstd::arithmetic::div_mod::lemma_mod_bound(first.len() + k, new_size as int);
        assert(0 <= q < new_size);
        assert((first + later)[q] == first[q]);
    }
}

/// One channel's loop buffer: fixed-capacity storage, a monotonic needle,
/// the active loop length, and the trigger flag.
pub struct RingBuffer {
    buffer: Vec<u32>,
    needle: usize,
    size: usize,
    trigger: bool,
}

impl View for RingBuffer {
    type V = RingModel;

    closed spec fn view(&self) -> RingModel {
        RingModel {
            buffer: self.buffer@,
            needle: self.needle as nat,
            size: self.size as nat,
            trigger: self.trigger,
        }
    }
}

impl RingBuffer {
    /// The structure is well formed exactly when its model is.
    pub open spec fn wf(&self) -> bool {
        self@.wf()
    }

    /// Construct a channel buffer: zero-filled storage of the given capacity,
    /// needle at the start, loop length at full capacity, trigger off.
    pub fn new(capacity: usize) -> (r: RingBuffer)
        requires
            1 <= capacity,
        ensures
            r.wf(),
            r@.buffer.len() == capacity,
            forall|i: int| 0 <= i < capacity ==> r@.buffer[i] == 0u32,
            r@.needle == 0,
            r@.size == capacity,
            r@.trigger == false,
    {
        let mut buffer: Vec<u32> = Vec::new();
        let mut i: usize = 0;
        while i < capacity
            invariant
                i <= capacity,
                buffer@.len() == i,
                forall|j: int| 0 <= j < i ==> buffer@[j] == 0u32,
            decreases capacity - i,
        {
            buffer.push(0u32);
            i = i + 1;
        }
        RingBuffer { buffer, needle: 0, size: capacity, trigger: false }
    }

    /// The fixed capacity.
    pub fn capacity(&self) -> (c: usize)
        ensures
            c == self@.capacity(),
    {
        self.buffer.len()
    }

    /// The currently configured loop length.
    pub fn active_size(&self) -> (s: usize)
        ensures
            s == self@.size,
    {
        self.size
    }

    /// How many samples the current triggered episode has processed.
    pub fn needle_position(&self) -> (n: usize)
        ensures
            n == self@.needle,
    {
        self.needle
    }

    /// Whether the buffer is currently capturing/looping.
    pub fn is_triggered(&self) -> (t: bool)
        ensures
            t == self@.trigger,
    {
        self.trigger
    }

    /// Request a new loop length. The request is clamped into
    /// `[1, capacity]`, takes effect on the very next sample, and touches
    /// neither the needle nor the captured material.
    pub fn set_size(&mut self, new_size: usize)
        requires
            old(self).wf(),
        ensures
            final(self).wf(),
            final(self)@ == old(self)@.with_size_request(new_size as nat),
    {
        let cap = self.buffer.len();
        self.size = if new_size < 1 {
            1
        } else if new_size > cap {
            cap
        } else {
            new_size
        };
    }

    /// Rising trigger edge: start a new capture episode from needle zero.
    pub fn set_triggered(&mut self)
        requires
            old(self).wf(),
        ensures
            final(self).wf(),
            final(self)@ == old(self)@.with_trigger_started(),
    {
        self.needle = 0;
        self.trigger = true;
    }

    /// Falling trigger edge: resume pass-through; the needle and the
    /// captured material stay as they are.
    pub fn set_untriggered(&mut self)
        requires
            old(self).wf(),
        ensures
            final(self).wf(),
            final(self)@ == old(self)@.with_trigger_stopped(),
    {
        self.trigger = false;
    }

    /// The per-sample step, exactly as the model's `step` describes it.
    ///
    /// Untriggered, it echoes the input and leaves all state untouched.
    /// Triggered, it captures the input (while the needle is still inside
    /// the storage), plays back `buffer[needle % size]`, and advances the
    /// needle.
    pub fn next(&mut self, input: u32) -> (out: u32)
        requires
            old(self).wf(),
            old(self)@.needle < usize::MAX,
        ensures
            final(self).wf(),
            final(self)@ == old(self)@.step(input).0,
            out == old(self)@.step(input).1,
            !old(self)@.trigger ==> out == input && final(self)@ == old(self)@,
    {
        if self.trigger {
            if self.needle < self.buffer.len() {
                self.buffer.set(self.needle, input);
            }
            let sample = self.buffer[self.needle % self.size];
            self.needle = self.needle + 1;
            sample
        } else {
            input
        }
    }
}

} // verus!
