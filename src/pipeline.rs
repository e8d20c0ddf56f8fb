use vstd::prelude::*;

use crate::traits::StereoGenerator;

verus! {

/// One stereo frame: `(left, right)` in Q15.
pub type Frame = (i32, i32);

/// What a block holds: its frames in order, and how many it can take.
pub struct BlockView {
    pub frames: Seq<Frame>,
    pub capacity: nat,
}

impl BlockView {
    /// A block never holds more frames than its capacity.
    pub open spec fn wf(self) -> bool {
        self.frames.len() <= self.capacity
    }
}

/// A fixed-capacity, ordered block of stereo frames, reused for the life of
/// the process.
pub struct AudioBlock {
    frames: Vec<Frame>,
    capacity: usize,
}

impl View for AudioBlock {
    type V = BlockView;

    closed spec fn view(&self) -> BlockView {
        BlockView { frames: self.frames@, capacity: self.capacity as nat }
    }
}

impl AudioBlock {
    /// An empty block that takes `capacity` frames.
    pub fn new(capacity: usize) -> (b: AudioBlock)
        ensures
            b@.frames == Seq::<Frame>::empty(),
            b@.capacity == capacity,
            b@.wf(),
    {
        AudioBlock { frames: Vec::new(), capacity }
    }

    pub fn len(&self) -> (r: usize)
        requires
            self@.wf(),
        ensures
            r == self@.frames.len(),
            r <= self@.capacity,
    {
        self.frames.len()
    }

    pub fn capacity(&self) -> (r: usize)
        ensures
            r == self@.capacity,
    {
        self.capacity
    }

    pub fn is_full(&self) -> (r: bool)
        requires
            self@.wf(),
        ensures
            r == (self@.frames.len() == self@.capacity),
    {
        self.frames.len() == self.capacity
    }

    /// Appends a frame if there is room. On a full block this does nothing
    /// and returns `false`.
    pub fn push_stereo(&mut self, frame: Frame) -> (pushed: bool)
        ensures
            pushed == (old(self)@.frames.len() < old(self)@.capacity),
            pushed ==> final(self)@.frames == old(self)@.frames.push(frame),
            !pushed ==> final(self)@.frames == old(self)@.frames,
            final(self)@.capacity == old(self)@.capacity,
            old(self)@.wf() ==> final(self)@.wf(),
    {
        if self.frames.len() < self.capacity {
            self.frames.push(frame);
            true
        } else {
            false
        }
    }

    /// Empties the block; its capacity stays.
    pub fn clear(&mut self)
        ensures
            final(self)@.frames == Seq::<Frame>::empty(),
            final(self)@.capacity == old(self)@.capacity,
    {
        self.frames.clear();
    }

    pub fn frame(&self, i: usize) -> (r: Frame)
        requires
            i < self@.frames.len(),
        ensures
            r == self@.frames[i as int],
    {
        self.frames[i]
    }

    pub fn as_slice(&self) -> (r: &[Frame])
        ensures
            r@ == self@.frames,
    {
        self.frames.as_slice()
    }
}

/// The state `n` ticks after `v`.
pub open spec fn state_after<G: StereoGenerator>(v: G::V, n: nat) -> G::V
    decreases n,
{
    if n == 0 {
        v
    } else {
        G::next(state_after::<G>(v, (n - 1) as nat))
    }
}

/// The frames that `n` successive ticks from `v` return, in order.
pub open spec fn frames_from<G: StereoGenerator>(v: G::V, n: nat) -> Seq<Frame>
    decreases n,
{
    if n == 0 {
        Seq::empty()
    } else {
        frames_from::<G>(v, (n - 1) as nat).push(G::output(state_after::<G>(v, (n - 1) as nat)))
    }
}

/// `n` ticks give `n` frames, and the `k`th of them is what the `k`th
/// successive tick from `v` returns.
pub proof fn lemma_frames_are_successive_ticks<G: StereoGenerator>(v: G::V, n: nat, k: nat)
    requires
        k < n,
    ensures
        frames_from::<G>(v, n).len() == n,
        frames_from::<G>(v, n)[k as int] == G::output(state_after::<G>(v, k)),
    decreases n,
{
    lemma_frames_len::<G>(v, n);
    if k < n - 1 {
        lemma_frames_are_successive_ticks::<G>(v, (n - 1) as nat, k);
    }
}

proof fn lemma_frames_len<G: StereoGenerator>(v: G::V, n: nat)
    ensures
        frames_from::<G>(v, n).len() == n,
    decreases n,
{
    if n > 0 {
        lemma_frames_len::<G>(v, (n - 1) as nat);
    }
}

/// What the pipeline holds: the current output block and the count of
/// cycles on which no input block was ready.
pub struct PipelineView {
    pub block: BlockView,
    pub underruns: u64,
}

/// The audio side of the block exchange: once per deadline it either fills
/// its output block, one generator tick per frame, or records an underrun.
pub struct BlockPipeline {
    output: AudioBlock,
    underruns: u64,
}

impl View for BlockPipeline {
    type V = PipelineView;

    closed spec fn view(&self) -> PipelineView {
        PipelineView { block: self.output@, underruns: self.underruns }
    }
}

pub open spec fn saturating_increment(n: u64) -> u64 {
    if n < u64::MAX {
        (n + 1) as u64
    } else {
        n
    }
}

impl BlockPipeline {
    /// A pipeline with an empty output block of `capacity` frames.
    pub fn new(capacity: usize) -> (p: BlockPipeline)
        ensures
            p@.block.frames == Seq::<Frame>::empty(),
            p@.block.capacity == capacity,
            p@.underruns == 0,
            p@.block.wf(),
    {
        BlockPipeline { output: AudioBlock::new(capacity), underruns: 0 }
    }

    /// One deadline cycle. When the input block is ready, the output block is
    /// refilled with exactly `capacity` frames, the `k`th being the `k`th
    /// successive tick of `generator`, and `true` is returned. Otherwise the
    /// previous output stays as it is, the generator is not ticked, the
    /// underrun count goes up by one (held at its maximum) and `false` is
    /// returned.
    pub fn process<G: StereoGenerator>(&mut self, input_ready: bool, generator: &mut G) -> (filled:
        bool)
        requires
            old(self)@.block.wf(),
            G::ready(old(generator)@),
        ensures
            filled == input_ready,
            final(self)@.block.wf(),
            final(self)@.block.capacity == old(self)@.block.capacity,
            input_ready ==> {
                &&& final(self)@.block.frames.len() == old(self)@.block.capacity
                &&& final(self)@.block.frames == frames_from::<G>(
                    old(generator)@,
                    old(self)@.block.capacity,
                )
                &&& final(generator)@ == state_after::<G>(old(generator)@, old(self)@.block.capacity)
                &&& final(self)@.underruns == old(self)@.underruns
            },
            !input_ready ==> {
                &&& final(self)@.block == old(self)@.block
                &&& final(generator)@ == old(generator)@
                &&& final(self)@.underruns == saturating_increment(old(self)@.underruns)
            },
            G::ready(final(generator)@),
    {
        if !input_ready {
            if self.underruns < u64::MAX {
                self.underruns = self.underruns + 1;
            }
            return false;
        }
        self.output.clear();
        let capacity = self.output.capacity();
        let mut i: usize = 0;
        while i < capacity
            invariant
                i <= capacity,
                self.output@.wf(),
                capacity == old(self)@.block.capacity,
                self.output@.capacity == capacity,
                self.output@.frames == frames_from::<G>(old(generator)@, i as nat),
                generator@ == state_after::<G>(old(generator)@, i as nat),
                G::ready(generator@),
                self.underruns == old(self)@.underruns,
            decreases capacity - i,
        {
            let frame = generator.tick();
            proof {
                lemma_frames_len::<G>(old(generator)@, i as nat);
            }
            self.output.push_stereo(frame);
            i = i + 1;
        }
        proof {
            lemma_frames_len::<G>(old(generator)@, capacity as nat);
        }
        true
    }

    pub fn output(&self) -> (r: &AudioBlock)
        ensures
            r@ == self@.block,
    {
        &self.output
    }

    pub fn underruns(&self) -> (r: u64)
        ensures
            r == self@.underruns,
    {
        self.underruns
    }
}

} // verus!
