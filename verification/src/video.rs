//! The video pipeline's dimensions and the textures that decoder and renderer share.

use vstd::prelude::*;

verus! {

/// Width of the stream that is asked of the console.
pub const STREAM_WIDTH: u32 = 1280;

/// Height of the stream that is asked of the console.
pub const STREAM_HEIGHT: u32 = 720;

/// Width the hardware decoder scales to.
pub const HW_OUTPUT_WIDTH: u32 = 960;

/// Height the hardware decoder scales to.
pub const HW_OUTPUT_HEIGHT: u32 = 544;

/// Frame rate of an ordinary stream.
pub const DEFAULT_VIDEO_FPS: u32 = 30;

/// Frame rate of an unlocked stream.
pub const UNLOCKED_VIDEO_FPS: u32 = 60;

/// How many textures decoder and renderer share.
pub const NUM_TEXTURES: usize = 3;

/// How long the decoder waits for a texture: one display interval at 60 Hz.
pub const MAX_PENDING_TEXTURE_WAIT_US: u64 = 16_700;

/// What the hardware decoder is set up with.
#[derive(Debug, Clone, Copy, PartialEq, Eq, Structural)]
pub struct DecoderConfig {
    pub decode_width: u32,
    pub decode_height: u32,
    pub output_width: u32,
    pub output_height: u32,
    /// How long the decode loop sleeps after each unit.
    pub decode_sleep_ms: u32,
    /// How many access units its channel holds.
    pub decode_queue_depth: usize,
}

/// A decoded frame that waits to be shown.
#[derive(Debug, Clone, Copy, PartialEq, Eq, Structural)]
pub struct DecodedFrame {
    pub texture_index: usize,
    pub generation: u64,
    pub published_at_ns: u64,
}

/// Memory the decoder writes a picture to.
#[derive(Debug, Clone, Copy, PartialEq, Eq, Structural)]
pub struct VideoTextureTarget {
    pub ptr: usize,
    pub pitch: u32,
    pub capacity: u32,
}

/// Who uses which of the shared textures. Pointers are kept as integers; what they point to is
/// the business of those who register and use them.
#[derive(Debug, Clone)]
pub struct DirectVideoOutput {
    targets: Option<[VideoTextureTarget; NUM_TEXTURES]>,
    displayed: Option<usize>,
    last_displayed: Option<usize>,
    pending: Option<(usize, u64)>,
    next_generation: u64,
    width: u32,
    height: u32,
}

/// The state of the shared textures.
pub ghost struct OutputView {
    pub targets: Option<[VideoTextureTarget; NUM_TEXTURES]>,
    /// The texture on screen.
    pub displayed: Option<usize>,
    /// The texture that was on screen before; the display may still read it.
    pub last_displayed: Option<usize>,
    /// The texture with a decoded frame not shown yet, and the frame's generation.
    pub pending: Option<(usize, u64)>,
    /// The generation of the frame published last.
    pub generation: u64,
    pub width: u32,
    pub height: u32,
}

impl View for DirectVideoOutput {
    type V = OutputView;

    closed spec fn view(&self) -> OutputView {
        OutputView {
            targets: self.targets,
            displayed: self.displayed,
            last_displayed: self.last_displayed,
            pending: self.pending,
            generation: self.next_generation,
            width: self.width,
            height: self.height,
        }
    }
}

/// Whether a texture is on screen or holds a frame not shown yet.
pub open spec fn texture_held(output: OutputView, index: int) -> bool {
    ||| output.displayed matches Some(shown) && shown == index
    ||| output.pending matches Some(waiting) && waiting.0 == index
}

/// Whether a texture is held or may still be read by the display.
pub open spec fn texture_busy(output: OutputView, index: int) -> bool {
    ||| texture_held(output, index)
    ||| output.last_displayed matches Some(shown) && shown == index
}

/// The generation after this one, round the `u64` circle.
pub open spec fn next_frame_generation(generation: u64) -> u64 {
    if generation == u64::MAX {
        0
    } else {
        (generation + 1) as u64
    }
}

/// The state after a frame was decoded into a texture.
pub open spec fn published_into(output: OutputView, index: usize) -> OutputView {
    OutputView {
        pending: Some((index, next_frame_generation(output.generation))),
        generation: next_frame_generation(output.generation),
        ..output
    }
}

/// The state after a frame came on screen; if it was the one that waited, none waits any more.
pub open spec fn shown(output: OutputView, index: usize, generation: u64) -> OutputView {
    OutputView {
        displayed: Some(index),
        last_displayed: output.displayed,
        pending: if output.pending == Some((index, generation)) {
            None
        } else {
            output.pending
        },
        ..output
    }
}

/// The state after a frame was given up; if it was the one that waited, none waits any more.
pub open spec fn released(output: OutputView, index: usize, generation: u64) -> OutputView {
    OutputView {
        pending: if output.pending == Some((index, generation)) {
            None
        } else {
            output.pending
        },
        ..output
    }
}

/// The outcome of a search for a texture to decode into.
#[derive(Debug, Clone, Copy)]
pub enum TargetSearch {
    /// The renderer has not registered its textures.
    NoTargets,
    /// A texture that nobody uses.
    Free { index: usize, target: VideoTextureTarget },
    /// Every texture is in use; `targets` are those to choose from after a wait.
    Busy { targets: [VideoTextureTarget; NUM_TEXTURES] },
}

impl DirectVideoOutput {
    /// No textures registered, nothing shown.
    pub fn new(width: u32, height: u32) -> (output: Self)
        ensures
            output@ == (OutputView {
                targets: None,
                displayed: None,
                last_displayed: None,
                pending: None,
                generation: 0,
                width,
                height,
            }),
    {
        DirectVideoOutput {
            targets: None,
            displayed: None,
            last_displayed: None,
            pending: None,
            next_generation: 0,
            width,
            height,
        }
    }

    /// The width of the decoded pictures.
    pub fn width(&self) -> (width: u32)
        ensures
            width == self@.width,
    {
        self.width
    }

    /// The height of the decoded pictures.
    pub fn height(&self) -> (height: u32)
        ensures
            height == self@.height,
    {
        self.height
    }

    /// Registers the renderer's textures; none of them is in use.
    pub fn set_targets(&mut self, targets: [VideoTextureTarget; NUM_TEXTURES])
        ensures
            final(self)@ == (OutputView {
                targets: Some(targets),
                displayed: None,
                last_displayed: None,
                pending: None,
                ..old(self)@
            }),
    {
        self.targets = Some(targets);
        self.displayed = None;
        self.last_displayed = None;
        self.pending = None;
    }

    /// Forgets the renderer's textures. A decoder that waits for one is to be woken.
    pub fn clear_targets(&mut self)
        ensures
            final(self)@ == (OutputView {
                targets: None,
                displayed: None,
                pending: None,
                ..old(self)@
            }),
    {
        self.targets = None;
        self.displayed = None;
        self.pending = None;
    }

    /// Whether a frame is the one that waits to be shown.
    fn is_pending(&self, index: usize, generation: u64) -> (pending: bool)
        ensures
            pending == (self@.pending == Some((index, generation))),
    {
        match self.pending {
            Some((waiting, waiting_generation)) => waiting == index && waiting_generation
                == generation,
            None => false,
        }
    }

    /// Records that a frame is on screen. `true` when it was the one that waited: then one
    /// decoder that waits for a texture is to be woken.
    pub fn mark_displayed(&mut self, index: usize, generation: u64) -> (cleared_pending: bool)
        ensures
            cleared_pending == (old(self)@.pending == Some((index, generation))),
            final(self)@ == shown(old(self)@, index, generation),
    {
        let cleared_pending = self.is_pending(index, generation);
        self.last_displayed = self.displayed;
        self.displayed = Some(index);
        if cleared_pending {
            self.pending = None;
        }
        cleared_pending
    }

    /// Releases a decoded frame that is not going to be shown. What is on screen stays there.
    /// `true` when the frame was waiting: then one decoder that waits for a texture is to be
    /// woken.
    pub fn discard_pending(&mut self, index: usize, generation: u64) -> (discarded: bool)
        ensures
            discarded == (old(self)@.pending == Some((index, generation))),
            final(self)@ == released(old(self)@, index, generation),
    {
        let discarded = self.is_pending(index, generation);
        if discarded {
            self.pending = None;
        }
        discarded
    }

    fn holds(&self, index: usize) -> (held: bool)
        ensures
            held == texture_held(self@, index as int),
    {
        let shown = match self.displayed {
            Some(shown) => shown == index,
            None => false,
        };
        let waiting = match self.pending {
            Some((waiting, _)) => waiting == index,
            None => false,
        };
        shown || waiting
    }

    fn was_shown_last(&self, index: usize) -> (shown: bool)
        ensures
            shown == (self@.last_displayed == Some(index)),
    {
        match self.last_displayed {
            Some(shown) => shown == index,
            None => false,
        }
    }

    /// Looks for a texture to decode into: the first that is neither held nor the one that was
    /// on screen before.
    pub fn find_target(&self) -> (search: TargetSearch)
        ensures
            match search {
                TargetSearch::NoTargets => self@.targets is None,
                TargetSearch::Free { index, target } => {
                    &&& self@.targets matches Some(targets)
                    &&& index < NUM_TEXTURES
                    &&& target == targets@[index as int]
                    &&& !texture_busy(self@, index as int)
                    &&& forall|i: int| 0 <= i < index ==> texture_busy(self@, i)
                },
                TargetSearch::Busy { targets } => {
                    &&& self@.targets == Some(targets)
                    &&& forall|i: int| 0 <= i < NUM_TEXTURES ==> texture_busy(self@, i)
                },
            },
    {
        let targets = match self.targets {
            Some(targets) => targets,
            None => {
                return TargetSearch::NoTargets;
            },
        };
        let mut i: usize = 0;
        while i < NUM_TEXTURES
            invariant
                i <= NUM_TEXTURES,
                self@.targets == Some(targets),
                forall|k: int| 0 <= k < i ==> texture_busy(self@, k),
            decreases NUM_TEXTURES - i,
        {
            if !self.holds(i) && !self.was_shown_last(i) {
                return TargetSearch::Free { index: i, target: targets[i] };
            }
            i = i + 1;
        }
        TargetSearch::Busy { targets }
    }

    /// Whether a decoder that found every texture in use goes on waiting.
    pub fn keeps_waiting(&self) -> (waiting: bool)
        ensures
            waiting == (self@.targets is Some && self@.pending is Some),
    {
        self.targets.is_some() && self.pending.is_some()
    }

    /// Looks for a texture after a wait: the first that is not held.
    pub fn find_target_after_wait(&self) -> (found: Option<usize>)
        ensures
            found matches Some(index) && {
                &&& index < NUM_TEXTURES
                &&& !texture_held(self@, index as int)
                &&& forall|i: int| 0 <= i < index ==> texture_held(self@, i)
            },
    {
        let mut i: usize = 0;
        while i < NUM_TEXTURES
            invariant
                i <= NUM_TEXTURES,
                forall|k: int| 0 <= k < i ==> texture_held(self@, k),
            decreases NUM_TEXTURES - i,
        {
            if !self.holds(i) {
                return Some(i);
            }
            i = i + 1;
        }
        proof {
            a_texture_is_free_after_a_wait(self@);
        }
        None
    }

    /// Publishes the frame that was decoded into a texture, under the next generation.
    pub fn publish(&mut self, index: usize) -> (published: (usize, u64))
        ensures
            published == (index, next_frame_generation(old(self)@.generation)),
            final(self)@ == published_into(old(self)@, index),
    {
        self.next_generation = self.next_generation.wrapping_add(1);
        self.pending = Some((index, self.next_generation));
        (index, self.next_generation)
    }
}

/// After a wait some texture is always free: at most two of the three are held.
pub proof fn a_texture_is_free_after_a_wait(output: OutputView)
    ensures
        exists|i: int| 0 <= i < NUM_TEXTURES && !#[trigger] texture_held(output, i),
{
    if texture_held(output, 0) && texture_held(output, 1) {
        assert(!texture_held(output, 2));
    }
}

/// A frame that is published and then shown is the one on screen and waits no more; neither its
/// texture nor the one before it is free to decode into.
pub proof fn published_frame_is_shown(output: OutputView, index: usize)
    ensures
        ({
            let generation = next_frame_generation(output.generation);
            let after = shown(published_into(output, index), index, generation);
            &&& after.pending is None
            &&& after.displayed == Some(index)
            &&& texture_busy(after, index as int)
            &&& output.displayed matches Some(before) ==> texture_busy(after, before as int)
        }),
{
}

/// A frame that is published and then released leaves the screen and the textures as they were,
/// with nothing waiting.
pub proof fn released_frame_leaves_the_screen(output: OutputView, index: usize)
    ensures
        released(
            published_into(output, index),
            index,
            next_frame_generation(output.generation),
        ) == (OutputView {
            pending: None,
            generation: next_frame_generation(output.generation),
            ..output
        }),
{
}

/// A frame that has been replaced by a later one does not make that one vanish.
pub proof fn stale_frame_keeps_the_pending_one(
    output: OutputView,
    index: usize,
    stale_index: usize,
    stale_generation: u64,
)
    requires
        stale_generation != next_frame_generation(output.generation),
    ensures
        shown(published_into(output, index), stale_index, stale_generation).pending
            == published_into(output, index).pending,
        released(published_into(output, index), stale_index, stale_generation)
            == published_into(output, index),
{
}

/// A texture is held while it is on screen or its frame waits, and busy also while the display may
/// still read it; none else is.
pub proof fn which_textures_are_in_use(output: OutputView, index: usize)
    ensures
        texture_held(output, index as int) <==> output.displayed == Some(index) || (
        output.pending is Some && (output.pending->0).0 == index),
        texture_busy(output, index as int) <==> texture_held(output, index as int)
            || output.last_displayed == Some(index),
{
}

/// Publishing a frame puts it in the place of the one that waited, under the next generation round
/// the circle of 64 bits; the screen stays.
pub proof fn a_published_frame_waits(output: OutputView, index: usize)
    ensures
        ({
            let after = published_into(output, index);
            &&& after.generation == (output.generation + 1) % 0x1_0000_0000_0000_0000
            &&& after.pending == Some((index, after.generation))
            &&& after.displayed == output.displayed
            &&& after.last_displayed == output.last_displayed
            &&& after.targets == output.targets
        }),
{
}

/// Showing a frame keeps the texture that was on screen before from being decoded into, and takes
/// the frame off the wait exactly when it is the one that waits, by texture and generation.
pub proof fn a_shown_frame_replaces_the_one_before(
    output: OutputView,
    index: usize,
    generation: u64,
)
    ensures
        ({
            let after = shown(output, index, generation);
            let waited = output.pending matches Some(waiting) && waiting.0 == index && waiting.1
                == generation;
            &&& after.displayed == Some(index)
            &&& after.last_displayed == output.displayed
            &&& waited ==> after.pending is None
            &&& !waited ==> after.pending == output.pending
            &&& after.generation == output.generation
            &&& after.targets == output.targets
        }),
{
}

} // verus!
