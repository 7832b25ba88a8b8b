//! What the screen shows: which decoded picture, from which output, in which framebuffer.

use crate::video::{DecodedFrame, NUM_TEXTURES};
use vstd::prelude::*;

verus! {

/// How many framebuffers there are.
pub const NUM_FB: usize = 3;

/// The framebuffer that is drawn to while no video is shown.
pub const SCRATCH_FB: usize = 0;

/// What is to be done with the outputs when a session's output is looked at.
#[derive(Debug, Clone, Copy, PartialEq, Eq, Structural)]
pub struct OutputChange {
    /// The output that was attached is to forget its textures.
    pub clear_attached: bool,
    /// The session's output is to be given the textures.
    pub register: bool,
}

/// A frame that comes on screen.
#[derive(Debug, Clone, Copy, PartialEq, Eq, Structural)]
pub struct ShownFrame {
    pub texture_index: usize,
    pub generation: u64,
    /// Whether an output is attached that is to be told.
    pub mark: bool,
}

/// What became of the latest frame of a session.
#[derive(Debug, Clone, Copy, PartialEq, Eq, Structural)]
pub enum FrameSync {
    /// There is no frame, or it is on screen already.
    Nothing,
    Shown { frame: ShownFrame },
    /// The decoder named a texture that does not exist.
    InvalidTexture { index: usize },
}

/// The screen's side of the video. Outputs are told apart by a number that their owner gives.
#[derive(Debug, Clone, Copy)]
pub struct VideoSurface {
    displayed_fb: Option<usize>,
    attached: Option<u64>,
    last_frame_id: u64,
}

/// The state of the screen's side of the video.
pub ghost struct SurfaceView {
    /// The texture on screen.
    pub displayed_fb: Option<usize>,
    /// The output whose frames are shown.
    pub attached: Option<u64>,
    /// The number of the frame on screen.
    pub last_frame_id: u64,
}

impl View for VideoSurface {
    type V = SurfaceView;

    closed spec fn view(&self) -> SurfaceView {
        SurfaceView {
            displayed_fb: self.displayed_fb,
            attached: self.attached,
            last_frame_id: self.last_frame_id,
        }
    }
}

/// The screen without video.
pub open spec fn detached() -> SurfaceView {
    SurfaceView { displayed_fb: None, attached: None, last_frame_id: 0 }
}

/// The screen after a look at a session's output: the output is attached once its decoder is
/// ready, and any other is detached at once.
pub open spec fn after_output(
    surface: SurfaceView,
    output_id: u64,
    decoder_ready: bool,
) -> SurfaceView {
    if surface.attached == Some(output_id) {
        surface
    } else if decoder_ready {
        SurfaceView { attached: Some(output_id), ..detached() }
    } else if surface.attached is Some {
        detached()
    } else {
        surface
    }
}

/// What is to be done with the outputs.
pub open spec fn output_change(
    surface: SurfaceView,
    output_id: u64,
    decoder_ready: bool,
) -> OutputChange {
    let current = surface.attached == Some(output_id);
    OutputChange {
        clear_attached: surface.attached is Some && !current,
        register: decoder_ready && !current,
    }
}

/// What becomes of the latest frame.
pub open spec fn frame_sync(
    surface: SurfaceView,
    latest: Option<(u64, DecodedFrame)>,
) -> FrameSync {
    match latest {
        Some(latest) if latest.0 != surface.last_frame_id => {
            if latest.1.texture_index >= NUM_TEXTURES {
                FrameSync::InvalidTexture { index: latest.1.texture_index }
            } else {
                FrameSync::Shown {
                    frame: ShownFrame {
                        texture_index: latest.1.texture_index,
                        generation: latest.1.generation,
                        mark: surface.attached is Some,
                    },
                }
            }
        },
        _ => FrameSync::Nothing,
    }
}

/// The screen after a look at the latest frame.
pub open spec fn after_frame(
    surface: SurfaceView,
    latest: Option<(u64, DecodedFrame)>,
) -> SurfaceView {
    match frame_sync(surface, latest) {
        FrameSync::Shown { frame } => SurfaceView {
            displayed_fb: Some(frame.texture_index),
            last_frame_id: (latest->0).0,
            ..surface
        },
        _ => surface,
    }
}

impl VideoSurface {
    /// What holds of the screen at all times: it shows a texture that exists, if any.
    pub open spec fn wf(self) -> bool {
        self@.displayed_fb matches Some(index) ==> index < NUM_TEXTURES
    }

    /// The screen without video.
    pub fn new() -> (surface: Self)
        ensures
            surface.wf(),
            surface@ == detached(),
    {
        VideoSurface { displayed_fb: None, attached: None, last_frame_id: 0 }
    }

    /// The texture on screen.
    pub fn displayed_fb(&self) -> (index: Option<usize>)
        requires
            self.wf(),
        ensures
            index == self@.displayed_fb,
            index matches Some(index) ==> index < NUM_TEXTURES,
    {
        self.displayed_fb
    }

    /// Shows no video any more. `true` when an output was attached: that one is to forget its
    /// textures.
    pub fn detach_direct_video_output(&mut self) -> (clear_attached: bool)
        ensures
            final(self).wf(),
            final(self)@ == detached(),
            clear_attached == (old(self)@.attached is Some),
    {
        let clear_attached = self.attached.is_some();
        self.attached = None;
        self.displayed_fb = None;
        self.last_frame_id = 0;
        clear_attached
    }

    /// Attaches a session's output once its decoder is ready, in place of any other.
    pub fn ensure_direct_video_output(&mut self, output_id: u64, decoder_ready: bool) -> (change:
        OutputChange)
        requires
            old(self).wf(),
        ensures
            final(self).wf(),
            final(self)@ == after_output(old(self)@, output_id, decoder_ready),
            change == output_change(old(self)@, output_id, decoder_ready),
    {
        let output_is_current = match self.attached {
            Some(current) => current == output_id,
            None => false,
        };
        let mut clear_attached = false;
        if !output_is_current && self.attached.is_some() {
            clear_attached = self.detach_direct_video_output();
        }
        if !decoder_ready || output_is_current {
            return OutputChange { clear_attached, register: false };
        }
        let _ = self.detach_direct_video_output();
        self.attached = Some(output_id);
        OutputChange { clear_attached, register: true }
    }

    /// Brings the latest frame on screen, if it is not there already.
    pub fn sync_latest_frame(&mut self, latest: Option<(u64, DecodedFrame)>) -> (sync: FrameSync)
        requires
            old(self).wf(),
        ensures
            final(self).wf(),
            sync == frame_sync(old(self)@, latest),
            final(self)@ == after_frame(old(self)@, latest),
    {
        match latest {
            None => FrameSync::Nothing,
            Some((frame_id, frame)) => {
                if frame_id == self.last_frame_id {
                    return FrameSync::Nothing;
                }
                let index: usize = frame.texture_index;
                if index >= NUM_TEXTURES {
                    return FrameSync::InvalidTexture { index };
                }
                self.displayed_fb = Some(index);
                self.last_frame_id = frame_id;
                FrameSync::Shown {
                    frame: ShownFrame {
                        texture_index: index,
                        generation: frame.generation,
                        mark: self.attached.is_some(),
                    },
                }
            },
        }
    }

    /// The framebuffer that is drawn to: that of the texture on screen, else the scratch one.
    pub fn target_framebuffer(&self) -> (index: usize)
        requires
            self.wf(),
        ensures
            index == match self@.displayed_fb {
                Some(index) => index,
                None => SCRATCH_FB,
            },
            index < NUM_FB,
    {
        match self.displayed_fb {
            Some(index) => index,
            None => SCRATCH_FB,
        }
    }
}

/// Which framebuffer the display shows.
#[derive(Debug, Clone, Copy)]
pub struct FlipState {
    displayed: Option<usize>,
}

impl View for FlipState {
    type V = Option<usize>;

    closed spec fn view(&self) -> Option<usize> {
        self.displayed
    }
}

impl FlipState {
    /// The display shows none of the framebuffers.
    pub fn new() -> (state: Self)
        ensures
            state@ is None,
    {
        FlipState { displayed: None }
    }

    /// Whether the display is to be switched to a framebuffer: one that exists and is not shown.
    pub fn wants_flip(&self, index: usize) -> (wants: bool)
        ensures
            wants == (index < NUM_FB && self@ != Some(index)),
    {
        let shown = match self.displayed {
            Some(displayed) => displayed == index,
            None => false,
        };
        index < NUM_FB && !shown
    }

    /// Notes what came of switching to a framebuffer: a failure leaves things as they were.
    pub fn flipped(&mut self, index: usize, succeeded: bool)
        ensures
            final(self)@ == if succeeded {
                Some(index)
            } else {
                old(self)@
            },
    {
        if succeeded {
            self.displayed = Some(index);
        }
    }
}

/// A frame comes on screen once: looking at it again changes nothing.
pub proof fn a_frame_is_shown_once(surface: SurfaceView, latest: Option<(u64, DecodedFrame)>)
    requires
        !(frame_sync(surface, latest) is InvalidTexture),
    ensures
        frame_sync(after_frame(surface, latest), latest) is Nothing,
        after_frame(after_frame(surface, latest), latest) == after_frame(surface, latest),
{
}

/// An output is attached once: looking at it again changes nothing and tells nobody anything.
pub proof fn an_output_is_attached_once(surface: SurfaceView, output_id: u64, decoder_ready: bool)
    ensures
        ({
            let after = after_output(surface, output_id, true);
            &&& after.attached == Some(output_id)
            &&& after_output(after, output_id, decoder_ready) == after
            &&& output_change(after, output_id, decoder_ready) == (OutputChange {
                clear_attached: false,
                register: false,
            })
        }),
{
}

/// A frame with a number that is not on screen comes on screen with its own texture, if that
/// exists, and the output is told where one is attached. Nothing else changes the screen.
pub proof fn a_new_frame_comes_on_screen(
    surface: SurfaceView,
    latest: Option<(u64, DecodedFrame)>,
)
    ensures
        ({
            let sync = frame_sync(surface, latest);
            let after = after_frame(surface, latest);
            let is_new = latest matches Some(frame) && frame.0 != surface.last_frame_id;
            let exists_texture = latest matches Some(frame) && frame.1.texture_index < 3;
            &&& is_new && exists_texture ==> {
                &&& after.displayed_fb == Some((latest->0).1.texture_index)
                &&& after.last_frame_id == (latest->0).0
                &&& after.attached == surface.attached
                &&& sync == (FrameSync::Shown {
                    frame: ShownFrame {
                        texture_index: (latest->0).1.texture_index,
                        generation: (latest->0).1.generation,
                        mark: surface.attached is Some,
                    },
                })
            }
            &&& is_new && !exists_texture ==> after == surface && sync == (
            FrameSync::InvalidTexture { index: (latest->0).1.texture_index })
            &&& !is_new ==> after == surface && sync is Nothing
        }),
{
}

/// The output of a session whose decoder is ready is attached and given the textures; any other
/// output is told to forget them and leaves the screen empty. The output that is attached already
/// is left alone.
pub proof fn only_one_output_is_attached(surface: SurfaceView, output_id: u64, decoder_ready: bool)
    ensures
        ({
            let after = after_output(surface, output_id, decoder_ready);
            let change = output_change(surface, output_id, decoder_ready);
            let mine = surface.attached == Some(output_id);
            let other = surface.attached is Some && !mine;
            &&& mine ==> after == surface && !change.clear_attached && !change.register
            &&& !mine && decoder_ready ==> after.attached == Some(output_id) && after.displayed_fb
                is None && after.last_frame_id == 0 && change.register
            &&& other && !decoder_ready ==> after.attached is None && after.displayed_fb is None
                && after.last_frame_id == 0 && !change.register
            &&& surface.attached is None && !decoder_ready ==> after == surface && !change.register
            &&& change.clear_attached <==> other
        }),
{
}

} // verus!
