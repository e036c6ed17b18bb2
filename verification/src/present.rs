//! Picks what is drawn to the screen: a cached target, or, where the video
//! output points at none, a frame decoded straight out of emulated memory.

use crate::cache::{
    distinct_addresses,
    has_address,
    position_of,
    RenderTarget,
    TargetCache,
    TextureSize,
};
use crate::decode::{
    decode_frame,
    decode_outcome,
    display_height,
    height_for,
    DecodeError,
    VideoState,
};
use crate::texture::{TextureData, TextureDataView};
use crate::view::ViewMode;
use vstd::prelude::*;

verus! {

/// In one video mode the output points 640 bytes past the start of the
/// target that it shows.
pub const VIDEO_OFFSET: u32 = 640;

/// Why nothing is drawn in a frame.
#[derive(Clone, Copy, Debug, PartialEq, Eq)]
pub enum SkipReason {
    /// The video output points nowhere.
    NoVideo,
    /// The view names a target that does not exist.
    NoSuchTarget,
    /// The video output has a width that no frame size goes with.
    UnknownWidth,
}

/// What becomes of the staging texture's content in a frame.
#[derive(Clone, Debug, PartialEq, Eq)]
pub enum RawContent {
    /// Write the frame into the texture and draw it.
    Fresh(TextureData),
    /// Memory cannot be read now: draw what the texture holds.
    Stale,
    /// The frame cannot be decoded: write and draw nothing, so that the last
    /// image stays.
    Aborted(DecodeError),
}

/// What a `RawContent` holds.
pub enum RawContentView {
    Fresh(TextureDataView),
    Stale,
    Aborted(DecodeError),
}

impl View for RawContent {
    type V = RawContentView;

    open spec fn view(&self) -> RawContentView {
        match *self {
            RawContent::Fresh(frame) => RawContentView::Fresh(frame@),
            RawContent::Stale => RawContentView::Stale,
            RawContent::Aborted(e) => RawContentView::Aborted(e),
        }
    }
}

/// The work of showing a frame out of emulated memory.
#[derive(Clone, Debug, PartialEq, Eq)]
pub struct RawPlan {
    /// The staging texture to create first. It is created once and used from
    /// then on.
    pub allocate: Option<TextureSize>,
    pub content: RawContent,
}

/// What a `RawPlan` holds.
pub struct RawPlanView {
    pub allocate: Option<TextureSize>,
    pub content: RawContentView,
}

impl View for RawPlan {
    type V = RawPlanView;

    open spec fn view(&self) -> RawPlanView {
        RawPlanView { allocate: self.allocate, content: self.content@ }
    }
}

/// What to draw to the screen in one frame.
#[derive(Clone, Debug, PartialEq, Eq)]
pub enum Presentation {
    /// Nothing.
    Skipped(SkipReason),
    /// The cached color target at `index`.
    Color { index: usize },
    /// The cached depth target at `index`.
    Depth { index: usize },
    /// The staging texture.
    Raw(RawPlan),
}

/// What a `Presentation` holds.
pub enum PresentationView {
    Skipped(SkipReason),
    Color { index: usize },
    Depth { index: usize },
    Raw(RawPlanView),
}

impl View for Presentation {
    type V = PresentationView;

    open spec fn view(&self) -> PresentationView {
        match *self {
            Presentation::Skipped(reason) => PresentationView::Skipped(reason),
            Presentation::Color { index } => PresentationView::Color { index },
            Presentation::Depth { index } => PresentationView::Depth { index },
            Presentation::Raw(plan) => PresentationView::Raw(plan@),
        }
    }
}

/// The place of the color target that the video output shows: the one keyed
/// by `origin` itself, else the one keyed 640 bytes below it.
pub open spec fn shown_target(colors: Seq<RenderTarget>, origin: u32) -> Option<int> {
    if has_address(colors, origin) {
        Some(position_of(colors, origin))
    } else if origin >= VIDEO_OFFSET && has_address(colors, (origin - VIDEO_OFFSET) as u32) {
        Some(position_of(colors, (origin - VIDEO_OFFSET) as u32))
    } else {
        None
    }
}

/// The work of showing the frame at `video` out of `memory`, and the staging
/// texture's size afterwards. `None` stands for memory that cannot be read.
pub open spec fn raw_plan(
    staging: Option<TextureSize>,
    video: VideoState,
    memory: Option<Seq<u32>>,
) -> (Option<TextureSize>, PresentationView) {
    match height_for(video.width) {
        None => (staging, PresentationView::Skipped(SkipReason::UnknownWidth)),
        Some(height) => {
            let size = TextureSize { width: video.width, height };
            let content = match memory {
                None => RawContentView::Stale,
                Some(words) => match decode_outcome(words, video) {
                    Ok(frame) => RawContentView::Fresh(frame),
                    Err(e) => RawContentView::Aborted(e),
                },
            };
            match staging {
                None => (
                    Some(size),
                    PresentationView::Raw(RawPlanView { allocate: Some(size), content }),
                ),
                Some(_) => (
                    staging,
                    PresentationView::Raw(RawPlanView { allocate: None, content }),
                ),
            }
        },
    }
}

/// What is drawn in view `mode`, and the staging texture's size afterwards.
pub open spec fn presentation(
    mode: ViewMode,
    staging: Option<TextureSize>,
    colors: Seq<RenderTarget>,
    depths: Seq<RenderTarget>,
    video: VideoState,
    memory: Option<Seq<u32>>,
) -> (Option<TextureSize>, PresentationView) {
    match mode {
        ViewMode::Game => {
            if video.origin == 0 {
                (staging, PresentationView::Skipped(SkipReason::NoVideo))
            } else {
                match shown_target(colors, video.origin) {
                    Some(i) => (staging, PresentationView::Color { index: i as usize }),
                    None => raw_plan(staging, video, memory),
                }
            }
        },
        ViewMode::Color(i) => {
            if i < colors.len() {
                (staging, PresentationView::Color { index: i })
            } else {
                (staging, PresentationView::Skipped(SkipReason::NoSuchTarget))
            }
        },
        ViewMode::Depth(i) => {
            if i < depths.len() {
                (staging, PresentationView::Depth { index: i })
            } else {
                (staging, PresentationView::Skipped(SkipReason::NoSuchTarget))
            }
        },
    }
}

/// A target that is shown exists: its index lies within its cache.
pub proof fn lemma_shown_target_exists(
    mode: ViewMode,
    staging: Option<TextureSize>,
    colors: Seq<RenderTarget>,
    depths: Seq<RenderTarget>,
    video: VideoState,
    memory: Option<Seq<u32>>,
)
    requires
        colors.len() <= usize::MAX,
    ensures
        match presentation(mode, staging, colors, depths, video, memory).1 {
            PresentationView::Color { index } => index < colors.len(),
            PresentationView::Depth { index } => index < depths.len(),
            _ => true,
        },
{
}

/// Whether showing a frame in view `mode` reads emulated memory: only the
/// game view does, and only where the video output points somewhere, at no
/// cached target, with a known width.
pub open spec fn reads_memory(mode: ViewMode, colors: Seq<RenderTarget>, video: VideoState) -> bool {
    &&& mode is Game
    &&& video.origin != 0
    &&& shown_target(colors, video.origin) is None
    &&& height_for(video.width) is Some
}

/// A frame that does not read emulated memory is the same whatever memory
/// holds, and whether it can be read or not.
pub proof fn lemma_memory_unread(
    mode: ViewMode,
    staging: Option<TextureSize>,
    colors: Seq<RenderTarget>,
    depths: Seq<RenderTarget>,
    video: VideoState,
    memory: Option<Seq<u32>>,
    other: Option<Seq<u32>>,
)
    requires
        !reads_memory(mode, colors, video),
    ensures
        presentation(mode, staging, colors, depths, video, memory) == presentation(
            mode,
            staging,
            colors,
            depths,
            video,
            other,
        ),
{
}

/// Where the video output's own address is not cached but the address 640
/// bytes below it is, the game view shows that target; memory is not
/// decoded and the staging texture is left alone.
pub proof fn lemma_offset_target_shown(
    staging: Option<TextureSize>,
    colors: Seq<RenderTarget>,
    depths: Seq<RenderTarget>,
    video: VideoState,
    memory: Option<Seq<u32>>,
)
    requires
        distinct_addresses(colors),
        !has_address(colors, video.origin),
        video.origin >= VIDEO_OFFSET,
        has_address(colors, (video.origin - VIDEO_OFFSET) as u32),
    ensures
        presentation(ViewMode::Game, staging, colors, depths, video, memory) == (
            staging,
            PresentationView::Color {
                index: position_of(colors, (video.origin - VIDEO_OFFSET) as u32) as usize,
            },
        ),
        0 <= position_of(colors, (video.origin - VIDEO_OFFSET) as u32) < colors.len(),
        colors[position_of(colors, (video.origin - VIDEO_OFFSET) as u32)].address + VIDEO_OFFSET
            == video.origin,
{
}

/// Finds the color target that the video output at `origin` shows.
pub fn resolve_origin(colors: &TargetCache, origin: u32) -> (found: Option<usize>)
    requires
        colors.wf(),
    ensures
        match shown_target(colors@, origin) {
            Some(i) => found == Some(i as usize) && 0 <= i < colors@.len(),
            None => found is None,
        },
{
    match colors.lookup(origin) {
        Some(i) => Some(i),
        None => {
            if origin >= VIDEO_OFFSET {
                colors.lookup(origin - VIDEO_OFFSET)
            } else {
                None
            }
        },
    }
}

/// The state of the screen: the view mode and the staging texture.
pub struct Presenter {
    view_mode: ViewMode,
    staging: Option<TextureSize>,
}

impl Presenter {
    /// The current view mode.
    pub closed spec fn mode(&self) -> ViewMode {
        self.view_mode
    }

    /// Size of the staging texture, once it exists.
    pub closed spec fn staging(&self) -> Option<TextureSize> {
        self.staging
    }

    /// Starts in the game view, without a staging texture.
    pub fn new() -> (presenter: Presenter)
        ensures
            presenter.mode() == ViewMode::Game,
            presenter.staging() is None,
    {
        Presenter { view_mode: ViewMode::Game, staging: None }
    }

    /// The current view mode.
    pub fn view_mode(&self) -> (mode: ViewMode)
        ensures
            mode == self.mode(),
    {
        self.view_mode
    }

    /// Size of the staging texture, once it exists.
    pub fn staging_size(&self) -> (size: Option<TextureSize>)
        ensures
            size == self.staging(),
    {
        self.staging
    }

    /// Advances the view to the next mode, given how many color and depth
    /// targets are cached now.
    pub fn cycle(&mut self, colors: usize, depths: usize)
        ensures
            final(self).mode() == old(self).mode().successor(colors, depths),
            final(self).mode().valid(colors, depths),
            final(self).staging() == old(self).staging(),
    {
        self.view_mode = self.view_mode.cycle(colors, depths);
    }

    /// Whether `present` is going to read emulated memory for this frame, so
    /// that the caller takes the lock on memory only then.
    pub fn needs_memory(&self, colors: &TargetCache, video: VideoState) -> (needed: bool)
        requires
            colors.wf(),
        ensures
            needed == reads_memory(self.mode(), colors@, video),
    {
        match self.view_mode {
            ViewMode::Game => video.origin != 0 && resolve_origin(colors, video.origin).is_none()
                && display_height(video.width).is_some(),
            _ => false,
        }
    }

    /// Plans what is drawn to the screen in this frame. `memory` is emulated
    /// memory as 32-bit words, or `None` while it cannot be read.
    pub fn present(
        &mut self,
        colors: &TargetCache,
        depths: &TargetCache,
        video: VideoState,
        memory: Option<&[u32]>,
    ) -> (shown: Presentation)
        requires
            colors.wf(),
        ensures
            (final(self).staging(), shown@) == presentation(
                old(self).mode(),
                old(self).staging(),
                colors@,
                depths@,
                video,
                match memory {
                    Some(words) => Some(words@),
                    None => None,
                },
            ),
            final(self).mode() == old(self).mode(),
    {
        match self.view_mode {
            ViewMode::Game => {
                if video.origin == 0 {
                    return Presentation::Skipped(SkipReason::NoVideo);
                }
                match resolve_origin(colors, video.origin) {
                    Some(index) => Presentation::Color { index },
                    None => self.present_raw(video, memory),
                }
            },
            ViewMode::Color(index) => {
                if index < colors.len() {
                    Presentation::Color { index }
                } else {
                    Presentation::Skipped(SkipReason::NoSuchTarget)
                }
            },
            ViewMode::Depth(index) => {
                if index < depths.len() {
                    Presentation::Depth { index }
                } else {
                    Presentation::Skipped(SkipReason::NoSuchTarget)
                }
            },
        }
    }

    /// Plans the showing of a frame out of emulated memory.
    fn present_raw(&mut self, video: VideoState, memory: Option<&[u32]>) -> (shown: Presentation)
        ensures
            (final(self).staging(), shown@) == raw_plan(
                old(self).staging(),
                video,
                match memory {
                    Some(words) => Some(words@),
                    None => None,
                },
            ),
            final(self).mode() == old(self).mode(),
    {
        let height = match display_height(video.width) {
            Some(h) => h,
            None => {
                return Presentation::Skipped(SkipReason::UnknownWidth);
            },
        };
        let size = TextureSize { width: video.width, height };
        let allocate = match self.staging {
            Some(_) => None,
            None => {
                self.staging = Some(size);
                Some(size)
            },
        };
        let content = match memory {
            None => RawContent::Stale,
            Some(words) => match decode_frame(words, video) {
                Ok(frame) => RawContent::Fresh(frame),
                Err(e) => RawContent::Aborted(e),
            },
        };
        Presentation::Raw(RawPlan { allocate, content })
    }
}

} // verus!
