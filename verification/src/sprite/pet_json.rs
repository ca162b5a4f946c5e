//! Pet definitions: what a `pet.json` manifest says, checked and completed.
//!
//! The sheet is a grid of 192x208 cells, always 8 columns. The sprite version
//! (default 1) picks the row count when the manifest omits an explicit frame
//! block: v1 = 9 rows (1536x1872), v2 = 11 rows (1536x2288). Row meanings
//! (shared 0-8; v2 adds 9-10):
//!   0 idle | 1 running-right | 2 running-left | 3 waving | 4 jumping |
//!   5 failed | 6 waiting | 7 running | 8 review | 9,10 gaze frames (v2).
//! When `animations` is also omitted the whole animation map is synthesized
//! from that row table. Custom pets that do specify their frame and animations
//! keep them (any grid that exactly tiles the sheet).

use vstd::prelude::*;

pub use crate::sprite::animation::Animation;
use crate::sprite::animation::AnimationMap;
use crate::sprite::animation::AnimationView;
pub use crate::sprite::animation::Frame;
pub use crate::sprite::pet_dir::resolve_pet_dir;
use crate::strings::chars_of;
use crate::strings::decimal;
use crate::strings::join_path;
use crate::strings::split;
use crate::strings::str_eq;
use crate::strings::trim;

verus! {

pub const MAX_FRAMES: usize = 256;

/// Upper bound of an animation's frame rate.
pub const MAX_FPS: u32 = 60;

/// Frame hold at the default rate of 8 frames per second.
pub const DEFAULT_FRAME_MS: u64 = 125;

/// Canonical sheet geometry.
pub const CELL_W: u32 = 192;

pub const CELL_H: u32 = 208;

pub const CANONICAL_COLS: u32 = 8;

/// Rows per sprite version.
pub const V1_ROWS: u32 = 9;

pub const V2_ROWS: u32 = 11;

/// The bespoke idle loop (row 0): a ~6.6s breathing cycle.
pub const IDLE_TIMINGS_MS: [u64; 6] = [1680, 660, 660, 840, 840, 1920];

/// A checked pet.
#[derive(Debug)]
pub struct PetDef {
    pub id: String,
    pub spritesheet_path: String,
    pub frame_width: u32,
    pub frame_height: u32,
    pub columns: u32,
    pub rows: u32,
    pub animations: AnimationMap,
}

/// A manifest as it was written. Names in `animations` are distinct.
#[derive(Debug)]
pub struct PetFile {
    pub id: Option<String>,
    pub sprite_version: Option<u32>,
    pub spritesheet_path: Option<String>,
    pub frame: Option<FrameSpec>,
    pub animations: Vec<(String, AnimationSpec)>,
}

/// Cell size and grid.
#[derive(Debug, Clone, Copy, PartialEq, Eq, Structural)]
pub struct FrameSpec {
    pub width: u32,
    pub height: u32,
    pub columns: u32,
    pub rows: u32,
}

#[derive(Debug)]
pub struct AnimationSpec {
    pub frames: Vec<FrameEntry>,
    pub fps: Fps,
    pub loop_animation: Option<bool>,
    pub fallback: Option<String>,
}

/// An animation's frame rate, as the milliseconds that one frame is held.
#[derive(Debug)]
pub enum Fps {
    /// The manifest names no rate.
    Unset,
    /// A rate above zero and up to `MAX_FPS`.
    FrameMs(u64),
    /// Any other rate, in the manifest's notation.
    OutOfRange(String),
}

/// A bare sprite index, or one with its own timing.
#[derive(Debug, Clone, Copy, PartialEq, Eq, Structural)]
pub enum FrameEntry {
    Index(usize),
    Timed { sprite_index: usize, duration_ms: u64 },
}

/// Why a pet is refused.
#[derive(Debug, PartialEq, Eq)]
pub enum PetError {
    ZeroGrid,
    FrameCountOverflow,
    TooManyFrames { count: usize },
    SheetOutsideDir { dir: String },
    NoFrames { name: String },
    BadFps { name: String, fps: String },
    SpriteOutOfRange { name: String, index: usize, count: usize },
    MissingFallback { name: String, fallback: String },
    GridWidthOverflow,
    GridHeightOverflow,
    GridMismatch { sheet_w: u32, sheet_h: u32, grid_w: u32, grid_h: u32 },
}

/// What a `PetError` says.
pub enum PetErrorView {
    ZeroGrid,
    FrameCountOverflow,
    TooManyFrames { count: usize },
    SheetOutsideDir { dir: Seq<char> },
    NoFrames { name: Seq<char> },
    BadFps { name: Seq<char>, fps: Seq<char> },
    SpriteOutOfRange { name: Seq<char>, index: usize, count: usize },
    MissingFallback { name: Seq<char>, fallback: Seq<char> },
    GridWidthOverflow,
    GridHeightOverflow,
    GridMismatch { sheet_w: u32, sheet_h: u32, grid_w: u32, grid_h: u32 },
}

impl View for PetError {
    type V = PetErrorView;

    open spec fn view(&self) -> PetErrorView {
        match self {
            PetError::ZeroGrid => PetErrorView::ZeroGrid,
            PetError::FrameCountOverflow => PetErrorView::FrameCountOverflow,
            PetError::TooManyFrames { count } => PetErrorView::TooManyFrames { count: *count },
            PetError::SheetOutsideDir { dir } => PetErrorView::SheetOutsideDir { dir: dir@ },
            PetError::NoFrames { name } => PetErrorView::NoFrames { name: name@ },
            PetError::BadFps { name, fps } => PetErrorView::BadFps { name: name@, fps: fps@ },
            PetError::SpriteOutOfRange { name, index, count } => PetErrorView::SpriteOutOfRange {
                name: name@,
                index: *index,
                count: *count,
            },
            PetError::MissingFallback { name, fallback } => PetErrorView::MissingFallback {
                name: name@,
                fallback: fallback@,
            },
            PetError::GridWidthOverflow => PetErrorView::GridWidthOverflow,
            PetError::GridHeightOverflow => PetErrorView::GridHeightOverflow,
            PetError::GridMismatch { sheet_w, sheet_h, grid_w, grid_h } => PetErrorView::GridMismatch {
                sheet_w: *sheet_w,
                sheet_h: *sheet_h,
                grid_w: *grid_w,
                grid_h: *grid_h,
            },
        }
    }
}

/// The error in words.
pub open spec fn message_of(e: PetErrorView) -> Seq<char> {
    match e {
        PetErrorView::ZeroGrid => "pet frame dimensions and grid counts must be non-zero"@,
        PetErrorView::FrameCountOverflow => "pet frame count overflow"@,
        PetErrorView::TooManyFrames { count } => "pet frame count "@ + crate::strings::decimal_of(count as nat)
            + " exceeds maximum 256"@,
        PetErrorView::SheetOutsideDir { dir } => "spritesheet path must stay inside "@ + dir,
        PetErrorView::NoFrames { name } => "animation "@ + name + " must include at least one frame"@,
        PetErrorView::BadFps { name, fps } => "animation "@ + name + " fps must be finite and between 0 and 60, got "@
            + fps,
        PetErrorView::SpriteOutOfRange { name, index, count } => "animation "@ + name + " references sprite index "@
            + crate::strings::decimal_of(index as nat) + ", but pet has "@ + crate::strings::decimal_of(count as nat)
            + " frames"@,
        PetErrorView::MissingFallback { name, fallback } => "animation "@ + name + " fallback "@ + fallback
            + " does not exist"@,
        PetErrorView::GridWidthOverflow => "pet frame grid width overflow"@,
        PetErrorView::GridHeightOverflow => "pet frame grid height overflow"@,
        PetErrorView::GridMismatch { sheet_w, sheet_h, grid_w, grid_h } =>
            "pet frame grid must cover spritesheet exactly: sheet is "@ + crate::strings::decimal_of(sheet_w as nat)
            + "x"@ + crate::strings::decimal_of(sheet_h as nat) + ", grid covers "@ + crate::strings::decimal_of(
            grid_w as nat,
        ) + "x"@ + crate::strings::decimal_of(grid_h as nat),
    }
}

impl PetError {
    /// The error in words.
    pub fn message(&self) -> (text: String)
        ensures
            text@ == message_of(self@),
    {
        match self {
            PetError::ZeroGrid => "pet frame dimensions and grid counts must be non-zero".to_owned(),
            PetError::FrameCountOverflow => "pet frame count overflow".to_owned(),
            PetError::TooManyFrames { count } => {
                let mut s: String = "pet frame count ".to_owned();
                s.append(decimal(*count as u64).as_str());
                s.append(" exceeds maximum 256");
                s
            },
            PetError::SheetOutsideDir { dir } => {
                let mut s: String = "spritesheet path must stay inside ".to_owned();
                s.append(dir.as_str());
                s
            },
            PetError::NoFrames { name } => {
                let mut s: String = "animation ".to_owned();
                s.append(name.as_str());
                s.append(" must include at least one frame");
                s
            },
            PetError::BadFps { name, fps } => {
                let mut s: String = "animation ".to_owned();
                s.append(name.as_str());
                s.append(" fps must be finite and between 0 and 60, got ");
                s.append(fps.as_str());
                s
            },
            PetError::SpriteOutOfRange { name, index, count } => {
                let mut s: String = "animation ".to_owned();
                s.append(name.as_str());
                s.append(" references sprite index ");
                s.append(decimal(*index as u64).as_str());
                s.append(", but pet has ");
                s.append(decimal(*count as u64).as_str());
                s.append(" frames");
                s
            },
            PetError::MissingFallback { name, fallback } => {
                let mut s: String = "animation ".to_owned();
                s.append(name.as_str());
                s.append(" fallback ");
                s.append(fallback.as_str());
                s.append(" does not exist");
                s
            },
            PetError::GridWidthOverflow => "pet frame grid width overflow".to_owned(),
            PetError::GridHeightOverflow => "pet frame grid height overflow".to_owned(),
            PetError::GridMismatch { sheet_w, sheet_h, grid_w, grid_h } => {
                let mut s: String = "pet frame grid must cover spritesheet exactly: sheet is ".to_owned();
                s.append(decimal(*sheet_w as u64).as_str());
                s.append("x");
                s.append(decimal(*sheet_h as u64).as_str());
                s.append(", grid covers ");
                s.append(decimal(*grid_w as u64).as_str());
                s.append("x");
                s.append(decimal(*grid_h as u64).as_str());
                s
            },
        }
    }
}

/// A track over `count` cells of a sheet row: each held `ms`, the last `last_ms`.
pub open spec fn row_track(row: int, count: nat, ms: u64, last_ms: u64, columns: int) -> AnimationView {
    AnimationView {
        frames: Seq::new(
            count,
            |col: int|
                Frame {
                    sprite_index: (row * columns + col) as usize,
                    duration_ms: if col == count - 1 {
                        last_ms
                    } else {
                        ms
                    },
                },
        ),
        loop_start: Some(0usize),
        fallback: crate::sprite::timeline::idle(),
    }
}

/// A loop over the first `n` cells of row 0, with the idle timings.
pub open spec fn breathing_track(n: nat) -> AnimationView {
    AnimationView {
        frames: Seq::new(n, |i: int| Frame { sprite_index: i as usize, duration_ms: IDLE_TIMINGS_MS@[i] }),
        loop_start: Some(0usize),
        fallback: crate::sprite::timeline::idle(),
    }
}

/// The tracks that a canonically laid out sheet has without being told.
pub open spec fn row_table(columns: int) -> Map<Seq<char>, AnimationView> {
    Map::<Seq<char>, AnimationView>::empty().insert("idle"@, breathing_track(6)).insert(
        "running-right"@,
        row_track(1, 8, 120, 220, columns),
    ).insert("running-left"@, row_track(2, 8, 120, 220, columns)).insert(
        "waving"@,
        row_track(3, 4, 140, 280, columns),
    ).insert("jumping"@, row_track(4, 5, 140, 280, columns)).insert(
        "failed"@,
        row_track(5, 8, 140, 240, columns),
    ).insert("waiting"@, row_track(6, 6, 150, 260, columns)).insert(
        "running"@,
        row_track(7, 6, 120, 220, columns),
    ).insert("review"@, row_track(8, 6, 150, 280, columns))
}

/// Idle frames that a grid has room for in its first row: up to six, and one
/// at least.
pub open spec fn idle_frames(columns: int, frame_count: int) -> nat {
    let n = crate::ints::min_of(crate::ints::min_of(6, columns), frame_count);
    (if n >= 1 { n } else { 1 }) as nat
}

/// The grid of a manifest: its own, else the canonical one of its version.
pub open spec fn grid_of(file: PetFile) -> FrameSpec {
    match file.frame {
        Some(f) => f,
        None => FrameSpec {
            width: CELL_W,
            height: CELL_H,
            columns: CANONICAL_COLS,
            rows: if file.sprite_version == Some(2u32) {
                V2_ROWS
            } else {
                V1_ROWS
            },
        },
    }
}

/// What is wrong with a grid, if anything.
pub open spec fn grid_error(grid: FrameSpec) -> Option<PetErrorView> {
    if grid.width == 0 || grid.height == 0 || grid.columns == 0 || grid.rows == 0 {
        Some(PetErrorView::ZeroGrid)
    } else if grid.columns * grid.rows > u32::MAX {
        Some(PetErrorView::FrameCountOverflow)
    } else if grid.columns * grid.rows > MAX_FRAMES {
        Some(PetErrorView::TooManyFrames { count: (grid.columns * grid.rows) as usize })
    } else {
        None
    }
}

/// Hold of a frame that names none.
pub open spec fn default_hold(fps: Fps) -> u64 {
    match fps {
        Fps::FrameMs(ms) => ms,
        _ => DEFAULT_FRAME_MS,
    }
}

pub open spec fn entry_frame(entry: FrameEntry, default_ms: u64) -> Frame {
    match entry {
        FrameEntry::Index(sprite_index) => Frame { sprite_index, duration_ms: default_ms },
        FrameEntry::Timed { sprite_index, duration_ms } => Frame { sprite_index, duration_ms },
    }
}

/// What is wrong with a declared animation by itself, if anything.
pub open spec fn spec_error(name: Seq<char>, spec: AnimationSpec) -> Option<PetErrorView> {
    if spec.frames@.len() == 0 {
        Some(PetErrorView::NoFrames { name })
    } else {
        match spec.fps {
            Fps::OutOfRange(fps) => Some(PetErrorView::BadFps { name, fps: fps@ }),
            _ => None,
        }
    }
}

/// The animation that a declaration gives: it loops unless told not to, and
/// falls back to idle unless told otherwise.
pub open spec fn declared(spec: AnimationSpec) -> AnimationView {
    AnimationView {
        frames: spec.frames@.map_values(|e: FrameEntry| entry_frame(e, default_hold(spec.fps))),
        loop_start: if spec.loop_animation == Some(false) {
            None
        } else {
            Some(0usize)
        },
        fallback: match spec.fallback {
            Some(f) => if f@.len() > 0 {
                f@
            } else {
                crate::sprite::timeline::idle()
            },
            None => crate::sprite::timeline::idle(),
        },
    }
}

/// `base` with the declared animations put over it.
pub open spec fn overlaid(base: Map<Seq<char>, AnimationView>, specs: Seq<(String, AnimationSpec)>) -> Map<
    Seq<char>,
    AnimationView,
>
    decreases specs.len(),
{
    if specs.len() == 0 {
        base
    } else {
        overlaid(base, specs.drop_last()).insert(specs.last().0@, declared(specs.last().1))
    }
}

/// The tracks of a pet: those that its grid implies, the declared ones over
/// them, and an idle track in any case.
pub open spec fn tracks_of(specs: Seq<(String, AnimationSpec)>, grid: FrameSpec, frame_count: int) -> Map<
    Seq<char>,
    AnimationView,
> {
    let base = if grid.columns >= CANONICAL_COLS && grid.rows >= V1_ROWS {
        row_table(grid.columns as int)
    } else {
        Map::empty()
    };
    let all = overlaid(base, specs);
    if all.dom().contains(crate::sprite::timeline::idle()) {
        all
    } else {
        all.insert(
            crate::sprite::timeline::idle(),
            breathing_track(idle_frames(grid.columns as int, frame_count)),
        )
    }
}

/// `i` is the first of the frames that shows no cell of the sheet.
pub open spec fn first_bad_frame(frames: Seq<Frame>, count: int, i: int) -> bool {
    &&& 0 <= i < frames.len()
    &&& frames[i].sprite_index >= count
    &&& forall|k: int| 0 <= k < i ==> (#[trigger] frames[k]).sprite_index < count
}

/// What is wrong with the track `name` among `tracks`: its first frame off the
/// sheet, else a fallback that does not exist.
pub open spec fn track_has_error(
    tracks: Map<Seq<char>, AnimationView>,
    name: Seq<char>,
    count: usize,
    e: PetErrorView,
) -> bool {
    let t = tracks[name];
    ||| exists|i: int| #[trigger] first_bad_frame(t.frames, count as int, i) && e == (PetErrorView::SpriteOutOfRange {
        name,
        index: t.frames[i].sprite_index,
        count,
    })
    ||| {
        &&& forall|k: int| 0 <= k < t.frames.len() ==> (#[trigger] t.frames[k]).sprite_index < count
        &&& !tracks.dom().contains(t.fallback)
        &&& e == (PetErrorView::MissingFallback { name, fallback: t.fallback })
    }
}

/// Every frame of the track shows a cell of the sheet, and its fallback exists.
pub open spec fn track_ok(tracks: Map<Seq<char>, AnimationView>, name: Seq<char>, count: int) -> bool {
    &&& forall|k: int| 0 <= k < tracks[name].frames.len() ==> (#[trigger] tracks[name].frames[k]).sprite_index < count
    &&& tracks.dom().contains(tracks[name].fallback)
}

/// All tracks can be shown: every frame is on the sheet, every fallback exists.
pub open spec fn tracks_ok(tracks: Map<Seq<char>, AnimationView>, count: int) -> bool {
    forall|name: Seq<char>| #[trigger] tracks.dom().contains(name) ==> track_ok(tracks, name, count)
}

fn row_animation(row: usize, count: usize, ms: u64, last_ms: u64, columns: usize) -> (a: Animation)
    requires
        row * columns + count <= usize::MAX,
    ensures
        a@ == row_track(row as int, count as nat, ms, last_ms, columns as int),
{
    let mut frames: Vec<Frame> = Vec::new();
    let mut col: usize = 0;
    while col < count
        invariant
            col <= count,
            row * columns + count <= usize::MAX,
            frames@ == row_track(row as int, count as nat, ms, last_ms, columns as int).frames.take(col as int),
        decreases count - col,
    {
        proof {
            assert(0 <= row * columns) by (nonlinear_arith)
                requires
                    0 <= row,
                    0 <= columns,
            ;
        }
        frames.push(
            Frame {
                sprite_index: row * columns + col,
                duration_ms: if col == count - 1 {
                    last_ms
                } else {
                    ms
                },
            },
        );
        col += 1;
        assert(frames@ =~= row_track(row as int, count as nat, ms, last_ms, columns as int).frames.take(col as int));
    }
    assert(frames@ =~= row_track(row as int, count as nat, ms, last_ms, columns as int).frames);
    Animation { frames, loop_start: Some(0), fallback: "idle".to_owned() }
}

fn breathing(n: usize) -> (a: Animation)
    requires
        n <= 6,
    ensures
        a@ == breathing_track(n as nat),
{
    let mut frames: Vec<Frame> = Vec::new();
    let mut i: usize = 0;
    while i < n
        invariant
            i <= n <= 6,
            frames@ == breathing_track(n as nat).frames.take(i as int),
        decreases n - i,
    {
        frames.push(Frame { sprite_index: i, duration_ms: IDLE_TIMINGS_MS[i] });
        i += 1;
        assert(frames@ =~= breathing_track(n as nat).frames.take(i as int));
    }
    assert(frames@ =~= breathing_track(n as nat).frames);
    Animation { frames, loop_start: Some(0), fallback: "idle".to_owned() }
}

/// An idle loop over the cells that a grid has in its first row.
pub fn synthesized_idle(columns: usize, frame_count: usize) -> (a: Animation)
    ensures
        a@ == breathing_track(idle_frames(columns as int, frame_count as int)),
{
    let mut n: usize = 6;
    if columns < n {
        n = columns;
    }
    if frame_count < n {
        n = frame_count;
    }
    if n < 1 {
        n = 1;
    }
    breathing(n)
}

/// The bespoke row-0 idle loop with its exact breathing timings.
pub fn idle_animation() -> (a: Animation)
    ensures
        a@ == breathing_track(6),
{
    breathing(6)
}

/// The row table with its exact frame counts and timings. All tracks are
/// single-pass with `loop_start = 0`; the timeline supplies the burst of
/// passes for non-idle tracks.
///
/// Row map: 0 idle | 1 running-right | 2 running-left | 3 waving |
/// 4 jumping | 5 failed | 6 waiting | 7 running | 8 review.
pub fn code_driven_animations(columns: usize) -> (tracks: AnimationMap)
    requires
        8 * columns + 8 <= usize::MAX,
    ensures
        tracks@ == row_table(columns as int),
{
    let mut tracks: AnimationMap = AnimationMap::new();
    tracks.insert("idle".to_owned(), idle_animation());
    tracks.insert("running-right".to_owned(), row_animation(1, 8, 120, 220, columns));
    tracks.insert("running-left".to_owned(), row_animation(2, 8, 120, 220, columns));
    tracks.insert("waving".to_owned(), row_animation(3, 4, 140, 280, columns));
    tracks.insert("jumping".to_owned(), row_animation(4, 5, 140, 280, columns));
    tracks.insert("failed".to_owned(), row_animation(5, 8, 140, 240, columns));
    tracks.insert("waiting".to_owned(), row_animation(6, 6, 150, 260, columns));
    tracks.insert("running".to_owned(), row_animation(7, 6, 120, 220, columns));
    tracks.insert("review".to_owned(), row_animation(8, 6, 150, 280, columns));
    tracks
}

/// `i` is the first declared animation that is wrong by itself.
pub open spec fn first_bad_spec(specs: Seq<(String, AnimationSpec)>, i: int) -> bool {
    &&& 0 <= i < specs.len()
    &&& spec_error(specs[i].0@, specs[i].1) is Some
    &&& forall|k: int| 0 <= k < i ==> spec_error((#[trigger] specs[k]).0@, specs[k].1) is None
}

/// No declared animation is wrong by itself.
pub open spec fn specs_ok(specs: Seq<(String, AnimationSpec)>) -> bool {
    forall|k: int| 0 <= k < specs.len() ==> spec_error((#[trigger] specs[k]).0@, specs[k].1) is None
}

/// The animations are refused for `e`: the first declaration that is wrong by
/// itself, else what is wrong with some track of the whole.
pub open spec fn animations_refused(
    specs: Seq<(String, AnimationSpec)>,
    grid: FrameSpec,
    frame_count: usize,
    e: PetErrorView,
) -> bool {
    ||| exists|i: int| #[trigger] first_bad_spec(specs, i) && spec_error(specs[i].0@, specs[i].1) == Some(e)
    ||| {
        let tracks = tracks_of(specs, grid, frame_count as int);
        &&& specs_ok(specs)
        &&& !tracks_ok(tracks, frame_count as int)
        &&& exists|name: Seq<char>| #[trigger] tracks.dom().contains(name) && track_has_error(tracks, name, frame_count, e)
    }
}

fn declare(spec: &AnimationSpec) -> (a: Animation)
    requires
        !(spec.fps is OutOfRange),
    ensures
        a@ == declared(*spec),
{
    let default_ms: u64 = match &spec.fps {
        Fps::FrameMs(ms) => *ms,
        _ => DEFAULT_FRAME_MS,
    };
    let mut frames: Vec<Frame> = Vec::new();
    let mut i: usize = 0;
    while i < spec.frames.len()
        invariant
            i <= spec.frames@.len(),
            default_ms == default_hold(spec.fps),
            frames@ == declared(*spec).frames.take(i as int),
        decreases spec.frames@.len() - i,
    {
        frames.push(
            match spec.frames[i] {
                FrameEntry::Index(sprite_index) => Frame { sprite_index, duration_ms: default_ms },
                FrameEntry::Timed { sprite_index, duration_ms } => Frame { sprite_index, duration_ms },
            },
        );
        i += 1;
        assert(frames@ =~= declared(*spec).frames.take(i as int));
    }
    assert(frames@ =~= declared(*spec).frames);
    let loop_start: Option<usize> = match spec.loop_animation {
        Some(false) => None,
        _ => Some(0),
    };
    let fallback: String = match &spec.fallback {
        Some(f) => {
            let v: Vec<char> = chars_of(f.as_str());
            if v.len() > 0 {
                f.clone()
            } else {
                "idle".to_owned()
            }
        },
        None => "idle".to_owned(),
    };
    Animation { frames, loop_start, fallback }
}

/// The animations of a pet, or why they are refused.
pub fn build_animations(specs: &[(String, AnimationSpec)], grid: &FrameSpec, frame_count: usize) -> (built: Result<
    AnimationMap,
    PetError,
>)
    requires
        grid_error(*grid) is None,
        frame_count == grid.columns * grid.rows,
    ensures
        match built {
            Ok(tracks) => {
                &&& specs_ok(specs@)
                &&& tracks@ == tracks_of(specs@, *grid, frame_count as int)
                &&& tracks_ok(tracks@, frame_count as int)
            },
            Err(e) => animations_refused(specs@, *grid, frame_count, e@),
        },
{
    // Seed the row table on canonical-shaped grids so pets that omit their
    // animations work out of the box; explicit ones override. Small custom
    // grids get only what they declare, and idle.
    let mut tracks: AnimationMap = if grid.columns >= CANONICAL_COLS && grid.rows >= V1_ROWS {
        proof {
            assert(grid.columns * 9 <= grid.columns * grid.rows) by (nonlinear_arith)
                requires
                    9 <= grid.rows,
            ;
        }
        code_driven_animations(grid.columns as usize)
    } else {
        AnimationMap::new()
    };
    let ghost base = tracks@;
    assert(specs@.take(0) =~= Seq::<(String, AnimationSpec)>::empty());
    let mut i: usize = 0;
    while i < specs.len()
        invariant
            i <= specs@.len(),
            tracks@ == overlaid(base, specs@.take(i as int)),
            forall|k: int| 0 <= k < i ==> spec_error((#[trigger] specs@[k]).0@, specs@[k].1) is None,
            base == (if grid.columns >= CANONICAL_COLS && grid.rows >= V1_ROWS {
                row_table(grid.columns as int)
            } else {
                Map::empty()
            }),
        decreases specs@.len() - i,
    {
        let name: &String = &specs[i].0;
        let spec: &AnimationSpec = &specs[i].1;
        if spec.frames.len() == 0 {
            let e = PetError::NoFrames { name: name.clone() };
            assert(first_bad_spec(specs@, i as int));
            return Err(e);
        }
        if let Fps::OutOfRange(fps) = &spec.fps {
            let e = PetError::BadFps { name: name.clone(), fps: fps.clone() };
            assert(first_bad_spec(specs@, i as int));
            return Err(e);
        }
        tracks.insert(name.clone(), declare(spec));
        assert(specs@.take(i + 1).drop_last() =~= specs@.take(i as int));
        i += 1;
    }
    assert(specs@.take(i as int) =~= specs@);
    if !tracks.contains_key("idle") {
        tracks.insert("idle".to_owned(), synthesized_idle(grid.columns as usize, frame_count));
    }
    assert(tracks@ == tracks_of(specs@, *grid, frame_count as int));
    match bad_track(&tracks, frame_count) {
        Some(e) => Err(e),
        None => Ok(tracks),
    }
}

/// What is wrong with some track, if anything.
fn bad_track(tracks: &AnimationMap, frame_count: usize) -> (bad: Option<PetError>)
    ensures
        match bad {
            None => tracks_ok(tracks@, frame_count as int),
            Some(e) => {
                &&& !tracks_ok(tracks@, frame_count as int)
                &&& exists|name: Seq<char>| #[trigger] tracks@.dom().contains(name) && track_has_error(
                    tracks@,
                    name,
                    frame_count,
                    e@,
                )
            },
        },
{
    let n: usize = tracks.len();
    let mut i: usize = 0;
    while i < n
        invariant
            i <= n == tracks.listed().len(),
            forall|k: int| 0 <= k < i ==> track_ok(tracks@, (#[trigger] tracks.listed()[k]).0@, frame_count as int),
        decreases n - i,
    {
        let name: &str = tracks.name_at(i);
        let track: &Animation = tracks.at(i);
        let mut j: usize = 0;
        while j < track.frames.len()
            invariant
                j <= track.frames@.len(),
                tracks@.dom().contains(name@),
                tracks@[name@] == track@,
                forall|k: int| 0 <= k < j ==> (#[trigger] track.frames@[k]).sprite_index < frame_count,
            decreases track.frames@.len() - j,
        {
            let index: usize = track.frames[j].sprite_index;
            if index >= frame_count {
                let e = PetError::SpriteOutOfRange { name: name.to_owned(), index, count: frame_count };
                assert(first_bad_frame(tracks@[name@].frames, frame_count as int, j as int));
                assert(track_has_error(tracks@, name@, frame_count, e@));
                assert(!track_ok(tracks@, name@, frame_count as int));
                return Some(e);
            }
            j += 1;
        }
        if !tracks.contains_key(track.fallback.as_str()) {
            let e = PetError::MissingFallback { name: name.to_owned(), fallback: track.fallback.clone() };
            assert(track_has_error(tracks@, name@, frame_count, e@));
            assert(!track_ok(tracks@, name@, frame_count as int));
            return Some(e);
        }
        assert(track_ok(tracks@, tracks.listed()[i as int].0@, frame_count as int));
        i += 1;
    }
    assert forall|name: Seq<char>| #[trigger] tracks@.dom().contains(name) implies track_ok(
        tracks@,
        name,
        frame_count as int,
    ) by {
        let k = choose|k: int| crate::sprite::animation::entry_named(tracks.listed(), name, k);
        assert(crate::sprite::animation::entry_named(tracks.listed(), name, k));
        assert(track_ok(tracks@, tracks.listed()[k].0@, frame_count as int));
    }
    None
}

/// A relative path that stays below the directory it is taken from.
pub open spec fn stays_inside(name: Seq<char>) -> bool {
    &&& !(name.len() > 0 && name[0] == '/')
    &&& !crate::strings::pieces(name, '/').contains(".."@)
}

/// The manifest may only reference sheets inside its own directory.
pub fn resolve_spritesheet_path(dir: &str, name: &str) -> (path: Result<String, PetError>)
    ensures
        match path {
            Ok(p) => stays_inside(name@) && p@ == crate::strings::joined(dir@, name@),
            Err(e) => !stays_inside(name@) && e@ == (PetErrorView::SheetOutsideDir { dir: dir@ }),
        },
{
    let v: Vec<char> = chars_of(name);
    if v.len() > 0 && v[0] == '/' {
        return Err(PetError::SheetOutsideDir { dir: dir.to_owned() });
    }
    let parts: Vec<String> = split(name, '/');
    let mut i: usize = 0;
    while i < parts.len()
        invariant
            i <= parts@.len(),
            crate::strings::texts_of(parts@) == crate::strings::pieces(name@, '/'),
            forall|k: int| 0 <= k < i ==> (#[trigger] parts@[k])@ != ".."@,
        decreases parts@.len() - i,
    {
        if str_eq(parts[i].as_str(), "..") {
            assert(crate::strings::texts_of(parts@)[i as int] == ".."@);
            return Err(PetError::SheetOutsideDir { dir: dir.to_owned() });
        }
        i += 1;
    }
    proof {
        if crate::strings::pieces(name@, '/').contains(".."@) {
            let k = choose|k: int|
                0 <= k < parts@.len() && crate::strings::texts_of(parts@)[k] == ".."@;
            assert(parts@[k]@ == ".."@);
        }
    }
    Ok(join_path(dir, name))
}

/// An optional text without surrounding white space, or `other` where nothing
/// is left of it.
pub open spec fn text_or(text: Option<String>, other: Seq<char>) -> Seq<char> {
    match text {
        Some(t) => if crate::strings::trimmed(t@).len() > 0 {
            crate::strings::trimmed(t@)
        } else {
            other
        },
        None => other,
    }
}

fn trimmed_or(text: &Option<String>, other: &str) -> (s: String)
    ensures
        s@ == text_or(*text, other@),
{
    match text {
        Some(t) => {
            let t: &str = trim(t.as_str());
            let v: Vec<char> = chars_of(t);
            if v.len() > 0 {
                t.to_owned()
            } else {
                other.to_owned()
            }
        },
        None => other.to_owned(),
    }
}

/// What a manifest gives: its checked grid, its sheet below `dir`, its id (or
/// `fallback_id`) and its animations.
pub open spec fn parsed_as(pet: PetDef, file: PetFile, dir: Seq<char>, fallback_id: Seq<char>) -> bool {
    let grid = grid_of(file);
    let count = grid.columns * grid.rows;
    &&& pet.id@ == text_or(file.id, fallback_id)
    &&& pet.spritesheet_path@ == crate::strings::joined(dir, text_or(file.spritesheet_path, "spritesheet.webp"@))
    &&& pet.frame_width == grid.width
    &&& pet.frame_height == grid.height
    &&& pet.columns == grid.columns
    &&& pet.rows == grid.rows
    &&& pet.animations@ == tracks_of(file.animations@, grid, count)
}

/// A manifest is accepted: its grid, its sheet's path and its animations are in
/// order.
pub open spec fn acceptable(file: PetFile) -> bool {
    let grid = grid_of(file);
    &&& grid_error(grid) is None
    &&& stays_inside(text_or(file.spritesheet_path, "spritesheet.webp"@))
    &&& specs_ok(file.animations@)
    &&& tracks_ok(tracks_of(file.animations@, grid, grid.columns * grid.rows), grid.columns * grid.rows)
}

impl PetDef {
    /// Every frame of every track is a cell of the grid, every fallback exists,
    /// and there is something to play.
    pub open spec fn wf(&self) -> bool {
        &&& grid_error(
            FrameSpec { width: self.frame_width, height: self.frame_height, columns: self.columns, rows: self.rows },
        ) is None
        &&& tracks_ok(self.animations@, self.columns * self.rows)
        &&& crate::sprite::timeline::playable(self.animations@)
    }

    pub fn frame_count(&self) -> (count: usize)
        requires
            self.columns * self.rows <= u32::MAX,
        ensures
            count == self.columns * self.rows,
    {
        (self.columns * self.rows) as usize
    }

    /// Check a manifest and complete it, for everything except the sheet's real
    /// dimensions (`validate_sheet` covers those once the image is known).
    pub fn parse(file: &PetFile, dir: &str, fallback_id: &str) -> (parsed: Result<Self, PetError>)
        ensures
            parsed is Ok <==> acceptable(*file),
            match parsed {
                Ok(pet) => parsed_as(pet, *file, dir@, fallback_id@) && pet.wf(),
                Err(e) => match grid_error(grid_of(*file)) {
                    Some(g) => e@ == g,
                    None => if !stays_inside(text_or(file.spritesheet_path, "spritesheet.webp"@)) {
                        e@ == (PetErrorView::SheetOutsideDir { dir: dir@ })
                    } else {
                        animations_refused(
                            file.animations@,
                            grid_of(*file),
                            (grid_of(*file).columns * grid_of(*file).rows) as usize,
                            e@,
                        )
                    },
                },
            },
    {
        let version: u32 = match file.sprite_version {
            Some(v) => v,
            None => 1,
        };
        // An explicit frame wins (arbitrary custom grids); otherwise derive
        // the canonical grid from the sprite version.
        let frame: FrameSpec = match file.frame {
            Some(f) => f,
            None => FrameSpec {
                width: CELL_W,
                height: CELL_H,
                columns: CANONICAL_COLS,
                rows: if version == 2 {
                    V2_ROWS
                } else {
                    V1_ROWS
                },
            },
        };
        assert(frame == grid_of(*file));
        if frame.width == 0 || frame.height == 0 || frame.columns == 0 || frame.rows == 0 {
            return Err(PetError::ZeroGrid);
        }
        let frame_count: usize = match frame.columns.checked_mul(frame.rows) {
            Some(n) => n as usize,
            None => {
                return Err(PetError::FrameCountOverflow);
            },
        };
        if frame_count > MAX_FRAMES {
            return Err(PetError::TooManyFrames { count: frame_count });
        }
        let sheet_name: String = trimmed_or(&file.spritesheet_path, "spritesheet.webp");
        let spritesheet_path: String = match resolve_spritesheet_path(dir, sheet_name.as_str()) {
            Ok(path) => path,
            Err(e) => {
                return Err(e);
            },
        };
        let id: String = trimmed_or(&file.id, fallback_id);
        let animations: AnimationMap = match build_animations(file.animations.as_slice(), &frame, frame_count) {
            Ok(animations) => animations,
            Err(e) => {
                return Err(e);
            },
        };
        proof {
            accepted_animations_can_be_played(file.animations@, frame);
        }
        Ok(
            PetDef {
                id,
                spritesheet_path,
                frame_width: frame.width,
                frame_height: frame.height,
                columns: frame.columns,
                rows: frame.rows,
                animations,
            },
        )
    }

    /// The grid must cover the sheet exactly.
    pub fn validate_sheet(&self, sheet_w: u32, sheet_h: u32) -> (checked: Result<(), PetError>)
        ensures
            match checked {
                Ok(_) => self.frame_width * self.columns == sheet_w && self.frame_height * self.rows == sheet_h,
                Err(e) => if self.frame_width * self.columns > u32::MAX {
                    e@ == PetErrorView::GridWidthOverflow
                } else if self.frame_height * self.rows > u32::MAX {
                    e@ == PetErrorView::GridHeightOverflow
                } else {
                    &&& !(self.frame_width * self.columns == sheet_w && self.frame_height * self.rows == sheet_h)
                    &&& e@ == (PetErrorView::GridMismatch {
                        sheet_w,
                        sheet_h,
                        grid_w: (self.frame_width * self.columns) as u32,
                        grid_h: (self.frame_height * self.rows) as u32,
                    })
                },
            },
    {
        let total_w: u32 = match self.frame_width.checked_mul(self.columns) {
            Some(w) => w,
            None => {
                return Err(PetError::GridWidthOverflow);
            },
        };
        let total_h: u32 = match self.frame_height.checked_mul(self.rows) {
            Some(h) => h,
            None => {
                return Err(PetError::GridHeightOverflow);
            },
        };
        if total_w != sheet_w || total_h != sheet_h {
            return Err(PetError::GridMismatch { sheet_w, sheet_h, grid_w: total_w, grid_h: total_h });
        }
        Ok(())
    }
}

proof fn lemma_overlaid_nonempty(base: Map<Seq<char>, AnimationView>, specs: Seq<(String, AnimationSpec)>)
    requires
        specs_ok(specs),
        forall|name: Seq<char>| #[trigger] base.dom().contains(name) ==> base[name].frames.len() > 0,
    ensures
        forall|name: Seq<char>| #[trigger]
            overlaid(base, specs).dom().contains(name) ==> overlaid(base, specs)[name].frames.len() > 0,
    decreases specs.len(),
{
    if specs.len() > 0 {
        assert forall|k: int| 0 <= k < specs.drop_last().len() implies spec_error(
            (#[trigger] specs.drop_last()[k]).0@,
            specs.drop_last()[k].1,
        ) is None by {
            assert(specs[k] == specs.drop_last()[k]);
        }
        lemma_overlaid_nonempty(base, specs.drop_last());
        assert(spec_error(specs[specs.len() - 1].0@, specs[specs.len() - 1].1) is None);
    }
}

/// Whatever animations a manifest declares, as long as none is wrong by
/// itself, the pet has an idle track and no track without frames.
pub proof fn accepted_animations_can_be_played(specs: Seq<(String, AnimationSpec)>, grid: FrameSpec)
    requires
        specs_ok(specs),
    ensures
        crate::sprite::timeline::playable(tracks_of(specs, grid, grid.columns * grid.rows)),
{
    let base = if grid.columns >= CANONICAL_COLS && grid.rows >= V1_ROWS {
        row_table(grid.columns as int)
    } else {
        Map::empty()
    };
    assert forall|name: Seq<char>| #[trigger] base.dom().contains(name) implies base[name].frames.len() > 0 by {
    }
    lemma_overlaid_nonempty(base, specs);
}

/// A manifest that declares no animation is never refused for its animations:
/// what any grid implies by itself stays on the sheet.
pub proof fn implied_animations_are_in_order(grid: FrameSpec)
    requires
        grid_error(grid) is None,
    ensures
        tracks_ok(
            tracks_of(Seq::<(String, AnimationSpec)>::empty(), grid, grid.columns * grid.rows),
            grid.columns * grid.rows,
        ),
{
    let count = grid.columns * grid.rows;
    let tracks = tracks_of(Seq::<(String, AnimationSpec)>::empty(), grid, count);
    if grid.columns >= CANONICAL_COLS && grid.rows >= V1_ROWS {
        assert(grid.columns * 9 <= grid.columns * grid.rows) by (nonlinear_arith)
            requires
                9 <= grid.rows,
        ;
        assert forall|name: Seq<char>| #[trigger] tracks.dom().contains(name) implies track_ok(tracks, name, count) by {
        }
    } else {
        assert(1 <= grid.columns * grid.rows) by (nonlinear_arith)
            requires
                1 <= grid.columns,
                1 <= grid.rows,
        ;
    }
}

/// A declared animation replaces the implied one of the same name, the last
/// declaration of a name wins, and names that no declaration mentions keep
/// what the grid implies.
pub proof fn declarations_override(
    base: Map<Seq<char>, AnimationView>,
    specs: Seq<(String, AnimationSpec)>,
    name: Seq<char>,
)
    ensures
        (forall|k: int| 0 <= k < specs.len() ==> (#[trigger] specs[k]).0@ != name) ==> {
            &&& overlaid(base, specs).dom().contains(name) == base.dom().contains(name)
            &&& overlaid(base, specs)[name] == base[name]
        },
        forall|i: int|
            0 <= i < specs.len() && (#[trigger] specs[i]).0@ == name && (forall|k: int|
                i < k < specs.len() ==> (#[trigger] specs[k]).0@ != name) ==> {
                &&& overlaid(base, specs).dom().contains(name)
                &&& overlaid(base, specs)[name] == declared(specs[i].1)
            },
    decreases specs.len(),
{
    if specs.len() > 0 {
        let rest = specs.drop_last();
        declarations_override(base, rest, name);
        assert(specs[specs.len() - 1] == specs.last());
        if specs.last().0@ != name {
            assert forall|i: int|
                0 <= i < specs.len() && (#[trigger] specs[i]).0@ == name && (forall|k: int|
                    i < k < specs.len() ==> (#[trigger] specs[k]).0@ != name) implies {
                &&& overlaid(base, specs).dom().contains(name)
                &&& overlaid(base, specs)[name] == declared(specs[i].1)
            } by {
                assert(rest[i] == specs[i]);
                assert forall|k: int| i < k < rest.len() implies (#[trigger] rest[k]).0@ != name by {
                    assert(rest[k] == specs[k]);
                }
            }
            if forall|k: int| 0 <= k < specs.len() ==> (#[trigger] specs[k]).0@ != name {
                assert forall|k: int| 0 <= k < rest.len() implies (#[trigger] rest[k]).0@ != name by {
                    assert(rest[k] == specs[k]);
                }
            }
        }
    }
}

impl Clone for PetDef {
    fn clone(&self) -> (copy: Self)
        ensures
            copy.id@ == self.id@,
            copy.spritesheet_path@ == self.spritesheet_path@,
            copy.frame_width == self.frame_width,
            copy.frame_height == self.frame_height,
            copy.columns == self.columns,
            copy.rows == self.rows,
            copy.animations@ == self.animations@,
    {
        PetDef {
            id: self.id.clone(),
            spritesheet_path: self.spritesheet_path.clone(),
            frame_width: self.frame_width,
            frame_height: self.frame_height,
            columns: self.columns,
            rows: self.rows,
            animations: self.animations.clone(),
        }
    }
}

/// A pet whose grid covers its sheet finds every frame of every animation on
/// it: the sheet is tiled by the pet's cells, as many as the pet counts, and
/// all sprite indices lie among them.
pub proof fn validated_sheet_has_every_sprite(pet: PetDef, sheet_w: u32, sheet_h: u32)
    requires
        pet.wf(),
        pet.frame_width * pet.columns == sheet_w,
        pet.frame_height * pet.rows == sheet_h,
    ensures
        crate::sprite::sheet::tiles(sheet_w, sheet_h, pet.frame_width, pet.frame_height),
        (sheet_w / pet.frame_width) * (sheet_h / pet.frame_height) == pet.columns * pet.rows,
        forall|name: Seq<char>, i: int| #![trigger pet.animations@[name].frames[i]]
            pet.animations@.dom().contains(name) && 0 <= i < pet.animations@[name].frames.len()
                ==> pet.animations@[name].frames[i].sprite_index < (sheet_w / pet.frame_width) * (sheet_h
                / pet.frame_height),
{
    vstd::arithmetic::mul::lemma_mul_is_commutative(pet.frame_width as int, pet.columns as int);
    vstd::arithmetic::mul::lemma_mul_is_commutative(pet.frame_height as int, pet.rows as int);
    vstd::arithmetic::div_mod::lemma_fundamental_div_mod_converse(
        sheet_w as int,
        pet.frame_width as int,
        pet.columns as int,
        0,
    );
    vstd::arithmetic::div_mod::lemma_fundamental_div_mod_converse(
        sheet_h as int,
        pet.frame_height as int,
        pet.rows as int,
        0,
    );
    assert forall|name: Seq<char>, i: int| #![trigger pet.animations@[name].frames[i]]
        pet.animations@.dom().contains(name) && 0 <= i < pet.animations@[name].frames.len() implies pet.animations@[name].frames[i].sprite_index
        < (sheet_w / pet.frame_width) * (sheet_h / pet.frame_height) by {
        assert(track_ok(pet.animations@, name, pet.columns * pet.rows));
    }
}

/// The track runs once through the first `n` cells of a sheet row, from left to
/// right: frame `k` shows the row's cell `k`, held `ms` and at the end `last_ms`.
pub open spec fn runs_through_row(track: AnimationView, row: int, n: int, ms: u64, last_ms: u64, columns: int) -> bool {
    &&& track.frames.len() == n
    &&& forall|k: int| 0 <= k < n ==> (#[trigger] track.frames[k]).sprite_index == row * columns + k
    &&& forall|k: int| 0 <= k < n - 1 ==> (#[trigger] track.frames[k]).duration_ms == ms
    &&& track.frames[n - 1].duration_ms == last_ms
    &&& track.loop_start == Some(0usize)
    &&& track.fallback == "idle"@
}

/// No declaration of the manifest names the track.
pub open spec fn undeclared(file: PetFile, name: Seq<char>) -> bool {
    forall|k: int| 0 <= k < file.animations@.len() ==> (#[trigger] file.animations@[k]).0@ != name
}

proof fn lemma_row_track(row: int, n: nat, ms: u64, last_ms: u64, columns: int)
    requires
        0 <= row,
        1 <= n,
        0 <= columns,
        row * columns + n <= usize::MAX,
    ensures
        runs_through_row(row_track(row, n, ms, last_ms, columns), row, n as int, ms, last_ms, columns),
{
    assert(0 <= row * columns) by (nonlinear_arith)
        requires
            0 <= row,
            0 <= columns,
    ;
}

proof fn lemma_track_names()
    ensures
        ({
            let names = seq![
                "idle"@,
                "running-right"@,
                "running-left"@,
                "waving"@,
                "jumping"@,
                "failed"@,
                "waiting"@,
                "running"@,
                "review"@,
            ];
            forall|i: int, j: int| #![trigger names[i], names[j]] 0 <= i < j < 9 ==> names[i] != names[j]
        }),
{
    reveal_strlit("idle");
    reveal_strlit("running-right");
    reveal_strlit("running-left");
    reveal_strlit("waving");
    reveal_strlit("jumping");
    reveal_strlit("failed");
    reveal_strlit("waiting");
    reveal_strlit("running");
    reveal_strlit("review");
    let names = seq![
        "idle"@,
        "running-right"@,
        "running-left"@,
        "waving"@,
        "jumping"@,
        "failed"@,
        "waiting"@,
        "running"@,
        "review"@,
    ];
    assert forall|i: int, j: int| #![trigger names[i], names[j]] 0 <= i < j < 9 implies names[i] != names[j] by {
        assert(names[0].len() == 4);
        assert(names[1].len() == 13);
        assert(names[2].len() == 12);
        assert(names[3].len() == 6 && names[3][0] == 'w');
        assert(names[4].len() == 7 && names[4][0] == 'j');
        assert(names[5].len() == 6 && names[5][0] == 'f');
        assert(names[6].len() == 7 && names[6][0] == 'w');
        assert(names[7].len() == 7 && names[7][0] == 'r');
        assert(names[8].len() == 6 && names[8][0] == 'r');
    }
}

proof fn lemma_row_table(columns: int)
    requires
        0 <= columns,
        8 * columns + 8 <= usize::MAX,
    ensures
        ({
            let t = row_table(columns);
            &&& runs_through_row(t["running-right"@], 1, 8, 120, 220, columns)
            &&& runs_through_row(t["running-left"@], 2, 8, 120, 220, columns)
            &&& runs_through_row(t["waving"@], 3, 4, 140, 280, columns)
            &&& runs_through_row(t["jumping"@], 4, 5, 140, 280, columns)
            &&& runs_through_row(t["failed"@], 5, 8, 140, 240, columns)
            &&& runs_through_row(t["waiting"@], 6, 6, 150, 260, columns)
            &&& runs_through_row(t["running"@], 7, 6, 120, 220, columns)
            &&& runs_through_row(t["review"@], 8, 6, 150, 280, columns)
            &&& t["idle"@] == breathing_track(6)
            &&& t.dom() == set![
                "idle"@,
                "running-right"@,
                "running-left"@,
                "waving"@,
                "jumping"@,
                "failed"@,
                "waiting"@,
                "running"@,
                "review"@,
            ]
        }),
{
    lemma_track_names();
    let names = seq![
        "idle"@,
        "running-right"@,
        "running-left"@,
        "waving"@,
        "jumping"@,
        "failed"@,
        "waiting"@,
        "running"@,
        "review"@,
    ];
    assert(forall|i: int, j: int| #![trigger names[i], names[j]] 0 <= i < j < 9 ==> names[i] != names[j]);
    assert(names[0] == "idle"@ && names[1] == "running-right"@ && names[2] == "running-left"@ && names[3] == "waving"@);
    assert(names[4] == "jumping"@ && names[5] == "failed"@ && names[6] == "waiting"@ && names[7] == "running"@);
    assert(names[8] == "review"@);
    lemma_row_track(1, 8, 120, 220, columns);
    lemma_row_track(2, 8, 120, 220, columns);
    lemma_row_track(3, 4, 140, 280, columns);
    lemma_row_track(4, 5, 140, 280, columns);
    lemma_row_track(5, 8, 140, 240, columns);
    lemma_row_track(6, 6, 150, 260, columns);
    lemma_row_track(7, 6, 120, 220, columns);
    lemma_row_track(8, 6, 150, 280, columns);
    assert(row_table(columns).dom() =~= set![
        "idle"@,
        "running-right"@,
        "running-left"@,
        "waving"@,
        "jumping"@,
        "failed"@,
        "waiting"@,
        "running"@,
        "review"@,
    ]);
}

/// A pet on a canonical grid has every track of the row table that its manifest
/// does not declare, and each runs through the first cells of its own row, one
/// after the other, none twice.
pub proof fn canonical_tracks_run_through_their_rows(
    file: &PetFile,
    dir: &str,
    fallback_id: &str,
    pet: PetDef,
)
    requires
        call_ensures(PetDef::parse, (file, dir, fallback_id), Ok(pet)),
        pet.columns >= 8,
        pet.rows >= 9,
    ensures
        ({
            let t = pet.animations@;
            let c = pet.columns as int;
            &&& undeclared(*file, "running-right"@) ==> t.dom().contains("running-right"@) && runs_through_row(t["running-right"@], 1, 8, 120, 220, c)
            &&& undeclared(*file, "running-left"@) ==> t.dom().contains("running-left"@) && runs_through_row(t["running-left"@], 2, 8, 120, 220, c)
            &&& undeclared(*file, "waving"@) ==> t.dom().contains("waving"@) && runs_through_row(t["waving"@], 3, 4, 140, 280, c)
            &&& undeclared(*file, "jumping"@) ==> t.dom().contains("jumping"@) && runs_through_row(t["jumping"@], 4, 5, 140, 280, c)
            &&& undeclared(*file, "failed"@) ==> t.dom().contains("failed"@) && runs_through_row(t["failed"@], 5, 8, 140, 240, c)
            &&& undeclared(*file, "waiting"@) ==> t.dom().contains("waiting"@) && runs_through_row(t["waiting"@], 6, 6, 150, 260, c)
            &&& undeclared(*file, "running"@) ==> t.dom().contains("running"@) && runs_through_row(t["running"@], 7, 6, 120, 220, c)
            &&& undeclared(*file, "review"@) ==> t.dom().contains("review"@) && runs_through_row(t["review"@], 8, 6, 150, 280, c)
        }),
{
    let c = pet.columns as int;
    assert(c * 9 <= c * pet.rows) by (nonlinear_arith)
        requires
            9 <= pet.rows,
            0 <= c,
    ;
    lemma_row_table(c);
    lemma_track_names();
    let base = row_table(c);
    let specs = file.animations@;
    declarations_override(base, specs, "running-right"@);
    declarations_override(base, specs, "running-left"@);
    declarations_override(base, specs, "waving"@);
    declarations_override(base, specs, "jumping"@);
    declarations_override(base, specs, "failed"@);
    declarations_override(base, specs, "waiting"@);
    declarations_override(base, specs, "running"@);
    declarations_override(base, specs, "review"@);
    lemma_idle_stays(base, specs);
}

/// Declarations never take a track away.
proof fn lemma_idle_stays(base: Map<Seq<char>, AnimationView>, specs: Seq<(String, AnimationSpec)>)
    ensures
        forall|name: Seq<char>| #[trigger] base.dom().contains(name) ==> overlaid(base, specs).dom().contains(name),
    decreases specs.len(),
{
    if specs.len() > 0 {
        lemma_idle_stays(base, specs.drop_last());
    }
}

/// An idle track that the manifest does not declare breathes through the first
/// cells of the sheet, in order: as many of the six as there are, each with its
/// own hold, 6.6 seconds for them all.
pub proof fn idle_breathes_through_the_first_cells(
    file: &PetFile,
    dir: &str,
    fallback_id: &str,
    pet: PetDef,
)
    requires
        call_ensures(PetDef::parse, (file, dir, fallback_id), Ok(pet)),
        undeclared(*file, "idle"@),
    ensures
        pet.animations@.dom().contains("idle"@),
        ({
            let t = pet.animations@["idle"@];
            let n = t.frames.len();
            &&& 1 <= n <= 6
            &&& n <= pet.columns
            &&& n < 6 ==> n == pet.columns
            &&& forall|k: int| 0 <= k < n ==> (#[trigger] t.frames[k]).sprite_index == k
            &&& t.frames[0].duration_ms == 1680
            &&& n > 1 ==> t.frames[1].duration_ms == 660
            &&& n > 2 ==> t.frames[2].duration_ms == 660
            &&& n > 3 ==> t.frames[3].duration_ms == 840
            &&& n > 4 ==> t.frames[4].duration_ms == 840
            &&& n > 5 ==> t.frames[5].duration_ms == 1920
            &&& t.loop_start == Some(0usize)
            &&& t.fallback == "idle"@
        }),
{
    let c = pet.columns as int;
    let count = c * pet.rows;
    let canonical = pet.columns >= 8 && pet.rows >= 9;
    let base = if canonical {
        row_table(c)
    } else {
        Map::empty()
    };
    assert(c <= count) by (nonlinear_arith)
        requires
            count == c * pet.rows,
            1 <= pet.rows,
            0 <= c,
    ;
    if canonical {
        assert(c * 9 <= c * pet.rows) by (nonlinear_arith)
            requires
                9 <= pet.rows,
                0 <= c,
        ;
        lemma_row_table(c);
    }
    declarations_override(base, file.animations@, "idle"@);
    assert(IDLE_TIMINGS_MS@ =~= seq![1680u64, 660, 660, 840, 840, 1920]);
}

/// A declared track is what its last declaration says, frame by frame: a bare
/// index is held at the declaration's rate (125 ms without one), an own timing
/// counts as it stands; it loops from its start unless told not to, and falls
/// back to idle unless it names another track.
pub proof fn declared_tracks_are_what_they_say(
    file: &PetFile,
    dir: &str,
    fallback_id: &str,
    pet: PetDef,
    i: int,
    k: int,
)
    requires
        call_ensures(PetDef::parse, (file, dir, fallback_id), Ok(pet)),
        0 <= i < file.animations@.len(),
        forall|j: int| i < j < file.animations@.len() ==> (#[trigger] file.animations@[j]).0@ != file.animations@[i].0@,
        0 <= k < file.animations@[i].1.frames@.len(),
    ensures
        ({
            let name = file.animations@[i].0@;
            let spec = file.animations@[i].1;
            let t = pet.animations@[name];
            &&& pet.animations@.dom().contains(name)
            &&& t.frames.len() == spec.frames@.len()
            &&& spec.frames@[k] matches FrameEntry::Index(n) ==> t.frames[k].sprite_index == n
            &&& spec.frames@[k] is Index && spec.fps is Unset ==> t.frames[k].duration_ms == 125
            &&& spec.frames@[k] is Index ==> (spec.fps matches Fps::FrameMs(ms) ==> t.frames[k].duration_ms == ms)
            &&& spec.frames@[k] matches FrameEntry::Timed { sprite_index, duration_ms } ==> t.frames[k] == (Frame {
                sprite_index,
                duration_ms,
            })
            &&& t.loop_start is None <==> spec.loop_animation == Some(false)
            &&& t.loop_start matches Some(s) ==> s == 0
            &&& spec.fallback is None ==> t.fallback == "idle"@
            &&& spec.fallback matches Some(f) ==> (f@.len() > 0 ==> t.fallback == f@)
            &&& spec.fallback matches Some(f) ==> (f@.len() == 0 ==> t.fallback == "idle"@)
        }),
{
    let c = pet.columns as int;
    let base = if pet.columns >= 8 && pet.rows >= 9 {
        row_table(c)
    } else {
        Map::empty()
    };
    let specs = file.animations@;
    declarations_override(base, specs, specs[i].0@);
    assert(spec_error(specs[i].0@, specs[i].1) is None);
    assert(overlaid(base, specs)[specs[i].0@] == declared(specs[i].1));
}

/// A pet has the tracks that its manifest declares, an idle one, and on a
/// canonical grid those of the row table; no other.
pub proof fn pets_have_no_other_tracks(file: &PetFile, dir: &str, fallback_id: &str, pet: PetDef, name: Seq<char>)
    requires
        call_ensures(PetDef::parse, (file, dir, fallback_id), Ok(pet)),
        undeclared(*file, name),
        name != "idle"@,
    ensures
        pet.animations@.dom().contains(name) ==> pet.columns >= 8 && pet.rows >= 9 && set![
            "running-right"@,
            "running-left"@,
            "waving"@,
            "jumping"@,
            "failed"@,
            "waiting"@,
            "running"@,
            "review"@,
        ].contains(name),
{
    let c = pet.columns as int;
    let canonical = pet.columns >= 8 && pet.rows >= 9;
    let base = if canonical {
        row_table(c)
    } else {
        Map::empty()
    };
    if canonical {
        assert(c * 9 <= c * pet.rows) by (nonlinear_arith)
            requires
                9 <= pet.rows,
                0 <= c,
        ;
        lemma_row_table(c);
    }
    declarations_override(base, file.animations@, name);
}

/// Whatever a pet plays is on its sheet: every frame of every track is a cell
/// of the grid, every track falls back to one that the pet has, and none is
/// without frames.
pub proof fn accepted_pets_can_show_every_frame(
    file: &PetFile,
    dir: &str,
    fallback_id: &str,
    pet: PetDef,
    name: Seq<char>,
    k: int,
)
    requires
        call_ensures(PetDef::parse, (file, dir, fallback_id), Ok(pet)),
        pet.animations@.dom().contains(name),
    ensures
        pet.animations@[name].frames.len() > 0,
        pet.animations@.dom().contains(pet.animations@[name].fallback),
        0 <= k < pet.animations@[name].frames.len() ==> pet.animations@[name].frames[k].sprite_index < pet.columns
            * pet.rows <= 256,
{
    assert(track_ok(pet.animations@, name, pet.columns * pet.rows));
    if 0 <= k < pet.animations@[name].frames.len() {
        assert(pet.animations@[name].frames[k].sprite_index < pet.columns * pet.rows);
    }
}

/// A manifest's own grid counts as it stands; without one the cells are 192x208
/// in eight columns, and the sheet has nine rows, or eleven in the second
/// version.
pub proof fn grid_is_the_manifests_or_canonical(file: &PetFile, dir: &str, fallback_id: &str, pet: PetDef)
    requires
        call_ensures(PetDef::parse, (file, dir, fallback_id), Ok(pet)),
    ensures
        file.frame matches Some(f) ==> pet.frame_width == f.width && pet.frame_height == f.height && pet.columns
            == f.columns && pet.rows == f.rows,
        file.frame is None ==> pet.frame_width == 192 && pet.frame_height == 208 && pet.columns == 8,
        file.frame is None && file.sprite_version == Some(2u32) ==> pet.rows == 11,
        file.frame is None && file.sprite_version != Some(2u32) ==> pet.rows == 9,
        pet.frame_width > 0 && pet.frame_height > 0 && pet.columns > 0 && pet.rows > 0,
        pet.columns * pet.rows <= 256,
{
}

/// A manifest is refused for its grid before anything else: for a side that is
/// zero, for a count that cannot be told, or for more than 256 cells.
pub proof fn bad_grids_are_refused(file: &PetFile, dir: &str, fallback_id: &str, parsed: Result<PetDef, PetError>)
    requires
        call_ensures(PetDef::parse, (file, dir, fallback_id), parsed),
        file.frame is Some,
    ensures
        ({
            let f = file.frame->0;
            let zero = f.width == 0 || f.height == 0 || f.columns == 0 || f.rows == 0;
            &&& zero <==> (parsed is Err && parsed->Err_0 is ZeroGrid)
            &&& !zero && f.columns * f.rows > u32::MAX <==> (parsed is Err && parsed->Err_0 is FrameCountOverflow)
            &&& !zero && 256 < f.columns * f.rows <= u32::MAX <==> (parsed is Err
                && parsed->Err_0 is TooManyFrames)
            &&& parsed matches Err(e) ==> (e matches PetError::TooManyFrames { count } ==> count == f.columns
                * f.rows)
        }),
{
    if let Err(e) = parsed {
        if grid_error(grid_of(*file)) is None && stays_inside(text_or(file.spritesheet_path, "spritesheet.webp"@)) {
            let count = (grid_of(*file).columns * grid_of(*file).rows) as usize;
            lemma_refusal_kinds(file.animations@, grid_of(*file), count, e@);
        }
    }
}

proof fn lemma_refusal_kinds(specs: Seq<(String, AnimationSpec)>, grid: FrameSpec, count: usize, e: PetErrorView)
    requires
        animations_refused(specs, grid, count, e),
    ensures
        e is NoFrames || e is BadFps || e is SpriteOutOfRange || e is MissingFallback,
{
}

/// A refusal names what is wrong: a declaration without frames, a rate out of
/// range, a frame off the sheet, a fallback that the pet does not have, or a
/// spritesheet outside its directory.
pub proof fn refusals_name_what_is_wrong(
    file: &PetFile,
    dir: &str,
    fallback_id: &str,
    e: PetError,
)
    requires
        call_ensures(PetDef::parse, (file, dir, fallback_id), Err(e)),
    ensures
        e matches PetError::NoFrames { name } ==> exists|i: int|
            0 <= i < file.animations@.len() && (#[trigger] file.animations@[i]).0@ == name@
                && file.animations@[i].1.frames@.len() == 0,
        e matches PetError::BadFps { name, fps } ==> exists|i: int|
            0 <= i < file.animations@.len() && (#[trigger] file.animations@[i]).0@ == name@
                && file.animations@[i].1.fps is OutOfRange && file.animations@[i].1.fps->OutOfRange_0@ == fps@,
        e matches PetError::SpriteOutOfRange { name, index, count } ==> index >= count,
        e matches PetError::SheetOutsideDir { dir: d } ==> d@ == dir@,
{
    let grid = grid_of(*file);
    let specs = file.animations@;
    let count = (grid.columns * grid.rows) as usize;
    if grid_error(grid) is None && stays_inside(text_or(file.spritesheet_path, "spritesheet.webp"@)) {
        if exists|i: int| #[trigger] first_bad_spec(specs, i) && spec_error(specs[i].0@, specs[i].1) == Some(e@) {
            let i = choose|i: int| #[trigger] first_bad_spec(specs, i) && spec_error(specs[i].0@, specs[i].1) == Some(e@);
            assert(specs[i].0@ == specs[i].0@);
        }
    }
}

/// A name or a path of the manifest counts without the white space around it,
/// and the default where nothing is left: the spritesheet lies below the pet's
/// directory, and the id is never blank where the fallback is not.
pub proof fn blank_names_give_way_to_defaults(
    file: &PetFile,
    dir: &str,
    fallback_id: &str,
    pet: PetDef,
    trimmed_id: &str,
    trimmed_path: &str,
)
    requires
        call_ensures(PetDef::parse, (file, dir, fallback_id), Ok(pet)),
        file.id matches Some(id) ==> trimmed_id@ == crate::strings::trimmed(id@),
        file.spritesheet_path matches Some(p) ==> trimmed_path@ == crate::strings::trimmed(p@),
    ensures
        file.id is None || trimmed_id@.len() == 0 ==> pet.id@ == fallback_id@,
        file.id is Some && trimmed_id@.len() > 0 ==> pet.id@ == trimmed_id@,
        ({
            let name = if file.spritesheet_path is None || trimmed_path@.len() == 0 {
                "spritesheet.webp"@
            } else {
                trimmed_path@
            };
            &&& pet.spritesheet_path@.take(dir@.len() as int) == dir@
            &&& pet.spritesheet_path@.skip(pet.spritesheet_path@.len() - name.len()) == name
            &&& name[0] != '/'
        }),
{
    let name = if file.spritesheet_path is None || trimmed_path@.len() == 0 {
        "spritesheet.webp"@
    } else {
        trimmed_path@
    };
    reveal_strlit("spritesheet.webp");
    assert(pet.spritesheet_path@.take(dir@.len() as int) =~= dir@);
    assert(pet.spritesheet_path@.skip(pet.spritesheet_path@.len() - name.len()) =~= name);
}

/// A path that a manifest may name has no component `..`, whether it stands
/// alone, at the start, at the end or in between; any other that is not
/// absolute it may.
pub proof fn sheets_never_climb_out(dir: &str, name: &str, path: Result<String, PetError>, parts: Vec<String>)
    requires
        call_ensures(resolve_spritesheet_path, (dir, name), path),
        call_ensures(split, (name, '/'), parts),
    ensures
        path is Ok <==> {
            &&& name@.len() == 0 || name@[0] != '/'
            &&& forall|k: int| 0 <= k < parts@.len() ==> (#[trigger] parts@[k])@ != ".."@
        },
{
    let texts = crate::strings::texts_of(parts@);
    assert(texts == crate::strings::pieces(name@, '/'));
    if texts.contains(".."@) {
        let k = choose|k: int| 0 <= k < texts.len() && texts[k] == ".."@;
        assert(parts@[k]@ == ".."@);
    }
    assert forall|k: int| 0 <= k < parts@.len() && (#[trigger] parts@[k])@ == ".."@ implies texts.contains(".."@) by {
        assert(texts[k] == ".."@);
    }
}

/// A sheet is the pet's exactly if the pet's cells cover it without remainder.
pub proof fn sheets_are_covered_exactly(pet: &PetDef, sheet_w: u32, sheet_h: u32, checked: Result<(), PetError>)
    requires
        call_ensures(PetDef::validate_sheet, (pet, sheet_w, sheet_h), checked),
    ensures
        checked is Ok <==> pet.columns * pet.frame_width == sheet_w && pet.rows * pet.frame_height == sheet_h,
{
    assert(pet.columns * pet.frame_width == pet.frame_width * pet.columns) by (nonlinear_arith);
    assert(pet.rows * pet.frame_height == pet.frame_height * pet.rows) by (nonlinear_arith);
}

/// Frame `k` of an undeclared row track shows cell `k` of its row on a canonical
/// grid: the frames run through the row's first cells from left to right, and
/// no two of them show the same.
pub proof fn row_tracks_show_their_cells(
    file: &PetFile,
    dir: &str,
    fallback_id: &str,
    pet: PetDef,
    name: Seq<char>,
    row: int,
    n: int,
    j: int,
    k: int,
)
    requires
        call_ensures(PetDef::parse, (file, dir, fallback_id), Ok(pet)),
        pet.columns >= 8,
        pet.rows >= 9,
        forall|i: int| 0 <= i < file.animations@.len() ==> (#[trigger] file.animations@[i]).0@ != name,
        name == "running-right"@ && row == 1 && n == 8 || name == "running-left"@ && row == 2 && n == 8 || name
            == "waving"@ && row == 3 && n == 4 || name == "jumping"@ && row == 4 && n == 5 || name == "failed"@ && row
            == 5 && n == 8 || name == "waiting"@ && row == 6 && n == 6 || name == "running"@ && row == 7 && n == 6
            || name == "review"@ && row == 8 && n == 6,
        0 <= j < k < n,
    ensures
        pet.animations@.dom().contains(name),
        pet.animations@[name].frames.len() == n,
        pet.animations@[name].frames[k].sprite_index == row * pet.columns + k,
        pet.animations@[name].frames[0].sprite_index == row * pet.columns,
        pet.animations@[name].frames[j].sprite_index < pet.animations@[name].frames[k].sprite_index,
        pet.animations@[name].loop_start == Some(0usize),
        pet.animations@[name].fallback == "idle"@,
{
    canonical_tracks_run_through_their_rows(file, dir, fallback_id, pet);
    assert(undeclared(*file, name));
    let t = pet.animations@[name];
    assert(t.frames[0].sprite_index == row * pet.columns + 0);
    assert(t.frames[j].sprite_index == row * pet.columns + j);
    assert(t.frames[k].sprite_index == row * pet.columns + k);
}

/// A manifest that says nothing, or only an id, makes a pet.
pub proof fn plain_manifests_are_accepted(
    file: &PetFile,
    dir: &str,
    fallback_id: &str,
    parsed: Result<PetDef, PetError>,
)
    requires
        call_ensures(PetDef::parse, (file, dir, fallback_id), parsed),
        file.animations@.len() == 0,
        file.spritesheet_path is None,
        file.frame matches Some(f) ==> f.width > 0 && f.height > 0 && f.columns > 0 && f.rows > 0 && f.columns * f.rows
            <= 256,
    ensures
        parsed is Ok,
{
    let grid = grid_of(*file);
    implied_animations_are_in_order(grid);
    assert(file.animations@ =~= Seq::<(String, AnimationSpec)>::empty());
    reveal_strlit("spritesheet.webp");
    reveal_strlit("..");
    let name = "spritesheet.webp"@;
    lemma_one_piece(name, '/');
    assert(name.len() == 16);
    let parts = crate::strings::pieces(name, '/');
    if parts.contains(".."@) {
        let k = choose|k: int| 0 <= k < parts.len() && parts[k] == ".."@;
        assert(parts[k].len() == 2);
    }
}

proof fn lemma_one_piece(s: Seq<char>, sep: char)
    requires
        forall|k: int| 0 <= k < s.len() ==> #[trigger] s[k] != sep,
    ensures
        crate::strings::pieces(s, sep) == seq![s],
    decreases s.len(),
{
    if s.len() > 0 {
        let rest = s.drop_last();
        assert forall|k: int| 0 <= k < rest.len() implies #[trigger] rest[k] != sep by {
            assert(s[k] == rest[k]);
        }
        lemma_one_piece(rest, sep);
        assert(s[s.len() - 1] != sep);
        assert(rest.push(s.last()) =~= s);
        assert(crate::strings::pieces(s, sep) =~= seq![s]);
    } else {
        assert(s =~= Seq::<char>::empty());
        assert(crate::strings::pieces(s, sep) =~= seq![s]);
    }
}

/// A pet is never refused for falling back to idle, and a frame is off the sheet
/// only past the last of its cells.
pub proof fn idle_is_always_there_to_fall_back_to(file: &PetFile, dir: &str, fallback_id: &str, e: PetError)
    requires
        call_ensures(PetDef::parse, (file, dir, fallback_id), Err(e)),
        file.frame is Some,
    ensures
        e matches PetError::MissingFallback { name, fallback } ==> fallback@ != "idle"@,
        e matches PetError::SpriteOutOfRange { name, index, count } ==> count == file.frame->0.columns
            * file.frame->0.rows && index >= count,
{
    let grid = grid_of(*file);
    let specs = file.animations@;
    let count = (grid.columns * grid.rows) as usize;
    let tracks = tracks_of(specs, grid, count as int);
    if grid_error(grid) is None {
        assert(grid.columns * grid.rows <= 256);
        assert(0 <= grid.columns * grid.rows) by (nonlinear_arith)
            requires
                0 <= grid.columns,
                0 <= grid.rows,
        ;
        assert(tracks.dom().contains("idle"@));
    }
}

/// A refusal is told with what it is about: the track by name, and the numbers
/// in decimal notation, in the order in which they are spoken of.
pub proof fn refusals_are_told_with_their_subject(e: &PetError, text: String)
    requires
        call_ensures(PetError::message, (e,), text),
    ensures
        e matches PetError::TooManyFrames { count } ==> text@ == "pet frame count "@ + crate::strings::decimal_of(
            *count as nat,
        ) + " exceeds maximum 256"@,
        e matches PetError::SheetOutsideDir { dir } ==> text@ == "spritesheet path must stay inside "@ + dir@,
        e matches PetError::NoFrames { name } ==> text@ == "animation "@ + name@ + " must include at least one frame"@,
        e matches PetError::BadFps { name, fps } ==> text@ == "animation "@ + name@
            + " fps must be finite and between 0 and 60, got "@ + fps@,
        e matches PetError::SpriteOutOfRange { name, index, count } ==> text@ == "animation "@ + name@
            + " references sprite index "@ + crate::strings::decimal_of(*index as nat) + ", but pet has "@
            + crate::strings::decimal_of(*count as nat) + " frames"@,
        e matches PetError::MissingFallback { name, fallback } ==> text@ == "animation "@ + name@ + " fallback "@
            + fallback@ + " does not exist"@,
        e matches PetError::GridMismatch { sheet_w, sheet_h, grid_w, grid_h } ==> text@
            == "pet frame grid must cover spritesheet exactly: sheet is "@ + crate::strings::decimal_of(
            *sheet_w as nat,
        ) + "x"@ + crate::strings::decimal_of(*sheet_h as nat) + ", grid covers "@ + crate::strings::decimal_of(
            *grid_w as nat,
        ) + "x"@ + crate::strings::decimal_of(*grid_h as nat),
{
}

} // verus!
