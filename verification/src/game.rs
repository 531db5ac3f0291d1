//! The scene state machine: the single source of truth for which scene is
//! active and for the round data that lives across frames.
//!
//! Each frame the driver hands in the pointer position, whether the mouse
//! button was released this frame, and the wall-clock time in milliseconds;
//! the machine mutates its state and reports what to play and highlight.
//! Timing is wall-clock based throughout, never frame-count based.

use vstd::prelude::*;
use crate::geometry::Point;
use crate::geometry::Rect;
use crate::geometry::check_collision_point_rect;
use crate::geometry::in_rect;
use crate::geometry::quadrant_at;
use crate::geometry::spec_quadrant_at;
use crate::geometry::COORD_LIMIT;
use crate::persist::State;
use crate::rng::next_quadrant;

verus! {

/// Slots pre-generated for a round's sequence: the longest round a player
/// could ever reproduce.
pub const SEQ_CAP: usize = 256;

/// Timestamps are bounded away from `u64` overflow; at one tick per
/// millisecond the bound lies hundreds of millions of years out.
pub const TIME_LIMIT: u64 = 0x4000_0000_0000_0000;

/// Live state of one round of the game.
pub struct RoundState {
    /// The quadrant indices to memorize, generated fresh for the round.
    pub sequence: Vec<u8>,
    /// How many entries of `sequence` the player must currently reproduce.
    pub target_length: usize,
    /// Index of the next expected input within the sequence.
    pub player_position: usize,
    /// Wall-clock anchor from which the playback step is derived.
    pub round_start_ms: u64,
}

impl RoundState {
    pub open spec fn wf(self) -> bool {
        &&& self.sequence.len() == SEQ_CAP
        &&& (forall|i: int| 0 <= i < self.sequence.len() ==> self.sequence[i] < 4)
        &&& 1 <= self.target_length <= SEQ_CAP
        &&& self.player_position < self.target_length
        &&& self.round_start_ms <= TIME_LIMIT
    }
}

/// Snapshot computed once on entering the score scene.
pub struct ScoreData {
    pub most_recent_score: u8,
    pub old_high_score: u8,
    pub is_new_high_score: bool,
}

/// The active scene, holding only the data that scene needs; a transition
/// replaces the variant, which discards stale round data.
pub enum Scene {
    ClickToStart,
    MainMenu,
    Game(RoundState),
    Credits,
    Score(ScoreData),
}

/// Everything the frame loop owns: the active scene, the persisted high
/// score as loaded or last written, and the previous frame's clock.
pub struct GameContext {
    pub scene: Scene,
    pub state: State,
    pub last_frame_ms: u64,
}

/// What the driver reads from the platform each frame.
pub struct FrameInput {
    pub mouse: Point,
    pub click_released: bool,
    pub now_ms: u64,
}

impl FrameInput {
    pub open spec fn wf(self) -> bool {
        self.mouse.bounded() && self.now_ms <= TIME_LIMIT
    }
}

/// The two menu buttons' hit rectangles, sized by the driver from measured
/// label text.
pub struct MenuLayout {
    pub start_rect: Rect,
    pub credits_rect: Rect,
}

impl MenuLayout {
    pub open spec fn wf(self) -> bool {
        self.start_rect.bounded() && self.credits_rect.bounded()
    }
}

/// Which audio cues to fire this frame. On a wrong answer all four sound
/// at once as a buzzer.
pub enum SoundCommand {
    Silent,
    PlayOne(u8),
    PlayAll,
}

/// What the driver must render and play for this frame.
pub struct FrameOutput {
    pub sound: SoundCommand,
    /// Quadrant whose signal circle is lit, during playback or on a
    /// correct click.
    pub highlight: Option<u8>,
    /// Quadrant under the pointer during the input phase, to outline.
    pub hover: Option<u8>,
    /// Whether the "Memorize" banner is up, i.e. the playback phase runs.
    pub memorize: bool,
}

impl GameContext {
    pub open spec fn wf(self) -> bool {
        &&& (self.scene matches Scene::Game(r) ==> r.wf())
        &&& self.last_frame_ms <= TIME_LIMIT
    }

    /// A fresh machine: waiting for the first click, with the given
    /// persisted record.
    pub fn new(state: State) -> (ctx: GameContext)
        ensures
            ctx.wf(),
            ctx.scene is ClickToStart,
            ctx.state == state,
    {
        GameContext { scene: Scene::ClickToStart, state, last_frame_ms: 0 }
    }
}

/// The second of playback that `t` falls in, counted from the round's
/// anchor. Times at or before the anchor count as second zero; that frame
/// never fires a cue anyway, because cues start with second one.
pub open spec fn sec_index(start_ms: u64, t: u64) -> int {
    if t <= start_ms {
        0
    } else {
        (t - start_ms) / 1000
    }
}

/// The sequence step shown at time `now`: one step per second, the first
/// second showing nothing.
pub open spec fn playback_step(r: RoundState, now: u64) -> int {
    sec_index(r.round_start_ms, now) - 1
}

/// The round replays its sequence while less than `target_length + 0.5`
/// seconds have elapsed; afterwards it accepts input.
pub open spec fn in_playback(r: RoundState, now: u64) -> bool {
    (now as int) < r.round_start_ms + r.target_length * 1000 + 500
}

/// A cue fires exactly on the frame where the playback second changes.
pub open spec fn playback_fires(r: RoundState, now: u64, last: u64) -> bool {
    playback_step(r, now) >= 0 && sec_index(r.round_start_ms, now) != sec_index(
        r.round_start_ms,
        last,
    )
}

/// What a playback-phase frame reports: the banner, the lit quadrant of
/// the current step, and its cue exactly once per step.
pub open spec fn playback_output(r: RoundState, now: u64, last: u64, out: FrameOutput) -> bool {
    &&& out.memorize
    &&& out.hover is None
    &&& (playback_step(r, now) >= 0 ==> {
        &&& out.highlight == Some(r.sequence[playback_step(r, now)])
        &&& out.sound == (if playback_fires(r, now, last) {
            SoundCommand::PlayOne(r.sequence[playback_step(r, now)])
        } else {
            SoundCommand::Silent
        })
    })
    &&& (playback_step(r, now) < 0 ==> out.highlight is None && out.sound
        == SoundCommand::Silent)
}

/// A fully repeated sequence: the round restarts one entry longer, from
/// the same pre-generated entries, re-anchored at `now`.
pub open spec fn round_advance(r: RoundState, r2: RoundState, now: u64) -> bool {
    &&& r2.sequence == r.sequence
    &&& r2.player_position == 0
    &&& (r.target_length < SEQ_CAP ==> r2.target_length == r.target_length + 1)
    &&& (r.target_length >= SEQ_CAP ==> r2.target_length == r.target_length)
    &&& r2.round_start_ms == now
}

/// A correct input that does not yet finish the sequence: only the
/// expected position moves.
pub open spec fn round_step(r: RoundState, r2: RoundState) -> bool {
    &&& r2.sequence == r.sequence
    &&& r2.player_position == r.player_position + 1
    &&& r2.target_length == r.target_length
    &&& r2.round_start_ms == r.round_start_ms
}

/// Entry into the score scene from a just-ended round: the snapshot holds
/// the round's score and the prior record, and the persisted score becomes
/// the larger of the two.
pub open spec fn score_entry(pre: GameContext, post: GameContext, most_recent: u8) -> bool {
    &&& post.scene matches Scene::Score(d) && {
        &&& d.most_recent_score == most_recent
        &&& d.old_high_score == pre.state.score
        &&& d.is_new_high_score == (pre.state.score < most_recent)
    }
    &&& post.state.score == (if pre.state.score < most_recent {
        most_recent
    } else {
        pre.state.score
    })
}

/// No sound, no highlight: what every scene but the game reports.
pub open spec fn quiet_output(out: FrameOutput) -> bool {
    &&& out.sound == SoundCommand::Silent
    &&& out.highlight is None
    &&& out.hover is None
    &&& !out.memorize
}

/// Scene and persisted record untouched; the frame clock may still move.
pub open spec fn same_core(pre: GameContext, post: GameContext) -> bool {
    post.scene == pre.scene && post.state == pre.state
}

/// The main-menu transition table: a click release on the credits button
/// opens the credits, one on the start button begins a fresh round
/// anchored at the frame's clock, anything else stays. Where the two
/// rectangles overlap, the credits button wins.
pub open spec fn menu_transition(
    pre: GameContext,
    post: GameContext,
    input: FrameInput,
    layout: MenuLayout,
) -> bool {
    let click = input.click_released;
    let on_start = in_rect(input.mouse, layout.start_rect);
    let on_credits = in_rect(input.mouse, layout.credits_rect);
    &&& post.state == pre.state
    &&& (click && on_credits ==> post.scene is Credits)
    &&& (click && on_start && !on_credits ==> (post.scene matches Scene::Game(r) && r.wf()
        && r.target_length == 1 && r.player_position == 0 && r.round_start_ms == input.now_ms))
    &&& (!(click && (on_start || on_credits)) ==> post.scene is MainMenu)
}

/// One frame of the game scene, as seen from outside: replay while the
/// playback window is open, otherwise judge the hovered quadrant against
/// the next expected entry.
pub open spec fn game_rel(
    pre: GameContext,
    post: GameContext,
    input: FrameInput,
    width: i64,
    height: i64,
    out: FrameOutput,
) -> bool
    recommends
        pre.scene is Game,
{
    let r = pre.scene->Game_0;
    let now = input.now_ms;
    let last = pre.last_frame_ms;
    let hov = spec_quadrant_at(input.mouse, width, height);
    if in_playback(r, now) {
        same_core(pre, post) && playback_output(r, now, last, out)
    } else {
        &&& !out.memorize
        &&& out.hover == hov
        &&& (!(input.click_released && hov is Some) ==> (same_core(pre, post) && out.sound
            == SoundCommand::Silent && out.highlight is None))
        &&& (input.click_released ==> match hov {
            Some(q) => (if q == r.sequence[r.player_position as int] {
                &&& out.sound == SoundCommand::PlayOne(q)
                &&& out.highlight == Some(q)
                &&& post.state == pre.state
                &&& (post.scene matches Scene::Game(r2) && {
                    &&& (r.player_position + 1 == r.target_length ==> round_advance(r, r2, now))
                    &&& (r.player_position + 1 < r.target_length ==> round_step(r, r2))
                })
            } else {
                &&& out.sound == SoundCommand::PlayAll
                &&& out.highlight is None
                &&& score_entry(pre, post, (r.target_length - 1) as u8)
            }),
            None => true,
        })
    }
}

impl GameContext {
    /// Start scene: any click release moves to the main menu.
    pub fn click_to_start_frame(&mut self, click_released: bool)
        requires
            old(self).wf(),
            old(self).scene is ClickToStart,
        ensures
            final(self).wf(),
            final(self).state == old(self).state,
            final(self).last_frame_ms == old(self).last_frame_ms,
            click_released ==> final(self).scene is MainMenu,
            !click_released ==> final(self).scene is ClickToStart,
    {
        if click_released {
            self.scene = Scene::MainMenu;
        }
    }

    /// Credits scene: any click release returns to the main menu.
    pub fn credits_frame(&mut self, click_released: bool)
        requires
            old(self).wf(),
            old(self).scene is Credits,
        ensures
            final(self).wf(),
            final(self).state == old(self).state,
            final(self).last_frame_ms == old(self).last_frame_ms,
            click_released ==> final(self).scene is MainMenu,
            !click_released ==> final(self).scene is Credits,
    {
        if click_released {
            self.scene = Scene::MainMenu;
        }
    }

    /// Score scene: any click release returns to the main menu, dropping
    /// the snapshot.
    pub fn score_frame(&mut self, click_released: bool)
        requires
            old(self).wf(),
            old(self).scene is Score,
        ensures
            final(self).wf(),
            final(self).state == old(self).state,
            final(self).last_frame_ms == old(self).last_frame_ms,
            click_released ==> final(self).scene is MainMenu,
            !click_released ==> final(self).scene == old(self).scene,
    {
        if click_released {
            self.scene = Scene::MainMenu;
        }
    }

    /// Main menu: a click release on a button fires its transition; a
    /// click on the start button begins a fresh round anchored at `now`.
    /// When the two rectangles overlap, the credits button wins.
    pub fn menu_frame(&mut self, input: &FrameInput, layout: &MenuLayout)
        requires
            old(self).wf(),
            old(self).scene is MainMenu,
            input.wf(),
            layout.wf(),
        ensures
            final(self).wf(),
            final(self).last_frame_ms == old(self).last_frame_ms,
            menu_transition(*old(self), *final(self), *input, *layout),
    {
        let on_start = check_collision_point_rect(input.mouse, layout.start_rect);
        let on_credits = check_collision_point_rect(input.mouse, layout.credits_rect);
        if input.click_released {
            if on_credits {
                self.scene = Scene::Credits;
            } else if on_start {
                self.scene = Scene::Game(new_round(input.now_ms));
            }
        }
    }

    /// Snapshot the just-ended round, detect a new record, and raise the
    /// held record to the larger score. The driver writes the record
    /// through the persistence adapter whenever it has changed.
    pub fn enter_score(&mut self, most_recent_score: u8)
        requires
            old(self).wf(),
        ensures
            final(self).wf(),
            final(self).last_frame_ms == old(self).last_frame_ms,
            score_entry(*old(self), *final(self), most_recent_score),
    {
        let old_score: u8 = self.state.score;
        let is_new: bool = old_score < most_recent_score;
        self.scene = Scene::Score(
            ScoreData {
                most_recent_score,
                old_high_score: old_score,
                is_new_high_score: is_new,
            },
        );
        if is_new {
            self.state = State { score: most_recent_score };
        }
    }

    /// One frame of the game scene. While the playback window is open the
    /// round replays, one step and one cue per second; afterwards a click
    /// release on a quadrant is judged against the next expected entry: a
    /// correct one steps or advances the round, a wrong one ends it with
    /// the buzzer and the score snapshot.
    pub fn game_frame(&mut self, input: &FrameInput, width: i64, height: i64) -> (out: FrameOutput)
        requires
            old(self).wf(),
            old(self).scene is Game,
            input.wf(),
            2 <= width <= COORD_LIMIT,
            2 <= height <= COORD_LIMIT,
        ensures
            final(self).wf(),
            final(self).last_frame_ms == old(self).last_frame_ms,
            game_rel(*old(self), *final(self), *input, width, height, out),
    {
        let now: u64 = input.now_ms;
        let last: u64 = self.last_frame_ms;
        let (start_ms, tl, pp): (u64, usize, usize) = match &self.scene {
            Scene::Game(r) => (r.round_start_ms, r.target_length, r.player_position),
            _ => unreached(),
        };
        if now < start_ms + (tl as u64) * 1000 + 500 {
            // Playback phase.
            let cur_sec: u64 = if now <= start_ms {
                0
            } else {
                (now - start_ms) / 1000
            };
            let last_sec: u64 = if last <= start_ms {
                0
            } else {
                (last - start_ms) / 1000
            };
            if cur_sec >= 1 {
                let idx: usize = (cur_sec - 1) as usize;
                proof {
                    assert(now > start_ms);
                    assert((now - start_ms) as int == ((now - start_ms) as int / 1000) * 1000 + (
                    now - start_ms) as int % 1000);
                    assert(idx < tl);
                }
                let cue: u8 = match &self.scene {
                    Scene::Game(r) => r.sequence[idx],
                    _ => unreached(),
                };
                let sound = if cur_sec != last_sec {
                    SoundCommand::PlayOne(cue)
                } else {
                    SoundCommand::Silent
                };
                FrameOutput { sound, highlight: Some(cue), hover: None, memorize: true }
            } else {
                FrameOutput {
                    sound: SoundCommand::Silent,
                    highlight: None,
                    hover: None,
                    memorize: true,
                }
            }
        } else {
            // Input phase.
            let hov = quadrant_at(input.mouse, width, height);
            if input.click_released {
                if let Some(q) = hov {
                    let expected: u8 = match &self.scene {
                        Scene::Game(r) => r.sequence[pp],
                        _ => unreached(),
                    };
                    if q == expected {
                        if pp + 1 == tl {
                            match &mut self.scene {
                                Scene::Game(r) => {
                                    r.player_position = 0;
                                    if r.target_length < SEQ_CAP {
                                        r.target_length = r.target_length + 1;
                                    }
                                    r.round_start_ms = now;
                                },
                                _ => {},
                            }
                        } else {
                            match &mut self.scene {
                                Scene::Game(r) => {
                                    r.player_position = pp + 1;
                                },
                                _ => {},
                            }
                        }
                        return FrameOutput {
                            sound: SoundCommand::PlayOne(q),
                            highlight: Some(q),
                            hover: Some(q),
                            memorize: false,
                        };
                    } else {
                        let mrs: u8 = (tl - 1) as u8;
                        self.enter_score(mrs);
                        return FrameOutput {
                            sound: SoundCommand::PlayAll,
                            highlight: None,
                            hover: Some(q),
                            memorize: false,
                        };
                    }
                }
            }
            FrameOutput { sound: SoundCommand::Silent, highlight: None, hover: hov, memorize: false }
        }
    }

    /// One frame of the whole machine: dispatch on the active scene, then
    /// remember this frame's clock for the next frame's cue detection.
    pub fn frame(&mut self, input: &FrameInput, layout: &MenuLayout, width: i64, height: i64) -> (out:
        FrameOutput)
        requires
            old(self).wf(),
            input.wf(),
            layout.wf(),
            2 <= width <= COORD_LIMIT,
            2 <= height <= COORD_LIMIT,
        ensures
            final(self).wf(),
            final(self).last_frame_ms == input.now_ms,
            old(self).scene is ClickToStart ==> (quiet_output(out) && final(self).state == old(
                self,
            ).state && (input.click_released ==> final(self).scene is MainMenu) && (
            !input.click_released ==> final(self).scene is ClickToStart)),
            old(self).scene is MainMenu ==> (quiet_output(out) && menu_transition(
                *old(self),
                *final(self),
                *input,
                *layout,
            )),
            old(self).scene is Game ==> game_rel(
                *old(self),
                *final(self),
                *input,
                width,
                height,
                out,
            ),
            old(self).scene is Credits ==> (quiet_output(out) && final(self).state == old(
                self,
            ).state && (input.click_released ==> final(self).scene is MainMenu) && (
            !input.click_released ==> final(self).scene is Credits)),
            old(self).scene is Score ==> (quiet_output(out) && final(self).state == old(self).state
                && (input.click_released ==> final(self).scene is MainMenu) && (
            !input.click_released ==> final(self).scene == old(self).scene)),
    {
        let tag: u8 = match &self.scene {
            Scene::ClickToStart => 0,
            Scene::MainMenu => 1,
            Scene::Game(_) => 2,
            Scene::Credits => 3,
            Scene::Score(_) => 4,
        };
        let quiet = FrameOutput {
            sound: SoundCommand::Silent,
            highlight: None,
            hover: None,
            memorize: false,
        };
        let out: FrameOutput;
        if tag == 0 {
            self.click_to_start_frame(input.click_released);
            out = quiet;
        } else if tag == 1 {
            self.menu_frame(input, layout);
            out = quiet;
        } else if tag == 2 {
            out = self.game_frame(input, width, height);
        } else if tag == 3 {
            self.credits_frame(input.click_released);
            out = quiet;
        } else {
            self.score_frame(input.click_released);
            out = quiet;
        }
        self.last_frame_ms = input.now_ms;
        out
    }
}

/// A fresh round: a fully regenerated random sequence, a target of one,
/// and the clock anchored at `now_ms`.
pub fn new_round(now_ms: u64) -> (r: RoundState)
    requires
        now_ms <= TIME_LIMIT,
    ensures
        r.wf(),
        r.target_length == 1,
        r.player_position == 0,
        r.round_start_ms == now_ms,
{
    let mut sequence: Vec<u8> = Vec::new();
    let mut i: usize = 0;
    while i < SEQ_CAP
        invariant
            i <= SEQ_CAP,
            sequence.len() == i,
            forall|j: int| 0 <= j < sequence.len() ==> sequence[j] < 4,
        decreases SEQ_CAP - i,
    {
        let q = next_quadrant();
        sequence.push(q);
        i = i + 1;
    }
    RoundState { sequence, target_length: 1, player_position: 0, round_start_ms: now_ms }
}

} // verus!
