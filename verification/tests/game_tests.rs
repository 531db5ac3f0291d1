use simon::game::{
    new_round, FrameInput, GameContext, MenuLayout, RoundState, Scene, SoundCommand,
};
use simon::geometry::{Point, Rect};
use simon::persist::State;
use macroquad::rand::srand;
use simon::rng::next_quadrant;

const W: i64 = 800;
const H: i64 = 450;

/// A pointer position comfortably inside the given quadrant triangle.
fn quad_point(q: u8) -> Point {
    match q {
        0 => Point { x: 400, y: 50 },
        1 => Point { x: 750, y: 225 },
        2 => Point { x: 400, y: 400 },
        _ => Point { x: 50, y: 225 },
    }
}

fn layout() -> MenuLayout {
    MenuLayout {
        start_rect: Rect { x: 300, y: 150, w: 200, h: 50 },
        credits_rect: Rect { x: 300, y: 210, w: 200, h: 50 },
    }
}

fn input_at(mouse: Point, click_released: bool, now_ms: u64) -> FrameInput {
    FrameInput { mouse, click_released, now_ms }
}

/// A game context in the middle of a round with a known sequence.
fn mid_round(first: u8, second: u8, target_length: usize, score: u8) -> GameContext {
    let mut sequence = vec![0u8; 256];
    sequence[0] = first;
    sequence[1] = second;
    GameContext {
        scene: Scene::Game(RoundState {
            sequence,
            target_length,
            player_position: 0,
            round_start_ms: 0,
        }),
        state: State { score },
        last_frame_ms: 0,
    }
}

#[test]
fn generator_yields_quadrant_indices() {
    srand(7);
    for _ in 0..200 {
        assert!(next_quadrant() < 4);
    }
}

#[test]
fn generator_is_deterministic_per_seed() {
    srand(99);
    let a: Vec<u8> = (0..8).map(|_| next_quadrant()).collect();
    srand(99);
    let b: Vec<u8> = (0..8).map(|_| next_quadrant()).collect();
    assert_eq!(a, b);
}

#[test]
fn new_round_is_fresh() {
    let r = new_round(1234);
    assert_eq!(r.sequence.len(), 256);
    assert!(r.sequence.iter().all(|&q| q < 4));
    assert_eq!(r.target_length, 1);
    assert_eq!(r.player_position, 0);
    assert_eq!(r.round_start_ms, 1234);
}

#[test]
fn click_to_start_goes_to_menu() {
    let mut ctx = GameContext::new(State { score: 0 });
    ctx.click_to_start_frame(false);
    assert!(matches!(ctx.scene, Scene::ClickToStart));
    ctx.click_to_start_frame(true);
    assert!(matches!(ctx.scene, Scene::MainMenu));
}

#[test]
fn menu_buttons_fire_their_transitions() {
    let lay = layout();
    let mut ctx = GameContext::new(State { score: 0 });
    ctx.scene = Scene::MainMenu;
    // Hovering without a click stays put.
    ctx.menu_frame(&input_at(Point { x: 350, y: 170 }, false, 10), &lay);
    assert!(matches!(ctx.scene, Scene::MainMenu));
    // A click elsewhere stays put.
    ctx.menu_frame(&input_at(Point { x: 10, y: 10 }, true, 20), &lay);
    assert!(matches!(ctx.scene, Scene::MainMenu));
    // A click on the credits button opens the credits.
    ctx.menu_frame(&input_at(Point { x: 350, y: 230 }, true, 30), &lay);
    assert!(matches!(ctx.scene, Scene::Credits));
    ctx.credits_frame(true);
    assert!(matches!(ctx.scene, Scene::MainMenu));
    // A click on the start button begins a round anchored at the frame clock.
    ctx.menu_frame(&input_at(Point { x: 350, y: 170 }, true, 40), &lay);
    match &ctx.scene {
        Scene::Game(r) => {
            assert_eq!(r.target_length, 1);
            assert_eq!(r.player_position, 0);
            assert_eq!(r.round_start_ms, 40);
        }
        _ => panic!("expected the game scene"),
    }
}

#[test]
fn playback_shows_one_step_per_second() {
    let mut ctx = mid_round(2, 0, 1, 0);
    // Before the first second: the banner is up, nothing is lit.
    let out = ctx.game_frame(&input_at(Point { x: 0, y: 0 }, false, 400), W, H);
    assert!(out.memorize);
    assert_eq!(out.highlight, None);
    assert!(matches!(out.sound, SoundCommand::Silent));
    // Crossing into the first step fires its cue exactly once.
    ctx.last_frame_ms = 900;
    let out = ctx.game_frame(&input_at(Point { x: 0, y: 0 }, false, 1400), W, H);
    assert!(out.memorize);
    assert_eq!(out.highlight, Some(2));
    assert!(matches!(out.sound, SoundCommand::PlayOne(2)));
    // A later frame in the same step stays silent but keeps the light on.
    ctx.last_frame_ms = 1400;
    let out = ctx.game_frame(&input_at(Point { x: 0, y: 0 }, false, 1450), W, H);
    assert_eq!(out.highlight, Some(2));
    assert!(matches!(out.sound, SoundCommand::Silent));
}

#[test]
fn correct_click_advances_the_round() {
    let mut ctx = mid_round(3, 0, 1, 0);
    // Past target_length + 0.5 seconds the round accepts input.
    let out = ctx.game_frame(&input_at(quad_point(3), true, 2000), W, H);
    assert!(!out.memorize);
    assert_eq!(out.hover, Some(3));
    assert_eq!(out.highlight, Some(3));
    assert!(matches!(out.sound, SoundCommand::PlayOne(3)));
    match &ctx.scene {
        Scene::Game(r) => {
            assert_eq!(r.target_length, 2);
            assert_eq!(r.player_position, 0);
            assert_eq!(r.round_start_ms, 2000);
        }
        _ => panic!("expected the round to continue"),
    }
}

#[test]
fn correct_click_midway_only_steps() {
    let mut ctx = mid_round(1, 2, 2, 0);
    let out = ctx.game_frame(&input_at(quad_point(1), true, 3000), W, H);
    assert!(matches!(out.sound, SoundCommand::PlayOne(1)));
    match &ctx.scene {
        Scene::Game(r) => {
            assert_eq!(r.target_length, 2);
            assert_eq!(r.player_position, 1);
            assert_eq!(r.round_start_ms, 0);
        }
        _ => panic!("expected the round to continue"),
    }
}

#[test]
fn wrong_click_ends_the_round_with_the_buzzer() {
    // Target length 2: the score of the failed round is 1.
    let mut ctx = mid_round(1, 0, 2, 0);
    let out = ctx.game_frame(&input_at(quad_point(0), true, 3000), W, H);
    assert!(matches!(out.sound, SoundCommand::PlayAll));
    assert_eq!(out.highlight, None);
    match &ctx.scene {
        Scene::Score(d) => {
            assert_eq!(d.most_recent_score, 1);
            assert_eq!(d.old_high_score, 0);
            assert!(d.is_new_high_score);
        }
        _ => panic!("expected the score scene"),
    }
    assert_eq!(ctx.state.score, 1);
}

#[test]
fn hover_without_click_changes_nothing() {
    let mut ctx = mid_round(1, 0, 2, 5);
    let out = ctx.game_frame(&input_at(quad_point(0), false, 3000), W, H);
    assert_eq!(out.hover, Some(0));
    assert!(matches!(out.sound, SoundCommand::Silent));
    match &ctx.scene {
        Scene::Game(r) => assert_eq!(r.player_position, 0),
        _ => panic!("expected the round to continue"),
    }
    assert_eq!(ctx.state.score, 5);
}

#[test]
fn score_entry_detects_a_new_record() {
    let mut ctx = GameContext::new(State { score: 5 });
    ctx.enter_score(3);
    match &ctx.scene {
        Scene::Score(d) => {
            assert_eq!(d.most_recent_score, 3);
            assert_eq!(d.old_high_score, 5);
            assert!(!d.is_new_high_score);
        }
        _ => panic!("expected the score scene"),
    }
    assert_eq!(ctx.state.score, 5);

    let mut ctx = GameContext::new(State { score: 5 });
    ctx.enter_score(7);
    match &ctx.scene {
        Scene::Score(d) => {
            assert_eq!(d.most_recent_score, 7);
            assert_eq!(d.old_high_score, 5);
            assert!(d.is_new_high_score);
        }
        _ => panic!("expected the score scene"),
    }
    assert_eq!(ctx.state.score, 7);
}

#[test]
fn full_run_from_fresh_state_to_new_high_score() {
    let lay = layout();
    let mut ctx = GameContext::new(State { score: 0 });

    // Click anywhere to begin.
    let out = ctx.frame(&input_at(Point { x: 1, y: 1 }, true, 100), &lay, W, H);
    assert!(matches!(ctx.scene, Scene::MainMenu));
    assert!(matches!(out.sound, SoundCommand::Silent));

    // Click the start button: a length-one round begins.
    ctx.frame(&input_at(Point { x: 350, y: 170 }, true, 200), &lay, W, H);
    let first = match &ctx.scene {
        Scene::Game(r) => {
            assert_eq!(r.target_length, 1);
            assert_eq!(r.round_start_ms, 200);
            r.sequence[0]
        }
        _ => panic!("expected the game scene"),
    };
    assert!(first < 4);

    // After playback, click the correct quadrant: the round grows to two.
    let out = ctx.frame(&input_at(quad_point(first), true, 2000), &lay, W, H);
    assert!(matches!(out.sound, SoundCommand::PlayOne(q) if q == first));
    match &ctx.scene {
        Scene::Game(r) => {
            assert_eq!(r.target_length, 2);
            assert_eq!(r.player_position, 0);
            assert_eq!(r.round_start_ms, 2000);
        }
        _ => panic!("expected the round to continue"),
    }

    // Now click a wrong quadrant: the round ends with a score of one.
    let wrong = (first + 1) % 4;
    let out = ctx.frame(&input_at(quad_point(wrong), true, 6000), &lay, W, H);
    assert!(matches!(out.sound, SoundCommand::PlayAll));
    match &ctx.scene {
        Scene::Score(d) => {
            assert_eq!(d.most_recent_score, 1);
            assert_eq!(d.old_high_score, 0);
            assert!(d.is_new_high_score);
        }
        _ => panic!("expected the score scene"),
    }
    assert_eq!(ctx.state.score, 1);

    // Click to return to the menu.
    ctx.frame(&input_at(Point { x: 1, y: 1 }, true, 6100), &lay, W, H);
    assert!(matches!(ctx.scene, Scene::MainMenu));
}
