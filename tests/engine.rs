use teleia::input::{Key, Keycode, KEYCODE_1, KEYCODE_F12, KEYCODE_W};
use teleia::scheduler::{Scheduler, DELTA_TIME, TICK_EPOCH};
use teleia::state::State;
use teleia::viewport::{Context, Viewport};

fn state() -> State {
    State::new(&Context::new(240, 160), 0, 1000, 700)
}

#[test]
fn upscale_largest_integer_that_fits() {
    let ctx = Context::new(240, 160);
    assert_eq!(ctx.compute_upscale(1000, 700), 4);
    assert_eq!(ctx.compute_upscale(480, 320), 2);
    assert_eq!(ctx.compute_upscale(479, 320), 1);
}

#[test]
fn upscale_never_below_one() {
    let ctx = Context::new(240, 160);
    assert_eq!(ctx.compute_upscale(100, 700), 1);
    assert_eq!(ctx.compute_upscale(0, 0), 1);
}

#[test]
fn letterbox_centers_the_upscaled_image() {
    let v = Viewport::screen(&Context::new(240, 160), 1000, 700);
    assert_eq!((v.width, v.height), (960, 640));
    assert_eq!((v.offset_x, v.offset_y), (20, 30));
}

#[test]
fn letterbox_overflowing_window_is_centered_too() {
    let v = Viewport::screen(&Context::new(240, 160), 100, 161);
    assert_eq!((v.width, v.height), (240, 160));
    assert_eq!((v.offset_x, v.offset_y), (-70, 0));
}

#[test]
fn resize_recomputes_the_screen() {
    let mut st = state();
    st.handle_resize(&Context::new(240, 160), 500, 400);
    assert_eq!((st.screen.width, st.screen.offset_x, st.screen.offset_y), (480, 10, 40));
    assert_eq!((st.render_framebuffer.width, st.render_framebuffer.offset_x), (240, 0));
}

#[test]
fn scheduler_runs_at_most_one_update_per_poll() {
    let mut c = Scheduler::new(0);
    assert!(!c.advance(0));
    assert!(c.advance(10_000));
    assert_eq!((c.tick, c.nextframe), (TICK_EPOCH + 1, DELTA_TIME));
    assert!(!c.advance(15_000));
    assert!(c.advance(100_000));
    assert_eq!((c.tick, c.nextframe), (TICK_EPOCH + 2, 112_000));
    assert!(!c.advance(112_000));
    assert!(c.advance(112_001));
    assert_eq!((c.tick, c.nextframe), (TICK_EPOCH + 3, 128_000));
}

#[test]
fn scheduler_measures_ticks_per_second() {
    let mut c = Scheduler::new(0);
    assert!(c.advance(10_000));
    assert!(c.advance(20_000));
    assert_eq!((c.fps, c.frames_this_second), (0, 2));
    assert!(c.advance(1_000_001));
    assert_eq!((c.fps, c.frames_this_second, c.start_this_second), (3, 0, 1_000_001));
    assert!(!c.advance(1_000_002));
    assert_eq!(c.fps, 3);
}

#[test]
fn scheduler_range_check() {
    let c = Scheduler::new(0);
    assert!(c.can_advance(1_000));
    assert!(!c.can_advance(u64::MAX));
}

#[test]
fn edge_flag_true_once_per_press() {
    let mut st = state();
    st.key_pressed(Keycode::new(KEYCODE_1));
    assert!(st.keys.a());
    assert!(st.keys.new_a());
    assert!(!st.keys.new_a());
    assert!(st.keys.a());
    st.key_released(Keycode::new(KEYCODE_1));
    assert!(!st.keys.a());
    st.key_pressed(Keycode::new(KEYCODE_1));
    assert!(st.keys.consume_new(Key::A));
    assert!(!st.keys.consume_new(Key::A));
}

#[test]
fn release_keeps_the_edge_flag() {
    let mut st = state();
    st.key_pressed(Keycode::new(KEYCODE_W));
    st.key_released(Keycode::new(KEYCODE_W));
    assert!(!st.keys.up());
    assert!(st.keys.new_up());
}

#[test]
fn focus_loss_releases_everything() {
    let mut st = state();
    st.key_pressed(Keycode::new(KEYCODE_W));
    st.key_pressed(Keycode::new(KEYCODE_1));
    st.focus_lost();
    assert!(!st.keys.up() && !st.keys.a());
    assert!(st.keys.new_up());
}

#[test]
fn unbound_key_does_nothing() {
    let mut st = state();
    st.key_pressed(Keycode::new(999));
    for k in [Key::Up, Key::Down, Key::Left, Key::Right, Key::A, Key::B, Key::X, Key::Y, Key::L, Key::R, Key::Start, Key::Select] {
        assert!(!st.keys.held(k));
    }
}

#[test]
fn rebinding_moves_the_key() {
    let mut st = state();
    st.rebind_key(Key::Up);
    st.key_pressed(Keycode::new(KEYCODE_1));
    assert!(!st.keys.up());
    assert!(!st.keys.new_up());
    assert_eq!(st.keybinding_for(Key::Up), Some(Keycode::new(KEYCODE_1)));
    assert_eq!(st.keybinding_for(Key::A), None);
    st.key_pressed(Keycode::new(KEYCODE_W));
    assert!(!st.keys.up());
    st.key_pressed(Keycode::new(KEYCODE_1));
    assert!(st.keys.up());
    assert!(!st.keys.a());
}

#[test]
fn reset_key_restores_defaults() {
    let mut st = state();
    st.rebind_key(Key::Up);
    st.key_pressed(Keycode::new(KEYCODE_1));
    st.rebind_key(Key::B);
    st.key_pressed(Keycode::new(KEYCODE_F12));
    assert!(st.rebinding.is_none());
    assert_eq!(st.keybinding_for(Key::Up), Some(Keycode::new(KEYCODE_W)));
    assert_eq!(st.keybinding_for(Key::A), Some(Keycode::new(KEYCODE_1)));
    assert_eq!(st.log.len(), 1);
    assert_eq!(st.log[0], (TICK_EPOCH, "Reset keybindings!".to_string()));
}

#[test]
fn update_polls_the_clock() {
    let mut st = state();
    assert!(st.run_update(20_000));
    assert_eq!(st.clock.tick, TICK_EPOCH + 1);
    st.write_log("hi");
    assert_eq!(st.log[0], (TICK_EPOCH + 1, "hi".to_string()));
}
