//! The engine state that the main loop owns: the simulation clock, the key
//! bindings and button flags, the render targets' rectangles and the log.
//! The graphics objects that draw into those rectangles are held next to it
//! by the platform layer.

use vstd::prelude::*;
use crate::input::{
    default_keybindings, default_layout, press_spec, rebound, release_spec, Key, Keybindings,
    Keycode, Keys, KEYCODE_F12,
};
use crate::scheduler::{advance_spec, can_advance, Scheduler};
use crate::viewport::{Context, Viewport, center_offset, upscale_ratio};

verus! {

/// The engine state.
pub struct State {
    pub clock: Scheduler,
    /// The button whose binding the next key press replaces.
    pub rebinding: Option<Key>,
    pub keybindings: Keybindings,
    pub keys: Keys,
    /// Where the upscaled image goes in the window.
    pub screen: Viewport,
    /// The fixed-resolution offscreen target.
    pub render_framebuffer: Viewport,
    /// Messages for the player, each with the tick it was written at.
    pub log: Vec<(u64, String)>,
}

/// `after` is `before` with one more entry, written at `tick` and reading `text`.
pub open spec fn logged(before: Seq<(u64, String)>, after: Seq<(u64, String)>, tick: u64, text: Seq<char>) -> bool {
    &&& after.len() == before.len() + 1
    &&& after.drop_last() == before
    &&& after.last().0 == tick
    &&& after.last().1@ == text
}

/// The screen rectangle for a window of `w` x `h` pixels.
pub open spec fn screen_for(ctx: Context, w: u32, h: u32, v: Viewport) -> bool {
    let ratio = upscale_ratio(ctx.render_width as int, ctx.render_height as int, w as int, h as int);
    &&& v.width == ctx.render_width * ratio
    &&& v.height == ctx.render_height * ratio
    &&& v.offset_x == center_offset(w as int, v.width as int)
    &&& v.offset_y == center_offset(h as int, v.height as int)
}

impl State {
    pub open spec fn wf(&self) -> bool {
        self.keybindings.wf() && self.keys.wf()
    }

    /// The state at start-up, at time `now`, in a window of `windoww` x
    /// `windowh` pixels: the default bindings, nothing pressed, an empty log.
    pub fn new(ctx: &Context, now: u64, windoww: u32, windowh: u32) -> (r: State)
        requires
            ctx.render_width > 0,
            ctx.render_height > 0,
        ensures
            r.wf(),
            r.clock == Scheduler::new_spec(now),
            r.rebinding is None,
            r.keybindings@ == default_layout(),
            r.keys@.held == Set::<Key>::empty(),
            r.keys@.new == Set::<Key>::empty(),
            screen_for(*ctx, windoww, windowh, r.screen),
            r.render_framebuffer.width == ctx.render_width,
            r.render_framebuffer.height == ctx.render_height,
            r.render_framebuffer.offset_x == 0,
            r.render_framebuffer.offset_y == 0,
            r.log@ == Seq::<(u64, String)>::empty(),
    {
        State {
            clock: Scheduler::new(now),
            rebinding: None,
            keybindings: default_keybindings(),
            keys: Keys::new(),
            screen: Viewport::screen(ctx, windoww, windowh),
            render_framebuffer: Viewport::offscreen(ctx),
            log: Vec::new(),
        }
    }

    /// Adds a message to the log, stamped with the current tick.
    pub fn write_log(&mut self, e: &str)
        ensures
            logged(old(self).log@, final(self).log@, old(self).clock.tick, e@),
            final(self).clock == old(self).clock,
            final(self).rebinding == old(self).rebinding,
            final(self).keybindings == old(self).keybindings,
            final(self).keys == old(self).keys,
            final(self).screen == old(self).screen,
            final(self).render_framebuffer == old(self).render_framebuffer,
    {
        let entry = (self.clock.tick, e.to_owned());
        self.log.push(entry);
        assert(self.log@.drop_last() =~= old(self).log@);
    }

    /// Recomputes the screen rectangle for a window of `windoww` x `windowh`
    /// pixels.
    pub fn handle_resize(&mut self, ctx: &Context, windoww: u32, windowh: u32)
        requires
            ctx.render_width > 0,
            ctx.render_height > 0,
        ensures
            screen_for(*ctx, windoww, windowh, final(self).screen),
            final(self).clock == old(self).clock,
            final(self).rebinding == old(self).rebinding,
            final(self).keybindings == old(self).keybindings,
            final(self).keys == old(self).keys,
            final(self).render_framebuffer == old(self).render_framebuffer,
            final(self).log == old(self).log,
    {
        self.screen = Viewport::screen(ctx, windoww, windowh);
    }

    /// A key went down. The reset key restores the default bindings and
    /// cancels a rebind. Otherwise, while a rebind is pending, the key is
    /// bound to the pending button and nothing is pressed. Otherwise a
    /// bound key presses its button.
    pub fn key_pressed(&mut self, key: Keycode)
        requires
            old(self).wf(),
        ensures
            final(self).wf(),
            final(self).clock == old(self).clock,
            final(self).screen == old(self).screen,
            final(self).render_framebuffer == old(self).render_framebuffer,
            final(self).rebinding is None,
            key.kc == KEYCODE_F12 ==> {
                &&& final(self).keybindings@ == default_layout()
                &&& final(self).keys@ == old(self).keys@
                &&& logged(old(self).log@, final(self).log@, old(self).clock.tick, reset_message())
            },
            key.kc != KEYCODE_F12 ==> final(self).log == old(self).log,
            key.kc != KEYCODE_F12 && old(self).rebinding is Some ==> {
                &&& final(self).keybindings@ == rebound(
                    old(self).keybindings@,
                    key.kc,
                    old(self).rebinding->0,
                )
                &&& final(self).keys@ == old(self).keys@
            },
            key.kc != KEYCODE_F12 && old(self).rebinding is None ==> {
                &&& final(self).keybindings@ == old(self).keybindings@
                &&& final(self).keys@ == if old(self).keybindings@.contains_key(key.kc) {
                    press_spec(old(self).keys@, old(self).keybindings@[key.kc])
                } else {
                    old(self).keys@
                }
            },
    {
        if key.kc == KEYCODE_F12 {
            self.keybindings = default_keybindings();
            self.rebinding = None;
            self.write_log("Reset keybindings!");
            proof {
                reveal_strlit("Reset keybindings!");
            }
        } else if let Some(k) = self.rebinding {
            self.keybindings.insert(key, k);
            self.rebinding = None;
        } else if let Some(k) = self.keybindings.get_by_left(key) {
            self.keys.press(k);
        }
    }

    /// A key went up: a bound key releases its button.
    pub fn key_released(&mut self, key: Keycode)
        requires
            old(self).wf(),
        ensures
            final(self).wf(),
            final(self).clock == old(self).clock,
            final(self).rebinding == old(self).rebinding,
            final(self).keybindings == old(self).keybindings,
            final(self).screen == old(self).screen,
            final(self).render_framebuffer == old(self).render_framebuffer,
            final(self).log == old(self).log,
            final(self).keys@ == if old(self).keybindings@.contains_key(key.kc) {
                release_spec(old(self).keys@, old(self).keybindings@[key.kc])
            } else {
                old(self).keys@
            },
    {
        if let Some(k) = self.keybindings.get_by_left(key) {
            self.keys.release(k);
        }
    }

    /// The window lost focus: every button is released, so none stays stuck.
    pub fn focus_lost(&mut self)
        requires
            old(self).wf(),
        ensures
            final(self).wf(),
            final(self).keys@.held == Set::<Key>::empty(),
            final(self).keys@.new == old(self).keys@.new,
            final(self).clock == old(self).clock,
            final(self).rebinding == old(self).rebinding,
            final(self).keybindings == old(self).keybindings,
            final(self).screen == old(self).screen,
            final(self).render_framebuffer == old(self).render_framebuffer,
            final(self).log == old(self).log,
    {
        self.keys.release_all();
    }

    /// The key bound to button `k`.
    pub fn keybinding_for(&self, k: Key) -> (r: Option<Keycode>)
        requires
            self.wf(),
        ensures
            r matches Some(c) ==> self.keybindings@.contains_key(c.kc) && self.keybindings@[c.kc]
                == k,
            r is None ==> forall|c: i32| #[trigger]
                self.keybindings@.contains_key(c) ==> self.keybindings@[c] != k,
    {
        self.keybindings.get_by_right(k)
    }

    /// The next key pressed will be bound to `k`.
    pub fn rebind_key(&mut self, k: Key)
        ensures
            final(self).rebinding == Some(k),
            final(self).clock == old(self).clock,
            final(self).keybindings == old(self).keybindings,
            final(self).keys == old(self).keys,
            final(self).screen == old(self).screen,
            final(self).render_framebuffer == old(self).render_framebuffer,
            final(self).log == old(self).log,
    {
        self.rebinding = Some(k);
    }

    /// Polls the simulation clock at `now`; true when the game's update is
    /// to run once now.
    pub fn run_update(&mut self, now: u64) -> (r: bool)
        requires
            can_advance(old(self).clock, now),
        ensures
            (final(self).clock, r) == advance_spec(old(self).clock, now),
            final(self).rebinding == old(self).rebinding,
            final(self).keybindings == old(self).keybindings,
            final(self).keys == old(self).keys,
            final(self).screen == old(self).screen,
            final(self).render_framebuffer == old(self).render_framebuffer,
            final(self).log == old(self).log,
    {
        self.clock.advance(now)
    }
}

/// The log entry written when the bindings are reset.
pub open spec fn reset_message() -> Seq<char> {
    "Reset keybindings!"@
}

} // verus!
