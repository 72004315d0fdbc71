//! Logical buttons, their held and newly-pressed flags, and the rebindable
//! one-to-one mapping from physical key codes to buttons.

use vstd::prelude::*;
use bimap::BiHashMap;

verus! {

/// The logical buttons of the engine.
#[derive(Clone, Copy, Debug, PartialEq, Eq, Structural, Hash)]
pub enum Key {
    Up,
    Down,
    Left,
    Right,
    A,
    B,
    X,
    Y,
    L,
    R,
    Start,
    Select,
}

/// Number of logical buttons.
pub const KEY_COUNT: usize = 12;

/// The position of a button in the table of buttons.
pub open spec fn key_index(k: Key) -> int {
    match k {
        Key::Up => 0,
        Key::Down => 1,
        Key::Left => 2,
        Key::Right => 3,
        Key::A => 4,
        Key::B => 5,
        Key::X => 6,
        Key::Y => 7,
        Key::L => 8,
        Key::R => 9,
        Key::Start => 10,
        Key::Select => 11,
    }
}

/// The button at a position of the table of buttons.
pub open spec fn key_at(i: int) -> Key {
    if i == 0 {
        Key::Up
    } else if i == 1 {
        Key::Down
    } else if i == 2 {
        Key::Left
    } else if i == 3 {
        Key::Right
    } else if i == 4 {
        Key::A
    } else if i == 5 {
        Key::B
    } else if i == 6 {
        Key::X
    } else if i == 7 {
        Key::Y
    } else if i == 8 {
        Key::L
    } else if i == 9 {
        Key::R
    } else if i == 10 {
        Key::Start
    } else {
        Key::Select
    }
}

impl Key {
    pub fn index(&self) -> (r: usize)
        ensures
            r == key_index(*self),
            r < KEY_COUNT,
    {
        match self {
            Key::Up => 0,
            Key::Down => 1,
            Key::Left => 2,
            Key::Right => 3,
            Key::A => 4,
            Key::B => 5,
            Key::X => 6,
            Key::Y => 7,
            Key::L => 8,
            Key::R => 9,
            Key::Start => 10,
            Key::Select => 11,
        }
    }

    pub fn from_index(i: usize) -> (r: Key)
        requires
            i < KEY_COUNT,
        ensures
            r == key_at(i as int),
            key_index(r) == i,
    {
        if i == 0 {
            Key::Up
        } else if i == 1 {
            Key::Down
        } else if i == 2 {
            Key::Left
        } else if i == 3 {
            Key::Right
        } else if i == 4 {
            Key::A
        } else if i == 5 {
            Key::B
        } else if i == 6 {
            Key::X
        } else if i == 7 {
            Key::Y
        } else if i == 8 {
            Key::L
        } else if i == 9 {
            Key::R
        } else if i == 10 {
            Key::Start
        } else {
            Key::Select
        }
    }
}

proof fn lemma_key_at_index(k: Key)
    ensures
        key_at(key_index(k)) == k,
        0 <= key_index(k) < KEY_COUNT,
{
}

/// The held buttons and the buttons whose edge flag is set.
pub struct KeysView {
    pub held: Set<Key>,
    pub new: Set<Key>,
}

/// The button went down: held, and its edge flag set.
pub open spec fn press_spec(v: KeysView, k: Key) -> KeysView {
    KeysView { held: v.held.insert(k), new: v.new.insert(k) }
}

/// The button went up: no longer held; its edge flag stays.
pub open spec fn release_spec(v: KeysView, k: Key) -> KeysView {
    KeysView { held: v.held.remove(k), new: v.new }
}

/// Reading the edge flag of a button clears it.
pub open spec fn consume_spec(v: KeysView, k: Key) -> (KeysView, bool) {
    (KeysView { held: v.held, new: v.new.remove(k) }, v.new.contains(k))
}

/// The held and newly-pressed flag of every logical button.
pub struct Keys {
    pressed: Vec<bool>,
    new: Vec<bool>,
}

impl View for Keys {
    type V = KeysView;

    closed spec fn view(&self) -> KeysView {
        KeysView {
            held: Set::new(|k: Key| self.pressed@[key_index(k)]),
            new: Set::new(|k: Key| self.new@[key_index(k)]),
        }
    }
}

impl Keys {
    pub closed spec fn wf(&self) -> bool {
        self.pressed@.len() == KEY_COUNT && self.new@.len() == KEY_COUNT
    }

    /// No button held, no edge flag set.
    pub fn new() -> (r: Keys)
        ensures
            r.wf(),
            r@.held == Set::<Key>::empty(),
            r@.new == Set::<Key>::empty(),
    {
        let mut pressed: Vec<bool> = Vec::new();
        let mut new: Vec<bool> = Vec::new();
        let mut i: usize = 0;
        while i < KEY_COUNT
            invariant
                i <= KEY_COUNT,
                pressed@.len() == i,
                new@.len() == i,
                forall|j: int| 0 <= j < i ==> !pressed@[j] && !new@[j],
            decreases KEY_COUNT - i,
        {
            pressed.push(false);
            new.push(false);
            i = i + 1;
        }
        let r = Keys { pressed, new };
        proof {
            assert forall|k: Key| !r@.held.contains(k) && !r@.new.contains(k) by {
                lemma_key_at_index(k);
            }
            assert(r@.held =~= Set::<Key>::empty());
            assert(r@.new =~= Set::<Key>::empty());
        }
        r
    }

    /// Whether the button is held.
    pub fn held(&self, k: Key) -> (r: bool)
        requires
            self.wf(),
        ensures
            r == self@.held.contains(k),
    {
        self.pressed[k.index()]
    }

    /// Returns the edge flag of the button and clears it: true once per
    /// press, whether or not the button is still held.
    pub fn consume_new(&mut self, k: Key) -> (r: bool)
        requires
            old(self).wf(),
        ensures
            final(self).wf(),
            (final(self)@, r) == consume_spec(old(self)@, k),
    {
        let i = k.index();
        let ret = self.new[i];
        self.new.set(i, false);
        proof {
            assert forall|o: Key| #[trigger] self@.new.contains(o) == old(self)@.new.remove(
                k,
            ).contains(o) by {
                lemma_key_at_index(o);
                lemma_key_at_index(k);
                lemma_key_at_positions(key_index(o), key_index(k));
            }
            assert(self@.new =~= old(self)@.new.remove(k));
            assert(self@.held =~= old(self)@.held);
        }
        ret
    }

    /// The button went down: held, and its edge flag set.
    pub fn press(&mut self, k: Key)
        requires
            old(self).wf(),
        ensures
            final(self).wf(),
            final(self)@ == press_spec(old(self)@, k),
    {
        let i = k.index();
        self.pressed.set(i, true);
        self.new.set(i, true);
        proof {
            assert forall|o: Key| #[trigger] self@.held.contains(o) == old(self)@.held.insert(
                k,
            ).contains(o) && self@.new.contains(o) == old(self)@.new.insert(k).contains(o) by {
                lemma_key_at_index(o);
                lemma_key_at_index(k);
                lemma_key_at_positions(key_index(o), key_index(k));
            }
            assert(self@.held =~= old(self)@.held.insert(k));
            assert(self@.new =~= old(self)@.new.insert(k));
        }
    }

    /// The button went up: no longer held; its edge flag stays.
    pub fn release(&mut self, k: Key)
        requires
            old(self).wf(),
        ensures
            final(self).wf(),
            final(self)@ == release_spec(old(self)@, k),
    {
        let i = k.index();
        self.pressed.set(i, false);
        proof {
            assert forall|o: Key| #[trigger] self@.held.contains(o) == old(self)@.held.remove(
                k,
            ).contains(o) by {
                lemma_key_at_index(o);
                lemma_key_at_index(k);
                lemma_key_at_positions(key_index(o), key_index(k));
            }
            assert(self@.held =~= old(self)@.held.remove(k));
            assert(self@.new =~= old(self)@.new);
        }
    }

    /// Releases every button, as when the window loses focus; edge flags
    /// stay, since they stand for presses that already happened.
    pub fn release_all(&mut self)
        requires
            old(self).wf(),
        ensures
            final(self).wf(),
            final(self)@.held == Set::<Key>::empty(),
            final(self)@.new == old(self)@.new,
    {
        let mut i: usize = 0;
        while i < KEY_COUNT
            invariant
                i <= KEY_COUNT,
                self.pressed@.len() == KEY_COUNT,
                self.new@ == old(self).new@,
                forall|j: int| 0 <= j < i ==> !self.pressed@[j],
            decreases KEY_COUNT - i,
        {
            self.pressed.set(i, false);
            i = i + 1;
        }
        proof {
            assert forall|o: Key| !#[trigger] self@.held.contains(o) by {
                lemma_key_at_index(o);
            }
            assert(self@.held =~= Set::<Key>::empty());
            assert(self@.new =~= old(self)@.new);
        }
    }

    pub fn up(&self) -> (r: bool)
        requires
            self.wf(),
        ensures
            r == self@.held.contains(Key::Up),
    {
        self.held(Key::Up)
    }

    pub fn down(&self) -> (r: bool)
        requires
            self.wf(),
        ensures
            r == self@.held.contains(Key::Down),
    {
        self.held(Key::Down)
    }

    pub fn left(&self) -> (r: bool)
        requires
            self.wf(),
        ensures
            r == self@.held.contains(Key::Left),
    {
        self.held(Key::Left)
    }

    pub fn right(&self) -> (r: bool)
        requires
            self.wf(),
        ensures
            r == self@.held.contains(Key::Right),
    {
        self.held(Key::Right)
    }

    pub fn a(&self) -> (r: bool)
        requires
            self.wf(),
        ensures
            r == self@.held.contains(Key::A),
    {
        self.held(Key::A)
    }

    pub fn b(&self) -> (r: bool)
        requires
            self.wf(),
        ensures
            r == self@.held.contains(Key::B),
    {
        self.held(Key::B)
    }

    pub fn x(&self) -> (r: bool)
        requires
            self.wf(),
        ensures
            r == self@.held.contains(Key::X),
    {
        self.held(Key::X)
    }

    pub fn y(&self) -> (r: bool)
        requires
            self.wf(),
        ensures
            r == self@.held.contains(Key::Y),
    {
        self.held(Key::Y)
    }

    pub fn l(&self) -> (r: bool)
        requires
            self.wf(),
        ensures
            r == self@.held.contains(Key::L),
    {
        self.held(Key::L)
    }

    pub fn r(&self) -> (r: bool)
        requires
            self.wf(),
        ensures
            r == self@.held.contains(Key::R),
    {
        self.held(Key::R)
    }

    pub fn start(&self) -> (r: bool)
        requires
            self.wf(),
        ensures
            r == self@.held.contains(Key::Start),
    {
        self.held(Key::Start)
    }

    pub fn select(&self) -> (r: bool)
        requires
            self.wf(),
        ensures
            r == self@.held.contains(Key::Select),
    {
        self.held(Key::Select)
    }
    pub fn new_up(&mut self) -> (r: bool)
        requires
            old(self).wf(),
        ensures
            final(self).wf(),
            (final(self)@, r) == consume_spec(old(self)@, Key::Up),
    {
        self.consume_new(Key::Up)
    }


    pub fn new_down(&mut self) -> (r: bool)
        requires
            old(self).wf(),
        ensures
            final(self).wf(),
            (final(self)@, r) == consume_spec(old(self)@, Key::Down),
    {
        self.consume_new(Key::Down)
    }


    pub fn new_left(&mut self) -> (r: bool)
        requires
            old(self).wf(),
        ensures
            final(self).wf(),
            (final(self)@, r) == consume_spec(old(self)@, Key::Left),
    {
        self.consume_new(Key::Left)
    }


    pub fn new_right(&mut self) -> (r: bool)
        requires
            old(self).wf(),
        ensures
            final(self).wf(),
            (final(self)@, r) == consume_spec(old(self)@, Key::Right),
    {
        self.consume_new(Key::Right)
    }


    pub fn new_a(&mut self) -> (r: bool)
        requires
            old(self).wf(),
        ensures
            final(self).wf(),
            (final(self)@, r) == consume_spec(old(self)@, Key::A),
    {
        self.consume_new(Key::A)
    }


    pub fn new_b(&mut self) -> (r: bool)
        requires
            old(self).wf(),
        ensures
            final(self).wf(),
            (final(self)@, r) == consume_spec(old(self)@, Key::B),
    {
        self.consume_new(Key::B)
    }


    pub fn new_x(&mut self) -> (r: bool)
        requires
            old(self).wf(),
        ensures
            final(self).wf(),
            (final(self)@, r) == consume_spec(old(self)@, Key::X),
    {
        self.consume_new(Key::X)
    }


    pub fn new_y(&mut self) -> (r: bool)
        requires
            old(self).wf(),
        ensures
            final(self).wf(),
            (final(self)@, r) == consume_spec(old(self)@, Key::Y),
    {
        self.consume_new(Key::Y)
    }


    pub fn new_l(&mut self) -> (r: bool)
        requires
            old(self).wf(),
        ensures
            final(self).wf(),
            (final(self)@, r) == consume_spec(old(self)@, Key::L),
    {
        self.consume_new(Key::L)
    }


    pub fn new_r(&mut self) -> (r: bool)
        requires
            old(self).wf(),
        ensures
            final(self).wf(),
            (final(self)@, r) == consume_spec(old(self)@, Key::R),
    {
        self.consume_new(Key::R)
    }


    pub fn new_start(&mut self) -> (r: bool)
        requires
            old(self).wf(),
        ensures
            final(self).wf(),
            (final(self)@, r) == consume_spec(old(self)@, Key::Start),
    {
        self.consume_new(Key::Start)
    }


    pub fn new_select(&mut self) -> (r: bool)
        requires
            old(self).wf(),
        ensures
            final(self).wf(),
            (final(self)@, r) == consume_spec(old(self)@, Key::Select),
    {
        self.consume_new(Key::Select)
    }
}

/// Relies on bimap's `BiHashMap`: a one-to-one map kept as two hash maps.
#[verifier::external_type_specification]
#[verifier::external_body]
#[verifier::reject_recursive_types(L)]
#[verifier::reject_recursive_types(R)]
#[verifier::reject_recursive_types(LS)]
#[verifier::reject_recursive_types(RS)]
pub struct ExBiHashMap<L, R, LS, RS>(BiHashMap<L, R, LS, RS>);

/// A bimap from key codes to button positions.
pub type CodeMap = BiHashMap<i32, u8>;

/// The left-to-right pairs of a bimap from key codes to button positions.
pub uninterp spec fn bindings_of(m: CodeMap) -> Map<i32, u8>;

/// `m` with `left` paired to `right`: the pair that held `left` and the pair
/// that held `right` are gone.
pub open spec fn rebound<V>(m: Map<i32, V>, left: i32, right: V) -> Map<i32, V> {
    Map::new(
        |c: i32| c == left || (m.contains_key(c) && m[c] != right),
        |c: i32|
            if c == left {
                right
            } else {
                m[c]
            },
    )
}

/// No two keys share a value.
pub open spec fn one_to_one<V>(m: Map<i32, V>) -> bool {
    forall|a: i32, b: i32|
        #![trigger m[a], m[b]]
        m.contains_key(a) && m.contains_key(b) && a != b ==> m[a] != m[b]
}

/// Relies on `BiHashMap::new`: an empty bimap.
#[verifier::external_body]
fn bimap_new() -> (r: CodeMap)
    ensures
        bindings_of(r).dom().is_empty(),
{
    BiHashMap::new()
}

/// Relies on `BiHashMap::insert`: it removes the pair whose left value is
/// `left` and the pair whose right value is `right`, then inserts the pair.
#[verifier::external_body]
fn bimap_insert(m: &mut CodeMap, left: i32, right: u8)
    ensures
        bindings_of(*final(m)) == rebound(bindings_of(*old(m)), left, right),
{
    m.insert(left, right);
}

/// Relies on `BiHashMap::get_by_left`: the right value paired with `left`.
#[verifier::external_body]
fn bimap_get_by_left(m: &CodeMap, left: i32) -> (r: Option<u8>)
    ensures
        r == (if bindings_of(*m).contains_key(left) {
            Some(bindings_of(*m)[left])
        } else {
            None
        }),
{
    m.get_by_left(&left).copied()
}

/// Relies on `BiHashMap::get_by_right`: the left value paired with `right`.
#[verifier::external_body]
fn bimap_get_by_right(m: &CodeMap, right: u8) -> (r: Option<i32>)
    ensures
        r matches Some(c) ==> bindings_of(*m).contains_key(c) && bindings_of(*m)[c] == right,
        r is None ==> forall|c: i32| #[trigger]
            bindings_of(*m).contains_key(c) ==> bindings_of(*m)[c] != right,
{
    m.get_by_right(&right).copied()
}

/// A physical key, by its platform key code.
#[derive(Clone, Copy, Debug, PartialEq, Eq, Structural, Hash)]
pub struct Keycode {
    pub kc: i32,
}

impl Keycode {
    pub fn new(kc: i32) -> (r: Keycode)
        ensures
            r.kc == kc,
    {
        Keycode { kc }
    }
}

/// Platform key codes of the default layout.
pub const KEYCODE_SPACE: i32 = 32;
pub const KEYCODE_1: i32 = 49;
pub const KEYCODE_2: i32 = 50;
pub const KEYCODE_3: i32 = 51;
pub const KEYCODE_4: i32 = 52;
pub const KEYCODE_A: i32 = 65;
pub const KEYCODE_D: i32 = 68;
pub const KEYCODE_E: i32 = 69;
pub const KEYCODE_Q: i32 = 81;
pub const KEYCODE_S: i32 = 83;
pub const KEYCODE_W: i32 = 87;
pub const KEYCODE_TAB: i32 = 258;

/// The key that restores the default bindings.
pub const KEYCODE_F12: i32 = 301;

/// The one-to-one mapping from physical key codes to logical buttons.
pub struct Keybindings {
    map: CodeMap,
}

impl View for Keybindings {
    type V = Map<i32, Key>;

    closed spec fn view(&self) -> Map<i32, Key> {
        Map::new(
            |c: i32| bindings_of(self.map).contains_key(c),
            |c: i32| key_at(bindings_of(self.map)[c] as int),
        )
    }
}

impl Keybindings {
    pub closed spec fn wf(&self) -> bool {
        &&& one_to_one(bindings_of(self.map))
        &&& forall|c: i32| #[trigger]
            bindings_of(self.map).contains_key(c) ==> bindings_of(self.map)[c] < KEY_COUNT
    }

    /// No key bound.
    pub fn new() -> (r: Keybindings)
        ensures
            r.wf(),
            r@ == Map::<i32, Key>::empty(),
    {
        let r = Keybindings { map: bimap_new() };
        assert(r@ =~= Map::<i32, Key>::empty());
        r
    }

    /// Binds `code` to `key`, dropping whatever either was bound to before.
    pub fn insert(&mut self, code: Keycode, key: Key)
        requires
            old(self).wf(),
        ensures
            final(self).wf(),
            final(self)@ == rebound(old(self)@, code.kc, key),
            one_to_one(final(self)@),
    {
        let ghost before = bindings_of(self.map);
        let i = key.index();
        bimap_insert(&mut self.map, code.kc, i as u8);
        proof {
            let after = bindings_of(self.map);
            assert forall|a: i32, b: i32|
                #![trigger after[a], after[b]]
                after.contains_key(a) && after.contains_key(b) && a != b implies after[a]
                != after[b] by {
                if a != code.kc && b != code.kc {
                    assert(before[a] != before[b]);
                }
            }
            lemma_key_at_index(key);
            assert forall|c: i32| #[trigger] self@.contains_key(c) implies rebound(
                old(self)@,
                code.kc,
                key,
            ).contains_key(c) by {
                if c != code.kc {
                    assert(before[c] != i as u8);
                    assert(key_at(before[c] as int) != key) by {
                        lemma_key_at_index(key);
                        lemma_key_at_positions(before[c] as int, i as int);
                    }
                }
            }
            assert forall|c: i32| #[trigger] rebound(old(self)@, code.kc, key).contains_key(
                c,
            ) implies self@.contains_key(c) by {
                if c != code.kc {
                    assert(before[c] != i as u8);
                }
            }
            assert(self@ =~= rebound(old(self)@, code.kc, key));
            assert forall|a: i32, b: i32|
                #![trigger self@[a], self@[b]]
                self@.contains_key(a) && self@.contains_key(b) && a != b implies self@[a]
                != self@[b] by {
                assert(after[a] != after[b]);
                lemma_key_at_positions(after[a] as int, after[b] as int);
            }
        }
    }

    /// The button that `code` is bound to.
    pub fn get_by_left(&self, code: Keycode) -> (r: Option<Key>)
        requires
            self.wf(),
        ensures
            r == (if self@.contains_key(code.kc) {
                Some(self@[code.kc])
            } else {
                None
            }),
    {
        match bimap_get_by_left(&self.map, code.kc) {
            Some(i) => Some(Key::from_index(i as usize)),
            None => None,
        }
    }

    /// The key code bound to `key`.
    pub fn get_by_right(&self, key: Key) -> (r: Option<Keycode>)
        requires
            self.wf(),
        ensures
            match r {
                Some(c) => self@.contains_key(c.kc) && self@[c.kc] == key,
                None => forall|c: i32| #[trigger] self@.contains_key(c) ==> self@[c] != key,
            },
    {
        proof {
            lemma_key_at_index(key);
        }
        let i = key.index();
        match bimap_get_by_right(&self.map, i as u8) {
            Some(c) => Some(Keycode { kc: c }),
            None => {
                proof {
                    assert forall|c: i32| #[trigger] self@.contains_key(c) implies self@[c]
                        != key by {
                        lemma_key_at_positions(bindings_of(self.map)[c] as int, i as int);
                    }
                }
                None
            },
        }
    }
}

/// Edge flags are consumed once: after a press, reading the flag gives true
/// and then false, even with the button still held; a release and a new
/// press give true exactly once more.
pub proof fn lemma_edge_flag_consumed_once(v: KeysView, k: Key)
    ensures
        ({
            let (after_first, first) = consume_spec(press_spec(v, k), k);
            let (after_second, second) = consume_spec(after_first, k);
            let again = press_spec(release_spec(after_second, k), k);
            let (after_third, third) = consume_spec(again, k);
            let (_, fourth) = consume_spec(after_third, k);
            &&& first
            &&& !second
            &&& third
            &&& !fourth
        }),
{
}

/// Rebinding keeps the mapping one-to-one: the key now names the button,
/// no other key names it, and the button the key named before is left with
/// no key unless it is the same button.
pub proof fn lemma_rebinding_one_to_one(m: Map<i32, Key>, code: i32, key: Key)
    requires
        one_to_one(m),
    ensures
        rebound(m, code, key).contains_key(code),
        rebound(m, code, key)[code] == key,
        one_to_one(rebound(m, code, key)),
        forall|c: i32| c != code && #[trigger] rebound(m, code, key).contains_key(c) ==> rebound(
            m,
            code,
            key,
        )[c] != key,
        m.contains_key(code) && m[code] != key ==> forall|c: i32| #[trigger]
            rebound(m, code, key).contains_key(c) ==> rebound(m, code, key)[c] != m[code],
{
    let r = rebound(m, code, key);
    assert forall|a: i32, b: i32|
        #![trigger r[a], r[b]]
        r.contains_key(a) && r.contains_key(b) && a != b implies r[a] != r[b] by {
        if a != code && b != code {
            assert(m[a] != m[b]);
        }
    }
    if m.contains_key(code) && m[code] != key {
        assert forall|c: i32| #[trigger] r.contains_key(c) implies r[c] != m[code] by {
            if c != code {
                assert(m[c] != m[code]);
            }
        }
    }
}

proof fn lemma_key_at_positions(i: int, j: int)
    requires
        0 <= i < KEY_COUNT,
        0 <= j < KEY_COUNT,
    ensures
        (key_at(i) == key_at(j)) == (i == j),
        key_index(key_at(i)) == i,
{
}

/// The engine's default layout.
pub open spec fn default_layout() -> Map<i32, Key> {
    map![
        KEYCODE_W => Key::Up,
        KEYCODE_S => Key::Down,
        KEYCODE_A => Key::Left,
        KEYCODE_D => Key::Right,
        KEYCODE_1 => Key::A,
        KEYCODE_2 => Key::B,
        KEYCODE_3 => Key::X,
        KEYCODE_4 => Key::Y,
        KEYCODE_Q => Key::L,
        KEYCODE_E => Key::R,
        KEYCODE_TAB => Key::Start,
        KEYCODE_SPACE => Key::Select,
    ]
}

/// The default bindings: WASD for the directions, 1 to 4 for A, B, X, Y,
/// Q and E for the shoulders, Tab for start and Space for select.
pub fn default_keybindings() -> (r: Keybindings)
    ensures
        r.wf(),
        r@ == default_layout(),
{
    let mut b = Keybindings::new();
    b.insert(Keycode::new(KEYCODE_W), Key::Up);
    b.insert(Keycode::new(KEYCODE_S), Key::Down);
    b.insert(Keycode::new(KEYCODE_A), Key::Left);
    b.insert(Keycode::new(KEYCODE_D), Key::Right);
    b.insert(Keycode::new(KEYCODE_1), Key::A);
    b.insert(Keycode::new(KEYCODE_2), Key::B);
    b.insert(Keycode::new(KEYCODE_3), Key::X);
    b.insert(Keycode::new(KEYCODE_4), Key::Y);
    b.insert(Keycode::new(KEYCODE_Q), Key::L);
    b.insert(Keycode::new(KEYCODE_E), Key::R);
    b.insert(Keycode::new(KEYCODE_TAB), Key::Start);
    b.insert(Keycode::new(KEYCODE_SPACE), Key::Select);
    assert(b@ =~= default_layout());
    b
}

} // verus!
