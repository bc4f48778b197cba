//! The input state the main thread keeps for the game: which keys are
//! held down, and how mouse buttons are numbered for Lua.
use vstd::prelude::*;

verus! {

/// The keys held down, in the order of their presses; a key pressed twice
/// (a repeated press) is there twice until it is released.
pub struct PressedKeys {
    keys: Vec<String>,
}

impl View for PressedKeys {
    type V = Seq<Seq<char>>;

    closed spec fn view(&self) -> Seq<Seq<char>> {
        self.keys@.map_values(|k: String| k@)
    }
}

impl PressedKeys {
    /// No key held down.
    pub fn new() -> (keys: Self)
        ensures
            keys@ == Seq::<Seq<char>>::empty(),
    {
        let keys = PressedKeys { keys: Vec::new() };
        assert(keys@ =~= Seq::<Seq<char>>::empty());
        keys
    }

    /// Records a press of `key`.
    pub fn press(&mut self, key: String)
        ensures
            final(self)@ == old(self)@.push(key@),
    {
        self.keys.push(key);
        assert(self@ =~= old(self)@.push(key@));
    }

    /// Records the release of `key`: every record of it goes.
    pub fn release(&mut self, key: &String)
        ensures
            final(self)@ == old(self)@.filter(|k: Seq<char>| k != key@),
    {
        let ghost pred = |k: Seq<char>| k != key@;
        let ghost before = self@;
        let n = self.keys.len();
        let mut kept: Vec<String> = Vec::new();
        let mut i: usize = 0;
        assert(before.take(0) =~= Seq::<Seq<char>>::empty());
        while i < n
            invariant
                n == self.keys@.len(),
                before == self@,
                pred == (|k: Seq<char>| k != key@),
                i <= n,
                kept@.map_values(|k: String| k@) == before.take(i as int).filter(pred),
            decreases n - i,
        {
            let ghost kept_before = kept@.map_values(|k: String| k@);
            proof {
                reveal_with_fuel(Seq::filter, 1);
            }
            if !(self.keys[i] == *key) {
                kept.push(self.keys[i].clone());
                assert(kept@.map_values(|k: String| k@) =~= kept_before.push(before[i as int]));
            } else {
                assert(kept@.map_values(|k: String| k@) =~= kept_before);
            }
            proof {
                let t = before.take(i + 1);
                assert(t.drop_last() =~= before.take(i as int));
                assert(t.last() == before[i as int]);
                assert(before[i as int] == self.keys@[i as int]@);
                assert(t.filter(pred) == if pred(t.last()) {
                    t.drop_last().filter(pred).push(t.last())
                } else {
                    t.drop_last().filter(pred)
                });
            }
            i = i + 1;
        }
        assert(before.take(n as int) =~= before);
        self.keys = kept;
    }

    /// Whether `key` is held down.
    pub fn is_pressed(&self, key: &String) -> (pressed: bool)
        ensures
            pressed == self@.contains(key@),
    {
        let n = self.keys.len();
        let mut i: usize = 0;
        while i < n
            invariant
                n == self.keys@.len(),
                i <= n,
                forall|j: int| 0 <= j < i ==> self@[j] != key@,
            decreases n - i,
        {
            if self.keys[i] == *key {
                assert(self@[i as int] == key@);
                return true;
            }
            i = i + 1;
        }
        false
    }
}

/// Law: a key just pressed is held down, and pressing it changes nothing
/// for any other key.
pub proof fn law_press_then_pressed(keys: Seq<Seq<char>>, key: Seq<char>, other: Seq<char>)
    requires
        other != key,
    ensures
        keys.push(key).contains(key),
        keys.push(key).contains(other) == keys.contains(other),
{
    assert(keys.push(key)[keys.len() as int] == key);
    if keys.push(key).contains(other) {
        let i = choose|i: int| 0 <= i < keys.push(key).len() && keys.push(key)[i] == other;
        assert(keys[i] == other);
    }
    if keys.contains(other) {
        let i = choose|i: int| 0 <= i < keys.len() && keys[i] == other;
        assert(keys.push(key)[i] == other);
    }
}

/// Law: a key just released is no longer held down, however often it was
/// pressed, and releasing it changes nothing for any other key.
pub proof fn law_release_then_not_pressed(keys: Seq<Seq<char>>, key: Seq<char>, other: Seq<char>)
    requires
        other != key,
    ensures
        !keys.filter(|k: Seq<char>| k != key).contains(key),
        keys.filter(|k: Seq<char>| k != key).contains(other) == keys.contains(other),
{
    let pred = |k: Seq<char>| k != key;
    broadcast use vstd::seq_lib::group_filter_ensures;

    if keys.filter(pred).contains(key) {
        let i = choose|i: int| 0 <= i < keys.filter(pred).len() && keys.filter(pred)[i] == key;
        assert(pred(keys.filter(pred)[i]));
    }
    if keys.filter(pred).contains(other) {
        keys.lemma_filter_contains_rev(pred, other);
    }
    if keys.contains(other) {
        let i = choose|i: int| 0 <= i < keys.len() && keys[i] == other;
        keys.lemma_filter_contains(pred, i);
    }
}

/// The keys held after the key events `events`, each a key and whether it
/// went down (`true`) or came up (`false`), starting with `keys` held: a
/// press records the key once more, a release drops every record of it,
/// as `press` and `release` do.
pub open spec fn after_events(keys: Seq<Seq<char>>, events: Seq<(Seq<char>, bool)>) -> Seq<Seq<char>>
    decreases events.len(),
{
    if events.len() == 0 {
        keys
    } else {
        let held = after_events(keys, events.drop_last());
        let e = events.last();
        if e.1 {
            held.push(e.0)
        } else {
            held.filter(|k: Seq<char>| k != e.0)
        }
    }
}

/// Whether the last of the events `events` that concerns `key` is a press.
pub open spec fn last_event_is_press(events: Seq<(Seq<char>, bool)>, key: Seq<char>) -> bool {
    exists|i: int|
        0 <= i < events.len() && #[trigger] events[i] == (key, true) && forall|j: int|
            i < j < events.len() ==> #[trigger] events[j].0 != key
}

/// Law: after any run of presses and releases, from no key held, a key is
/// held down exactly when the last event that concerns it was a press;
/// events for other keys in between change nothing for it.
pub proof fn law_held_iff_last_event_pressed(events: Seq<(Seq<char>, bool)>, key: Seq<char>)
    ensures
        after_events(seq![], events).contains(key) == last_event_is_press(events, key),
    decreases events.len(),
{
    if events.len() > 0 {
        let prev = events.drop_last();
        let n = events.len() - 1;
        let e = events[n];
        let held = after_events(seq![], prev);
        law_held_iff_last_event_pressed(prev, key);
        if e.0 == key {
            if e.1 {
                assert(held.push(key)[held.len() as int] == key);
                assert(events[n] == (key, true));
                assert(forall|j: int| n < j < events.len() ==> #[trigger] events[j].0 != key);
                assert(last_event_is_press(events, key));
            } else {
                let pred = |k: Seq<char>| k != key;
                broadcast use vstd::seq_lib::group_filter_ensures;

                assert(pred =~= (|k: Seq<char>| k != e.0));
                assert(after_events(seq![], events) == held.filter(pred));
                if held.filter(pred).contains(key) {
                    let i = choose|i: int|
                        0 <= i < held.filter(pred).len() && held.filter(pred)[i] == key;
                    assert(pred(held.filter(pred)[i]));
                }
                if last_event_is_press(events, key) {
                    let i = choose|i: int|
                        0 <= i < events.len() && #[trigger] events[i] == (key, true) && forall|j: int|
                            i < j < events.len() ==> #[trigger] events[j].0 != key;
                    assert(events[n].0 == key);
                }
            }
        } else {
            if e.1 {
                law_press_then_pressed(held, e.0, key);
            } else {
                let pred = |k: Seq<char>| k != e.0;
                broadcast use vstd::seq_lib::group_filter_ensures;

                assert(pred =~= (|k: Seq<char>| k != e.0));
                assert(after_events(seq![], events) == held.filter(pred));
                if held.filter(pred).contains(key) {
                    held.lemma_filter_contains_rev(pred, key);
                }
                if held.contains(key) {
                    let i = choose|i: int| 0 <= i < held.len() && held[i] == key;
                    held.lemma_filter_contains(pred, i);
                }
            }
            assert(after_events(seq![], events).contains(key) == held.contains(key));
            if last_event_is_press(events, key) {
                let i = choose|i: int|
                    0 <= i < events.len() && #[trigger] events[i] == (key, true) && forall|j: int|
                        i < j < events.len() ==> #[trigger] events[j].0 != key;
                assert(events[n].0 != key);
                assert(prev[i] == (key, true));
                assert forall|j: int| i < j < prev.len() implies #[trigger] prev[j].0 != key by {
                    assert(prev[j] == events[j]);
                }
            }
            if last_event_is_press(prev, key) {
                let i = choose|i: int|
                    0 <= i < prev.len() && #[trigger] prev[i] == (key, true) && forall|j: int|
                        i < j < prev.len() ==> #[trigger] prev[j].0 != key;
                assert(events[i] == (key, true));
                assert forall|j: int| i < j < events.len() implies #[trigger] events[j].0 != key by {
                    if j < n {
                        assert(events[j] == prev[j]);
                    }
                }
                assert(last_event_is_press(events, key));
            }
        }
    }
}

/// A mouse button as the windowing system reports it.
pub enum MouseButtonKind {
    Left,
    Right,
    Middle,
    Back,
    Forward,
    Other(u16),
}

/// The number a mouse button has in the Lua callbacks: 1 to 5 for left,
/// right, middle, back and forward, and 6 plus its own number for any other.
pub open spec fn button_number(button: MouseButtonKind) -> int {
    match button {
        MouseButtonKind::Left => 1,
        MouseButtonKind::Right => 2,
        MouseButtonKind::Middle => 3,
        MouseButtonKind::Back => 4,
        MouseButtonKind::Forward => 5,
        MouseButtonKind::Other(n) => 6 + n,
    }
}

/// The number of a mouse button in the Lua callbacks. The sum `6 + n` is
/// taken in 16 bits, so an other button's own number must leave room for it.
pub fn mouse_button_code(button: MouseButtonKind) -> (code: u32)
    requires
        button matches MouseButtonKind::Other(n) ==> n <= u16::MAX - 6,
    ensures
        code == button_number(button),
{
    match button {
        MouseButtonKind::Left => 1,
        MouseButtonKind::Right => 2,
        MouseButtonKind::Middle => 3,
        MouseButtonKind::Back => 4,
        MouseButtonKind::Forward => 5,
        MouseButtonKind::Other(num) => (6 + num) as u32,
    }
}

/// Law: each mouse button has its own number: left, right, middle, back
/// and forward are 1 to 5, and another button is 6 plus its own number,
/// so two different buttons never share a number.
pub proof fn law_button_numbers(a: MouseButtonKind, b: MouseButtonKind, n: u16)
    ensures
        button_number(MouseButtonKind::Other(n)) == 6 + n,
        button_number(MouseButtonKind::Left) == 1,
        button_number(MouseButtonKind::Right) == 2,
        button_number(MouseButtonKind::Middle) == 3,
        button_number(MouseButtonKind::Back) == 4,
        button_number(MouseButtonKind::Forward) == 5,
        a != b ==> button_number(a) != button_number(b),
{
}

} // verus!
