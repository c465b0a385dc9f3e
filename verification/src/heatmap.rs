//! The heatmap: every key is shown the warmer the more often it was pressed,
//! measured against the key that was pressed most.

use vstd::prelude::*;
use crate::color::{Color, Command, CommandView, KeyColor, commands_view};
use crate::gradient::{gradient, interpolate, spec_interpolate, STEPS};
use crate::keys::{Key, KeyEvent};

verus! {

/// Whether presses of the key are counted: the key has a light of its own
/// and is no logo.
pub open spec fn trackable(key: Key) -> bool {
    !(key is Media) && !(key is Logo)
}

/// The keys of `universe` whose presses are counted, each once, in the
/// order in which they first come.
pub open spec fn spec_counted_keys(universe: Seq<Key>) -> Seq<Key>
    decreases universe.len(),
{
    if universe.len() == 0 {
        Seq::empty()
    } else {
        let before = spec_counted_keys(universe.drop_last());
        let key = universe.last();
        if trackable(key) && !before.contains(key) {
            before.push(key)
        } else {
            before
        }
    }
}

/// The keys whose presses are counted are the keys of `universe` that are
/// neither media keys nor logos, and none comes twice.
pub proof fn lemma_counted_keys(universe: Seq<Key>)
    ensures
        spec_counted_keys(universe).no_duplicates(),
        forall|key: Key|
            #[trigger] spec_counted_keys(universe).contains(key) <==> universe.contains(key)
                && trackable(key),
    decreases universe.len(),
{
    if universe.len() > 0 {
        let front = universe.drop_last();
        let before = spec_counted_keys(front);
        let last = universe.last();
        lemma_counted_keys(front);
        assert forall|key: Key|
            #[trigger] spec_counted_keys(universe).contains(key) <==> universe.contains(key)
                && trackable(key) by {
            vstd::seq_lib::lemma_seq_contains_after_push(before, last, key);
            if universe.contains(key) {
                let i = choose|i: int| 0 <= i < universe.len() && universe[i] == key;
                if i < front.len() {
                    assert(front[i] == key);
                }
            }
            if front.contains(key) {
                let i = choose|i: int| 0 <= i < front.len() && front[i] == key;
                assert(universe[i] == key);
            }
            if key == last {
                assert(universe[universe.len() - 1] == key);
            }
        }
        if trackable(last) && !before.contains(last) {
            let after = before.push(last);
            assert forall|i: int, j: int|
                0 <= i < after.len() && 0 <= j < after.len() && i != j implies after[i]
                != after[j] by {
                if i < before.len() {
                    assert(before[i] == after[i]);
                }
                if j < before.len() {
                    assert(before[j] == after[j]);
                }
            }
        }
    }
}

/// The logo lights among `universe`, in order.
pub open spec fn spec_logos(universe: Seq<Key>) -> Seq<Key> {
    universe.filter(|k: Key| k is Logo)
}

/// Whether `key` has a counter among `counters`.
pub open spec fn tracks(counters: Seq<(Key, u64)>, key: Key) -> bool {
    exists|i: int| 0 <= i < counters.len() && (#[trigger] counters[i]).0 == key
}

/// Whether no key has two counters.
pub open spec fn distinct_keys(counters: Seq<(Key, u64)>) -> bool {
    forall|i: int, j: int|
        0 <= i < counters.len() && 0 <= j < counters.len() && i != j ==> (#[trigger] counters[i]).0
            != (#[trigger] counters[j]).0
}

/// What holds of the counters of every heatmap: no key has two counters,
/// and every key that has one is counted.
pub open spec fn counters_ok(counters: Seq<(Key, u64)>) -> bool {
    &&& distinct_keys(counters)
    &&& forall|i: int| 0 <= i < counters.len() ==> trackable((#[trigger] counters[i]).0)
}

/// The counters after one more press of `key`: the counter of `key` is one
/// higher, all else is as it was.
pub open spec fn spec_pressed(counters: Seq<(Key, u64)>, key: Key) -> Seq<(Key, u64)> {
    Seq::new(
        counters.len(),
        |i: int|
            if counters[i].0 == key {
                (key, (counters[i].1 + 1) as u64)
            } else {
                counters[i]
            },
    )
}

/// The counters after `times` more presses of `key`.
pub open spec fn spec_pressed_often(counters: Seq<(Key, u64)>, key: Key, times: nat) -> Seq<
    (Key, u64),
>
    decreases times,
{
    if times == 0 {
        counters
    } else {
        spec_pressed(spec_pressed_often(counters, key, (times - 1) as nat), key)
    }
}

/// The counters with every count back at zero.
pub open spec fn spec_cleared(counters: Seq<(Key, u64)>) -> Seq<(Key, u64)> {
    Seq::new(counters.len(), |i: int| (counters[i].0, 0u64))
}

/// The highest count among `counters`; zero if there are none.
pub open spec fn spec_max_count(counters: Seq<(Key, u64)>) -> u64
    decreases counters.len(),
{
    if counters.len() == 0 {
        0
    } else {
        let before = spec_max_count(counters.drop_last());
        if counters.last().1 > before {
            counters.last().1
        } else {
            before
        }
    }
}

/// The colour of a key that was pressed `count` times where the most
/// pressed key was pressed `max` times: the gradient at `count / max`,
/// and its first stop while nothing was pressed.
pub open spec fn spec_heat(count: u64, max: u64) -> Color {
    if max == 0 {
        gradient()[0]
    } else {
        spec_interpolate(count as nat, max as nat)
    }
}

/// The colour of every key that has a counter, in the order of the
/// counters.
pub open spec fn spec_colors(counters: Seq<(Key, u64)>) -> Seq<KeyColor> {
    Seq::new(
        counters.len(),
        |i: int|
            KeyColor { key: counters[i].0, color: spec_heat(counters[i].1, spec_max_count(counters)) },
    )
}

/// The highest count is the count of some key, and no count is higher.
pub proof fn lemma_max_count(counters: Seq<(Key, u64)>)
    ensures
        forall|i: int| 0 <= i < counters.len() ==> (#[trigger] counters[i]).1 <= spec_max_count(counters),
        counters.len() > 0 ==> exists|i: int|
            0 <= i < counters.len() && (#[trigger] counters[i]).1 == spec_max_count(counters),
    decreases counters.len(),
{
    if counters.len() > 0 {
        let front = counters.drop_last();
        lemma_max_count(front);
        assert forall|i: int| 0 <= i < counters.len() implies (#[trigger] counters[i]).1
            <= spec_max_count(counters) by {
            if i < front.len() {
                assert(front[i] == counters[i]);
            }
        }
        if counters.last().1 > spec_max_count(front) || front.len() == 0 {
            assert(counters[counters.len() - 1].1 == spec_max_count(counters));
        } else {
            let i = choose|i: int| 0 <= i < front.len() && (#[trigger] front[i]).1 == spec_max_count(front);
            assert(counters[i] == front[i]);
        }
    }
}

/// A key that was not pressed is shown in the first stop of the gradient,
/// whatever the other keys were pressed.
pub proof fn lemma_unpressed_is_first_stop(counters: Seq<(Key, u64)>, i: int)
    requires
        0 <= i < counters.len(),
        counters[i].1 == 0,
    ensures
        spec_colors(counters)[i] == (KeyColor { key: counters[i].0, color: gradient()[0] }),
{
}

/// While no key was pressed, every key is shown in the first stop of the
/// gradient.
pub proof fn lemma_fresh_colors(counters: Seq<(Key, u64)>)
    requires
        forall|i: int| 0 <= i < counters.len() ==> (#[trigger] counters[i]).1 == 0,
    ensures
        spec_colors(counters) == counters.map_values(
            |c: (Key, u64)| KeyColor { key: c.0, color: gradient()[0] },
        ),
{
    assert(spec_colors(counters) =~= counters.map_values(
        |c: (Key, u64)| KeyColor { key: c.0, color: gradient()[0] },
    ));
}

/// Presses of one key leave the keys where they are, raise the count of
/// that key by their number, and leave every other count alone.
pub proof fn lemma_pressed_often(counters: Seq<(Key, u64)>, key: Key, times: nat, at: int)
    requires
        distinct_keys(counters),
        0 <= at < counters.len(),
        counters[at].0 == key,
        counters[at].1 + times <= u64::MAX,
    ensures
        spec_pressed_often(counters, key, times).len() == counters.len(),
        spec_pressed_often(counters, key, times)[at] == (key, (counters[at].1 + times) as u64),
        forall|i: int|
            0 <= i < counters.len() && i != at ==> #[trigger] spec_pressed_often(
                counters,
                key,
                times,
            )[i] == counters[i],
    decreases times,
{
    if times > 0 {
        lemma_pressed_often(counters, key, (times - 1) as nat, at);
    }
}

/// After presses of one key, and of no other, that key is shown in the last
/// stop of the gradient and every other key in the first.
pub proof fn lemma_one_key_pressed(counters: Seq<(Key, u64)>, key: Key, times: nat, at: int)
    requires
        distinct_keys(counters),
        forall|i: int| 0 <= i < counters.len() ==> (#[trigger] counters[i]).1 == 0,
        0 <= at < counters.len(),
        counters[at].0 == key,
        1 <= times <= u64::MAX,
    ensures
        ({
            let colors = spec_colors(spec_pressed_often(counters, key, times));
            &&& colors.len() == counters.len()
            &&& colors[at] == (KeyColor { key, color: gradient()[STEPS as int] })
            &&& forall|i: int|
                0 <= i < counters.len() && i != at ==> #[trigger] colors[i] == (KeyColor {
                    key: counters[i].0,
                    color: gradient()[0],
                })
        }),
{
    let after = spec_pressed_often(counters, key, times);
    lemma_pressed_often(counters, key, times, at);
    lemma_max_count(after);
    let top = choose|i: int| 0 <= i < after.len() && (#[trigger] after[i]).1 == spec_max_count(after);
    assert(after[at].1 <= spec_max_count(after));
    if top != at {
        assert(after[top] == counters[top]);
    }
    assert(spec_max_count(after) == times);
}

/// The press of a media key is not taken, and it would change no counter
/// if it were: a media key has none.
pub proof fn lemma_media_key_changes_nothing(counters: Seq<(Key, u64)>, key: Key)
    requires
        counters_ok(counters),
        key is Media,
    ensures
        !HeatmapHandlerView::accepts(KeyEvent::KeyPressed(key)),
        !tracks(counters, key),
        spec_pressed(counters, key) == counters,
{
    assert(spec_pressed(counters, key) =~= counters);
}

/// The counters of the heatmap.
pub struct Heatmap {
    data: Vec<(Key, u64)>,
}

impl View for Heatmap {
    type V = Seq<(Key, u64)>;

    /// The keys with their counts, in the order in which the keys were
    /// given.
    closed spec fn view(&self) -> Seq<(Key, u64)> {
        self.data@
    }
}

impl Heatmap {
    /// A heatmap of the keys in `universe` that are neither media keys nor
    /// logos, with every count at zero.
    pub fn new(universe: &Vec<Key>) -> (h: Heatmap)
        ensures
            h@ == spec_counted_keys(universe@).map_values(|k: Key| (k, 0u64)),
            counters_ok(h@),
    {
        let mut h = Heatmap { data: Vec::new() };
        let mut n: usize = 0;
        assert(universe@.subrange(0, 0) =~= Seq::<Key>::empty());
        while n < universe.len()
            invariant
                n <= universe.len(),
                h@ =~= spec_counted_keys(universe@.subrange(0, n as int)).map_values(|k: Key| (k, 0u64)),
                counters_ok(h@),
            decreases universe.len() - n,
        {
            let key: Key = universe[n];
            let ghost before = spec_counted_keys(universe@.subrange(0, n as int));
            proof {
                let upto = universe@.subrange(0, n + 1);
                assert(upto.drop_last() =~= universe@.subrange(0, n as int));
                assert(upto.last() == key);
                assert(before.contains(key) <==> tracks(h@, key)) by {
                    if before.contains(key) {
                        let i = choose|i: int| 0 <= i < before.len() && before[i] == key;
                        assert(h@[i].0 == key);
                    }
                    if tracks(h@, key) {
                        let i = choose|i: int| 0 <= i < h@.len() && (#[trigger] h@[i]).0 == key;
                        assert(before[i] == key);
                    }
                }
            }
            if !key.is_media() && !key.is_logo() && h.index_of(&key).is_none() {
                h.data.push((key, 0));
                assert(h@ =~= before.push(key).map_values(|k: Key| (k, 0u64)));
            }
            n += 1;
        }
        assert(universe@.subrange(0, universe@.len() as int) =~= universe@);
        h
    }

    /// Where the counter of `key` stands, if the key has one.
    pub fn index_of(&self, key: &Key) -> (at: Option<usize>)
        ensures
            match at {
                Some(i) => i < self@.len() && self@[i as int].0 == *key && forall|j: int|
                    0 <= j < i ==> (#[trigger] self@[j]).0 != *key,
                None => !tracks(self@, *key),
            },
    {
        let mut i: usize = 0;
        while i < self.data.len()
            invariant
                i <= self.data@.len(),
                forall|j: int| 0 <= j < i ==> (#[trigger] self.data@[j]).0 != *key,
            decreases self.data.len() - i,
        {
            if self.data[i].0 == *key {
                return Some(i);
            }
            i += 1;
        }
        None
    }

    /// The number of presses of `key` that were counted, if the key has a
    /// counter.
    pub fn count(&self, key: &Key) -> (n: Option<u64>)
        ensures
            match n {
                Some(c) => exists|i: int|
                    {
                        &&& 0 <= i < self@.len()
                        &&& #[trigger] self@[i] == (*key, c)
                        &&& forall|j: int| 0 <= j < i ==> (#[trigger] self@[j]).0 != *key
                    },
                None => !tracks(self@, *key),
            },
    {
        match self.index_of(key) {
            Some(i) => Some(self.data[i].1),
            None => None,
        }
    }

    /// Counts one more press of `key`. The key must have a counter, and
    /// the counter must have room.
    pub fn increment(&mut self, key: &Key)
        requires
            counters_ok(old(self)@),
            exists|i: int|
                0 <= i < old(self)@.len() && (#[trigger] old(self)@[i]).0 == *key && old(self)@[i].1
                    < u64::MAX,
        ensures
            final(self)@ == spec_pressed(old(self)@, *key),
            counters_ok(final(self)@),
    {
        match self.index_of(key) {
            Some(i) => {
                let n: u64 = self.data[i].1;
                self.data.set(i, (*key, n + 1));
                assert(self@ =~= spec_pressed(old(self)@, *key));
            },
            None => {},
        }
    }

    /// Puts every count back to zero.
    pub fn clear(&mut self)
        ensures
            final(self)@ == spec_cleared(old(self)@),
            counters_ok(old(self)@) ==> counters_ok(final(self)@),
    {
        let mut i: usize = 0;
        while i < self.data.len()
            invariant
                i <= self.data@.len(),
                self.data@.len() == old(self)@.len(),
                forall|j: int| 0 <= j < i ==> #[trigger] self.data@[j] == (old(self)@[j].0, 0u64),
                forall|j: int| i <= j < self.data@.len() ==> #[trigger] self.data@[j] == old(self)@[j],
            decreases self.data.len() - i,
        {
            let key: Key = self.data[i].0;
            self.data.set(i, (key, 0));
            i += 1;
        }
        assert(self@ =~= spec_cleared(old(self)@));
    }

    /// The highest count.
    pub fn max_count(&self) -> (max: u64)
        ensures
            max == spec_max_count(self@),
    {
        let mut max: u64 = 0;
        let mut i: usize = 0;
        assert(self.data@.subrange(0, 0) =~= Seq::<(Key, u64)>::empty());
        while i < self.data.len()
            invariant
                i <= self.data@.len(),
                max == spec_max_count(self.data@.subrange(0, i as int)),
            decreases self.data.len() - i,
        {
            assert(self.data@.subrange(0, i + 1).drop_last() =~= self.data@.subrange(0, i as int));
            if self.data[i].1 > max {
                max = self.data[i].1;
            }
            i += 1;
        }
        assert(self.data@.subrange(0, self.data@.len() as int) =~= self.data@);
        max
    }

    /// The colour of every key that has a counter. There must be a key.
    pub fn colors(&self) -> (colors: Vec<KeyColor>)
        requires
            self@.len() > 0,
        ensures
            colors@ == spec_colors(self@),
    {
        let max: u64 = self.max_count();
        let mut colors: Vec<KeyColor> = Vec::new();
        let mut i: usize = 0;
        while i < self.data.len()
            invariant
                i <= self.data@.len(),
                max == spec_max_count(self@),
                colors@.len() == i,
                forall|j: int| 0 <= j < i ==> colors@[j] == spec_colors(self@)[j],
            decreases self.data.len() - i,
        {
            let (key, count) = self.data[i];
            let color: Color = if max == 0 {
                interpolate(0, 1)
            } else {
                interpolate(count, max)
            };
            colors.push(KeyColor::new(key, color));
            i += 1;
        }
        assert(colors@ =~= spec_colors(self@));
        colors
    }
}

/// The heatmap as an effect: it counts the presses, shows the colours, and
/// lets the logos blink.
pub struct HeatmapHandler {
    heatmap: Heatmap,
    logos: bool,
    logo_keys: Vec<Key>,
}

/// The state of the heatmap effect.
pub struct HeatmapHandlerView {
    /// The keys with their counts.
    pub counters: Seq<(Key, u64)>,
    /// The logo lights.
    pub logo_keys: Seq<Key>,
    /// Whether the logos are lit.
    pub logos: bool,
}

impl HeatmapHandlerView {
    /// Whether the effect takes the event: the press of a key that is no
    /// media key.
    pub open spec fn accepts(evt: KeyEvent) -> bool {
        match evt {
            KeyEvent::KeyPressed(key) => !(key is Media),
            KeyEvent::KeyReleased(_) => false,
        }
    }

    /// Whether the effect can count the event: the press of a key that has
    /// a counter with room.
    pub open spec fn counts(self, evt: KeyEvent) -> bool {
        &&& evt is KeyPressed
        &&& exists|i: int|
            0 <= i < self.counters.len() && (#[trigger] self.counters[i]).0 == evt.spec_key()
                && self.counters[i].1 < u64::MAX
    }

    /// What the logos are shown in at a tick: black if they are lit, blue
    /// if they are not.
    pub open spec fn blink(self) -> Seq<KeyColor> {
        self.logo_keys.map_values(
            |k: Key|
                KeyColor {
                    key: k,
                    color: if self.logos {
                        Color { red: 0, green: 0, blue: 0 }
                    } else {
                        Color { red: 0, green: 0, blue: 255 }
                    },
                },
        )
    }
}

impl View for HeatmapHandler {
    type V = HeatmapHandlerView;

    closed spec fn view(&self) -> HeatmapHandlerView {
        HeatmapHandlerView {
            counters: self.heatmap@,
            logo_keys: self.logo_keys@,
            logos: self.logos,
        }
    }
}

impl HeatmapHandler {
    /// The effect for a keyboard with the keys in `universe`: a counter at
    /// zero for every key that is neither a media key nor a logo, and the
    /// logos unlit.
    pub fn new(universe: &Vec<Key>) -> (h: HeatmapHandler)
        ensures
            h@.counters == spec_counted_keys(universe@).map_values(|k: Key| (k, 0u64)),
            h@.logo_keys == spec_logos(universe@),
            !h@.logos,
            counters_ok(h@.counters),
    {
        let mut logo_keys: Vec<Key> = Vec::new();
        let mut n: usize = 0;
        proof {
            reveal(Seq::filter);
            assert(universe@.subrange(0, 0) =~= Seq::<Key>::empty());
        }
        while n < universe.len()
            invariant
                n <= universe.len(),
                logo_keys@ == spec_logos(universe@.subrange(0, n as int)),
            decreases universe.len() - n,
        {
            let key: Key = universe[n];
            proof {
                reveal(Seq::filter);
                assert(universe@.subrange(0, n + 1).drop_last() =~= universe@.subrange(0, n as int));
            }
            if key.is_logo() {
                logo_keys.push(key);
            }
            n += 1;
        }
        assert(universe@.subrange(0, universe@.len() as int) =~= universe@);
        HeatmapHandler { heatmap: Heatmap::new(universe), logos: false, logo_keys }
    }

    /// Starts the effect: every count goes back to zero and the whole
    /// board is shown in black.
    pub fn init(&mut self) -> (cmds: Vec<Command>)
        ensures
            final(self)@.counters == spec_cleared(old(self)@.counters),
            final(self)@.logo_keys == old(self)@.logo_keys,
            final(self)@.logos == old(self)@.logos,
            counters_ok(old(self)@.counters) ==> counters_ok(final(self)@.counters),
            commands_view(cmds@) == seq![
                CommandView::SetAll(Color { red: 0, green: 0, blue: 0 }),
            ],
    {
        self.heatmap.clear();
        let mut cmds: Vec<Command> = Vec::new();
        cmds.push(Command::SetAll(Color::new(0, 0, 0)));
        assert(commands_view(cmds@) =~= seq![
            CommandView::SetAll(Color { red: 0, green: 0, blue: 0 }),
        ]);
        cmds
    }

    /// Whether the effect takes the event.
    pub fn accept_key(&self, evt: &KeyEvent) -> (r: bool)
        ensures
            r == HeatmapHandlerView::accepts(*evt),
    {
        match evt {
            KeyEvent::KeyPressed(key) => !key.is_media(),
            KeyEvent::KeyReleased(_) => false,
        }
    }

    /// Whether the effect can count the event.
    pub fn can_count(&self, evt: &KeyEvent) -> (r: bool)
        requires
            counters_ok(self@.counters),
        ensures
            r == self@.counts(*evt),
    {
        match evt {
            KeyEvent::KeyPressed(key) => {
                match self.heatmap.index_of(key) {
                    Some(i) => {
                        assert(self@.counters[i as int].0 == evt.spec_key());
                        self.heatmap.data[i].1 < u64::MAX
                    },
                    None => false,
                }
            },
            KeyEvent::KeyReleased(_) => false,
        }
    }

    /// Counts the press of a key and shows every counted key in its new
    /// colour.
    pub fn handle_key(&mut self, evt: &KeyEvent) -> (cmds: Vec<Command>)
        requires
            counters_ok(old(self)@.counters),
            old(self)@.counts(*evt),
        ensures
            final(self)@.counters == spec_pressed(old(self)@.counters, evt.spec_key()),
            final(self)@.logo_keys == old(self)@.logo_keys,
            final(self)@.logos == old(self)@.logos,
            counters_ok(final(self)@.counters),
            commands_view(cmds@) == seq![CommandView::SetKeys(spec_colors(final(self)@.counters))],
    {
        let key: Key = evt.key();
        self.heatmap.increment(&key);
        let mut cmds: Vec<Command> = Vec::new();
        cmds.push(Command::SetKeys(self.heatmap.colors()));
        assert(commands_view(cmds@) =~= seq![CommandView::SetKeys(spec_colors(self@.counters))]);
        cmds
    }

    /// Takes a tick of the timer: the logos go dark if they are lit and
    /// light up in blue if they are not.
    pub fn handle_time(&mut self) -> (cmds: Vec<Command>)
        ensures
            final(self)@.counters == old(self)@.counters,
            final(self)@.logo_keys == old(self)@.logo_keys,
            final(self)@.logos == !old(self)@.logos,
            commands_view(cmds@) == seq![CommandView::SetKeys(old(self)@.blink())],
    {
        let color: Color = if self.logos {
            Color::new(0, 0, 0)
        } else {
            Color::new(0, 0, 255)
        };
        let mut mapped: Vec<KeyColor> = Vec::new();
        let mut i: usize = 0;
        while i < self.logo_keys.len()
            invariant
                i <= self.logo_keys@.len(),
                self@ == old(self)@,
                color == if self@.logos {
                    Color { red: 0, green: 0, blue: 0 }
                } else {
                    Color { red: 0, green: 0, blue: 255 }
                },
                mapped@.len() == i,
                forall|j: int| 0 <= j < i ==> mapped@[j] == old(self)@.blink()[j],
            decreases self.logo_keys.len() - i,
        {
            mapped.push(KeyColor::new(self.logo_keys[i], color));
            i += 1;
        }
        assert(mapped@ =~= old(self)@.blink());
        self.logos = !self.logos;
        let mut cmds: Vec<Command> = Vec::new();
        cmds.push(Command::SetKeys(mapped));
        assert(commands_view(cmds@) =~= seq![CommandView::SetKeys(old(self)@.blink())]);
        cmds
    }

    /// The counters.
    pub fn heatmap(&self) -> (h: &Heatmap)
        ensures
            h@ == self@.counters,
    {
        &self.heatmap
    }

    /// Whether the logos are lit.
    pub fn logos(&self) -> (lit: bool)
        ensures
            lit == self@.logos,
    {
        self.logos
    }
}

} // verus!
