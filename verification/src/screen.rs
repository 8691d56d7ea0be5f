use vstd::prelude::*;

verus! {

use crate::game::GameScreen;
use crate::game::game_input_effect;
use crate::game::game_input_result;
use crate::game::game_update_effect;

/// Identifier under which a screen is registered and selected.
#[derive(Clone, Copy, PartialEq, Eq, Structural, Debug)]
pub enum ScreenState {
    Game,
    Pause,
}

/// The keys the game reacts to; every other key is `Other`.
#[derive(Clone, Copy, PartialEq, Eq, Structural, Debug)]
pub enum Key {
    W,
    A,
    S,
    D,
    Escape,
    Other,
}

/// A raw input event as the windowing host reports it.
#[derive(Clone, Copy, PartialEq, Eq, Structural, Debug)]
pub enum InputEvent {
    KeyPress(Key),
    KeyRelease(Key),
    MouseMove,
}

/// A screen that shows the game is paused; it keeps no state and reacts
/// to nothing, so the manager stays on it once it becomes active.
pub struct PauseScreen {}

impl PauseScreen {
    pub fn new() -> (r: PauseScreen) {
        PauseScreen {}
    }

    pub fn update(&mut self) -> (r: Option<ScreenState>)
        ensures
            *final(self) == *old(self),
            r is None,
    {
        None
    }

    pub fn handle_input(&mut self, input: &InputEvent) -> (r: Option<ScreenState>)
        ensures
            *final(self) == *old(self),
            r is None,
    {
        None
    }
}

/// One registered screen: a closed set of interactive modes.
pub enum Screen {
    Game(GameScreen),
    Pause(PauseScreen),
}

impl Screen {
    pub open spec fn wf(self) -> bool {
        match self {
            Screen::Game(g) => g.wf(),
            Screen::Pause(_) => true,
        }
    }
}

/// How one update pass changes a screen: the game screen advances its
/// popups, the pause screen is inert. Neither requests a transition.
pub open spec fn screen_update_post(pre: Screen, post: Screen) -> bool {
    match pre {
        Screen::Game(g) => post matches Screen::Game(g2) && game_update_effect(g, g2),
        Screen::Pause(p) => post == Screen::Pause(p),
    }
}

/// How an input event changes a screen.
pub open spec fn screen_input_post(pre: Screen, post: Screen, e: InputEvent) -> bool {
    match pre {
        Screen::Game(g) => post matches Screen::Game(g2) && game_input_effect(g, g2, e),
        Screen::Pause(p) => post == Screen::Pause(p),
    }
}

/// The transition a screen requests for an input event: only the game
/// screen requests one, and only on an Escape press.
pub open spec fn screen_input_result(pre: Screen, e: InputEvent) -> Option<ScreenState> {
    match pre {
        Screen::Game(_) => game_input_result(e),
        Screen::Pause(_) => None,
    }
}

impl Screen {
    pub fn update(&mut self) -> (r: Option<ScreenState>)
        requires
            old(self).wf(),
        ensures
            final(self).wf(),
            screen_update_post(*old(self), *final(self)),
            r is None,
    {
        match self {
            Screen::Game(g) => g.update(),
            Screen::Pause(p) => p.update(),
        }
    }

    pub fn handle_input(&mut self, input: &InputEvent) -> (r: Option<ScreenState>)
        requires
            old(self).wf(),
        ensures
            final(self).wf(),
            screen_input_post(*old(self), *final(self), *input),
            r == screen_input_result(*old(self), *input),
    {
        match self {
            Screen::Game(g) => g.handle_input(input),
            Screen::Pause(p) => p.handle_input(input),
        }
    }
}

/// Registry and dispatcher for the screens: it owns one screen per
/// registered state and forwards draw/update/input to the active one.
pub struct ScreenManager {
    pub screens: Vec<(ScreenState, Screen)>,
    pub active: Option<ScreenState>,
}

impl ScreenManager {
    /// No two entries are registered under the same state.
    pub open spec fn keys_unique(s: Seq<(ScreenState, Screen)>) -> bool {
        forall|i: int, j: int| 0 <= i < j < s.len() ==> (#[trigger] s[i]).0 != (#[trigger] s[j]).0
    }

    /// Whether some entry of `s` is registered under `st`.
    pub open spec fn seq_registered(s: Seq<(ScreenState, Screen)>, st: ScreenState) -> bool {
        exists|i: int| 0 <= i < s.len() && (#[trigger] s[i]).0 == st
    }

    /// The position of the entry of `s` registered under `st`.
    pub open spec fn seq_index_of(s: Seq<(ScreenState, Screen)>, st: ScreenState) -> int {
        choose|i: int| 0 <= i < s.len() && (#[trigger] s[i]).0 == st
    }

    /// Whether a screen is registered under `st`.
    pub open spec fn registered(self, st: ScreenState) -> bool {
        Self::seq_registered(self.screens@, st)
    }

    /// The position of the entry registered under `st`.
    pub open spec fn index_of(self, st: ScreenState) -> int {
        Self::seq_index_of(self.screens@, st)
    }

    /// The screen registered under `st`.
    pub open spec fn screen_of(self, st: ScreenState) -> Screen {
        self.screens@[self.index_of(st)].1
    }

    /// Registrations are unique, the active state (if any) is registered,
    /// and every registered screen is itself well formed.
    pub open spec fn wf(self) -> bool {
        &&& Self::keys_unique(self.screens@)
        &&& (self.active matches Some(st) ==> self.registered(st))
        &&& forall|i: int| 0 <= i < self.screens@.len() ==> (#[trigger] self.screens@[i]).1.wf()
    }

    /// With unique keys, any entry holding `st` is the entry `screen_of`
    /// speaks about.
    pub proof fn lemma_screen_of_at(self, st: ScreenState, i: int)
        requires
            Self::keys_unique(self.screens@),
            0 <= i < self.screens@.len(),
            self.screens@[i].0 == st,
        ensures
            self.registered(st),
            self.index_of(st) == i,
            self.screen_of(st) == self.screens@[i].1,
    {
        assert(self.registered(st));
        let j = self.index_of(st);
        assert(0 <= j < self.screens@.len() && self.screens@[j].0 == st);
        if i < j {
            assert(self.screens@[i].0 != self.screens@[j].0);
        } else if j < i {
            assert(self.screens@[j].0 != self.screens@[i].0);
        }
    }

    pub fn new() -> (r: ScreenManager)
        ensures
            r.wf(),
            r.screens@.len() == 0,
            r.active is None,
            forall|st: ScreenState| !(#[trigger] r.registered(st)),
    {
        ScreenManager { screens: Vec::new(), active: None }
    }

    /// The position of the entry registered under `st`, if there is one.
    fn find_index(&self, st: ScreenState) -> (r: Option<usize>)
        ensures
            match r {
                Some(i) => i < self.screens@.len() && self.screens@[i as int].0 == st,
                None => !self.registered(st),
            },
    {
        let mut i: usize = 0;
        while i < self.screens.len()
            invariant
                i <= self.screens@.len(),
                forall|j: int| 0 <= j < i ==> (#[trigger] self.screens@[j]).0 != st,
            decreases self.screens@.len() - i,
        {
            if self.screens[i].0 == st {
                return Some(i);
            }
            i = i + 1;
        }
        None
    }

    /// Registers `screen` under `state`, replacing any earlier owner of
    /// that state. The first registration becomes the active screen.
    pub fn add_screen(&mut self, state: ScreenState, screen: Screen)
        requires
            old(self).wf(),
            screen.wf(),
        ensures
            final(self).wf(),
            forall|st: ScreenState|
                #[trigger] final(self).registered(st) <==> (old(self).registered(st) || st
                    == state),
            final(self).screen_of(state) == screen,
            forall|st: ScreenState|
                st != state && old(self).registered(st) ==> #[trigger] final(self).screen_of(st)
                    == old(self).screen_of(st),
            final(self).active == if old(self).active is None {
                Some(state)
            } else {
                old(self).active
            },
    {
        let found = self.find_index(state);
        match found {
            Some(i) => {
                self.screens.set(i, (state, screen));
                proof {
                    self.lemma_screen_of_at(state, i as int);
                    assert forall|st: ScreenState|
                        self.registered(st) <==> (old(self).registered(st) || st == state) by {
                        if self.registered(st) {
                            let j = choose|j: int|
                                0 <= j < self.screens@.len() && (#[trigger] self.screens@[j]).0
                                    == st;
                            if j != i {
                                assert(old(self).screens@[j].0 == st);
                            }
                        }
                        if old(self).registered(st) {
                            let j = choose|j: int|
                                0 <= j < old(self).screens@.len() && (#[trigger] old(
                                    self,
                                ).screens@[j]).0 == st;
                            if j != i {
                                assert(self.screens@[j].0 == st);
                            } else {
                                assert(st == state);
                                assert(self.screens@[j].0 == st);
                            }
                        }
                    }
                    assert forall|st: ScreenState|
                        st != state && old(self).registered(st) implies #[trigger] self.screen_of(
                        st,
                    ) == old(self).screen_of(st) by {
                        let j = choose|j: int|
                            0 <= j < old(self).screens@.len() && (#[trigger] old(
                                self,
                            ).screens@[j]).0 == st;
                        assert(j != i);
                        old(self).lemma_screen_of_at(st, j);
                        self.lemma_screen_of_at(st, j);
                    }
                }
            },
            None => {
                let ghost n = self.screens@.len();
                self.screens.push((state, screen));
                proof {
                    assert forall|i: int, j: int|
                        0 <= i < j < self.screens@.len() implies (#[trigger] self.screens@[i]).0
                        != (#[trigger] self.screens@[j]).0 by {
                        if j < n {
                            assert(old(self).screens@[i].0 != old(self).screens@[j].0);
                        } else {
                            assert(self.screens@[j].0 == state);
                            assert(old(self).screens@[i].0 != state) by {
                                if old(self).screens@[i].0 == state {
                                    assert(old(self).registered(state));
                                }
                            }
                        }
                    }
                    self.lemma_screen_of_at(state, n as int);
                    assert forall|st: ScreenState|
                        self.registered(st) <==> (old(self).registered(st) || st == state) by {
                        if self.registered(st) {
                            let j = choose|j: int|
                                0 <= j < self.screens@.len() && (#[trigger] self.screens@[j]).0
                                    == st;
                            if j < n {
                                assert(old(self).screens@[j].0 == st);
                            }
                        }
                        if old(self).registered(st) {
                            let j = choose|j: int|
                                0 <= j < old(self).screens@.len() && (#[trigger] old(
                                    self,
                                ).screens@[j]).0 == st;
                            assert(self.screens@[j].0 == st);
                        }
                    }
                    assert forall|st: ScreenState|
                        st != state && old(self).registered(st) implies #[trigger] self.screen_of(
                        st,
                    ) == old(self).screen_of(st) by {
                        let j = choose|j: int|
                            0 <= j < old(self).screens@.len() && (#[trigger] old(
                                self,
                            ).screens@[j]).0 == st;
                        old(self).lemma_screen_of_at(st, j);
                        self.lemma_screen_of_at(st, j);
                    }
                }
            },
        }
        if self.active.is_none() {
            self.active = Some(state);
        }
    }

    /// The active state after a screen requested transition `r`: the
    /// manager switches only to a registered state.
    pub open spec fn transition_target(self, r: Option<ScreenState>) -> Option<ScreenState> {
        match r {
            Some(ns) => if self.registered(ns) {
                Some(ns)
            } else {
                self.active
            },
            None => self.active,
        }
    }

    /// Dispatches one update pass to the active screen. The set of
    /// registered screens is unchanged, only the active one advances, and
    /// (since no screen requests a transition on update) the active state
    /// stays what it was.
    pub fn update(&mut self)
        requires
            old(self).wf(),
        ensures
            final(self).wf(),
            final(self).active == old(self).active,
            match old(self).active {
                None => *final(self) == *old(self),
                Some(st) => {
                    &&& forall|st2: ScreenState|
                        #[trigger] final(self).registered(st2) <==> old(self).registered(st2)
                    &&& screen_update_post(old(self).screen_of(st), final(self).screen_of(st))
                    &&& forall|st2: ScreenState|
                        st2 != st && old(self).registered(st2) ==> #[trigger] final(self).screen_of(st2) == old(self).screen_of(st2)
                },
            },
    {
        let st = match self.active {
            Some(s) => s,
            None => {
                return ;
            },
        };
        let i = self.find_index(st).unwrap();
        let (key, mut scr) = self.screens.remove(i);
        let r = scr.update();
        self.screens.insert(i, (key, scr));
        proof {
            old(self).lemma_screen_of_at(st, i as int);
            self.lemma_dispatch(*old(self), st, i as int, (key, scr));
        }
        if let Some(ns) = r {
            if self.find_index(ns).is_some() {
                self.active = Some(ns);
            }
        }
    }

    /// Dispatches one input event to the active screen, then applies the
    /// transition it requested, if any, to a registered state.
    pub fn handle_input(&mut self, input: &InputEvent)
        requires
            old(self).wf(),
        ensures
            final(self).wf(),
            match old(self).active {
                None => *final(self) == *old(self),
                Some(st) => {
                    &&& forall|st2: ScreenState|
                        #[trigger] final(self).registered(st2) <==> old(self).registered(st2)
                    &&& screen_input_post(old(self).screen_of(st), final(self).screen_of(st), *input)
                    &&& forall|st2: ScreenState|
                        st2 != st && old(self).registered(st2) ==> #[trigger] final(self).screen_of(st2) == old(self).screen_of(st2)
                    &&& final(self).active == old(self).transition_target(
                        screen_input_result(old(self).screen_of(st), *input),
                    )
                },
            },
    {
        let st = match self.active {
            Some(s) => s,
            None => {
                return ;
            },
        };
        let i = self.find_index(st).unwrap();
        let (key, mut scr) = self.screens.remove(i);
        let r = scr.handle_input(input);
        self.screens.insert(i, (key, scr));
        proof {
            old(self).lemma_screen_of_at(st, i as int);
            self.lemma_dispatch(*old(self), st, i as int, (key, scr));
        }
        if let Some(ns) = r {
            if self.find_index(ns).is_some() {
                self.active = Some(ns);
            }
        }
    }

    /// After removing the active entry, updating its screen, and putting
    /// it back at the same position, the registry maps every state as
    /// before except that `st` now holds the entry put back.
    proof fn lemma_dispatch(
        self,
        pre: ScreenManager,
        st: ScreenState,
        i: int,
        entry: (ScreenState, Screen),
    )
        requires
            Self::keys_unique(pre.screens@),
            0 <= i < pre.screens@.len(),
            pre.screens@[i].0 == st,
            entry.0 == st,
            entry.1.wf(),
            forall|j: int| 0 <= j < pre.screens@.len() ==> (#[trigger] pre.screens@[j]).1.wf(),
            self.screens@ == pre.screens@.remove(i).insert(i, entry),
        ensures
            Self::keys_unique(self.screens@),
            forall|j: int| 0 <= j < self.screens@.len() ==> (#[trigger] self.screens@[j]).1.wf(),
            forall|st2: ScreenState|
                #[trigger] Self::seq_registered(self.screens@, st2) <==> Self::seq_registered(
                    pre.screens@,
                    st2,
                ),
            self.screen_of(st) == entry.1,
            forall|st2: ScreenState|
                st2 != st && pre.registered(st2) ==> #[trigger] self.screen_of(st2)
                    == pre.screen_of(st2),
    {
        assert(self.screens@ =~= pre.screens@.update(i, entry));
        assert forall|st2: ScreenState|
            #[trigger] Self::seq_registered(self.screens@, st2) <==> Self::seq_registered(
                pre.screens@,
                st2,
            ) by {
            if self.registered(st2) {
                let j = choose|j: int|
                    0 <= j < self.screens@.len() && (#[trigger] self.screens@[j]).0 == st2;
                if j != i {
                    assert(pre.screens@[j].0 == st2);
                } else {
                    assert(pre.screens@[i].0 == st2);
                }
            }
            if pre.registered(st2) {
                let j = choose|j: int|
                    0 <= j < pre.screens@.len() && (#[trigger] pre.screens@[j]).0 == st2;
                if j != i {
                    assert(self.screens@[j].0 == st2);
                } else {
                    assert(self.screens@[i].0 == st2);
                }
            }
        }
        self.lemma_screen_of_at(st, i);
        assert forall|st2: ScreenState|
            st2 != st && pre.registered(st2) implies #[trigger] self.screen_of(st2)
            == pre.screen_of(st2) by {
            let j = choose|j: int|
                0 <= j < pre.screens@.len() && (#[trigger] pre.screens@[j]).0 == st2;
            assert(j != i);
            pre.lemma_screen_of_at(st2, j);
            self.lemma_screen_of_at(st2, j);
        }
    }
}

} // verus!
