use vstd::prelude::*;
use crate::counter_app::{CounterApp, CounterView};
use crate::input::{Area, KeyCode, KeyInput};
use crate::listed_search::{ListedSearch, SearchView};

verus! {

/// Focus and visibility of a UI component.
#[derive(Clone, Copy, Debug, PartialEq, Eq, Structural)]
pub struct ComponentState {
    pub focused: bool,
    pub visible: bool,
}

impl ComponentState {
    /// A visible component without focus.
    pub fn new() -> (r: Self)
        ensures
            r == (ComponentState { focused: false, visible: true }),
    {
        Self { focused: false, visible: true }
    }
}

/// A component of the screen that can hold the keyboard focus.
#[derive(Debug)]
pub enum FocusedComponent {
    Counter(CounterApp),
    Search(ListedSearch),
}

/// What a focusable component holds.
pub enum ComponentView {
    Counter(CounterView),
    Search(SearchView),
}

impl ComponentView {
    /// Whether the component has the focus.
    pub open spec fn focused(self) -> bool {
        match self {
            ComponentView::Counter(c) => c.state.focused,
            ComponentView::Search(s) => s.state.focused,
        }
    }

    /// The component with its focus set to `focus`.
    pub open spec fn with_focus(self, focus: bool) -> ComponentView {
        match self {
            ComponentView::Counter(c) => ComponentView::Counter(
                CounterView { state: ComponentState { focused: focus, ..c.state }, ..c },
            ),
            ComponentView::Search(s) => ComponentView::Search(
                SearchView { state: ComponentState { focused: focus, ..s.state }, ..s },
            ),
        }
    }

    /// The component after it handled a key press.
    pub open spec fn after_key(self, key: KeyInput) -> ComponentView {
        match self {
            ComponentView::Counter(c) => ComponentView::Counter(c.after_key(key)),
            ComponentView::Search(s) => ComponentView::Search(s.after_key(key)),
        }
    }

    /// The component's own invariant.
    pub open spec fn wf(self) -> bool {
        match self {
            ComponentView::Counter(_) => true,
            ComponentView::Search(s) => s.wf(),
        }
    }

    /// The component can handle the key press.
    pub open spec fn accepts(self, key: KeyInput) -> bool {
        match self {
            ComponentView::Counter(_) => true,
            ComponentView::Search(s) => s.accepts(key),
        }
    }

    /// The component's cursor cell in `area` fits in `u16`.
    pub open spec fn cursor_fits(self, area: Area) -> bool {
        match self {
            ComponentView::Counter(_) => true,
            ComponentView::Search(s) => s.cursor_fits(area),
        }
    }

    /// Where the component shows a cursor in `area`, if it shows one.
    pub open spec fn cursor(self, area: Area) -> Option<(u16, u16)> {
        match self {
            ComponentView::Counter(_) => None,
            ComponentView::Search(s) => Some(s.cursor_cell(area)),
        }
    }
}

impl View for FocusedComponent {
    type V = ComponentView;

    open spec fn view(&self) -> ComponentView {
        match self {
            FocusedComponent::Counter(c) => ComponentView::Counter(c@),
            FocusedComponent::Search(s) => ComponentView::Search(s@),
        }
    }
}

impl FocusedComponent {
    /// Gives or takes away the focus.
    pub fn set_focus(&mut self, focus: bool)
        ensures
            final(self)@ == old(self)@.with_focus(focus),
    {
        match self {
            FocusedComponent::Counter(c) => c.set_focus(focus),
            FocusedComponent::Search(s) => s.set_focus(focus),
        }
    }

    /// Whether the component has the focus.
    pub fn is_focused(&self) -> (r: bool)
        ensures
            r == self@.focused(),
    {
        match self {
            FocusedComponent::Counter(c) => c.is_focused(),
            FocusedComponent::Search(s) => s.is_focused(),
        }
    }

    /// Hands a key press to the component.
    pub fn handle_key_events(&mut self, event: KeyInput) -> (r: Result<(), String>)
        requires
            old(self)@.accepts(event),
        ensures
            r is Ok,
            final(self)@ == old(self)@.after_key(event),
            final(self)@.wf(),
    {
        match self {
            FocusedComponent::Counter(c) => c.handle_key_events(event),
            FocusedComponent::Search(s) => s.handle_key_events(event),
        }
    }

    /// Where the component shows a cursor inside `area`, if it shows one.
    pub fn cursor_position(&self, area: Area) -> (r: Option<(u16, u16)>)
        requires
            self@.cursor_fits(area),
        ensures
            r == self@.cursor(area),
    {
        match self {
            FocusedComponent::Counter(_) => None,
            FocusedComponent::Search(s) => s.cursor_position(area),
        }
    }
}

/// `i` is the first component with the focus.
pub open spec fn is_first_focused(cs: Seq<ComponentView>, i: int) -> bool {
    &&& 0 <= i < cs.len()
    &&& cs[i].focused()
    &&& forall|k: int| 0 <= k < i ==> !(#[trigger] cs[k].focused())
}

/// The index of the first component with the focus, if any has it.
pub open spec fn first_focused(cs: Seq<ComponentView>) -> Option<int> {
    if exists|i: int| is_first_focused(cs, i) {
        Some(choose|i: int| is_first_focused(cs, i))
    } else {
        None
    }
}

/// The components after the focus moved on: the first focused component loses it and
/// the next one (wrapping around) gains it; with none focused the first gains it.
pub open spec fn cycled(cs: Seq<ComponentView>) -> Seq<ComponentView> {
    match first_focused(cs) {
        Some(i) => {
            let unfocused = cs.update(i, cs[i].with_focus(false));
            let next = (i + 1) % (cs.len() as int);
            unfocused.update(next, unfocused[next].with_focus(true))
        },
        None => if cs.len() > 0 {
            cs.update(0, cs[0].with_focus(true))
        } else {
            cs
        },
    }
}

/// The key press that closes the application: Control and `c`.
pub open spec fn is_quit_key(key: KeyInput) -> bool {
    key.control && key.code == KeyCode::Char('c')
}

/// The components as they stand when a key press reaches one: Tab first moves the
/// focus on.
pub open spec fn before_dispatch(cs: Seq<ComponentView>, key: KeyInput) -> Seq<ComponentView> {
    if key.code == KeyCode::Tab {
        cycled(cs)
    } else {
        cs
    }
}

/// The index of the component that handles a key press other than Control-c: the
/// focused one, or, with none focused, the first (which then gains the focus).
pub open spec fn key_receiver(cs: Seq<ComponentView>, key: KeyInput) -> int {
    match first_focused(before_dispatch(cs, key)) {
        Some(i) => i,
        None => 0,
    }
}

/// The key press can be handled: Control-c always can; any other key needs a
/// component to receive it, and that component must be able to handle it.
pub open spec fn key_accepted(cs: Seq<ComponentView>, key: KeyInput) -> bool {
    ||| is_quit_key(key)
    ||| cs.len() > 0 && cs[key_receiver(cs, key)].accepts(key)
}

/// What the application holds: its components, in focus order, and whether it is closing.
pub struct AppView {
    pub components: Seq<ComponentView>,
    pub close: bool,
}

impl AppView {
    /// The application after a key press. Control-c closes it. Otherwise Tab first
    /// moves the focus on; then the focused component handles the key, or, with none
    /// focused, the focus moves on and the first component handles it.
    pub open spec fn after_key(self, key: KeyInput) -> AppView {
        if is_quit_key(key) {
            AppView { close: true, ..self }
        } else {
            let cs = if key.code == KeyCode::Tab {
                cycled(self.components)
            } else {
                self.components
            };
            match first_focused(cs) {
                Some(i) => AppView { components: cs.update(i, cs[i].after_key(key)), ..self },
                None => {
                    let cs2 = cycled(cs);
                    AppView { components: cs2.update(0, cs2[0].after_key(key)), ..self }
                },
            }
        }
    }
}

/// The cursor cell shown on screen: among the first `n` components, each drawn in
/// the area of the same index, the last focused one that shows a cursor.
pub open spec fn shown_cursor(cs: Seq<ComponentView>, areas: Seq<Area>, n: int) -> Option<(u16, u16)>
    decreases n,
{
    if n <= 0 {
        None
    } else {
        let before = shown_cursor(cs, areas, n - 1);
        match cs[n - 1].cursor(areas[n - 1]) {
            Some(p) => if cs[n - 1].focused() {
                Some(p)
            } else {
                before
            },
            None => before,
        }
    }
}

/// The first focused component is unique.
pub proof fn lemma_first_focused_unique(cs: Seq<ComponentView>, i: int)
    requires
        is_first_focused(cs, i),
    ensures
        first_focused(cs) == Some(i),
{
    let j = choose|j: int| is_first_focused(cs, j);
    assert(is_first_focused(cs, j));
    if j < i {
        assert(!cs[j].focused());
    } else if i < j {
        assert(!cs[i].focused());
    }
}

/// A screen of focusable components.
#[derive(Debug)]
pub struct App {
    focused_components: Vec<FocusedComponent>,
    close: bool,
}

impl View for App {
    type V = AppView;

    closed spec fn view(&self) -> AppView {
        AppView {
            components: self.focused_components@.map_values(|c: FocusedComponent| c@),
            close: self.close,
        }
    }
}

impl Default for App {
    /// A counter and an empty text input, neither focused.
    fn default() -> (r: Self)
        ensures
            r@.components.len() == 2,
            r@.components[0] == ComponentView::Counter(
                CounterView { counter: 0, state: ComponentState { focused: false, visible: true } },
            ),
            r@.components[1] == ComponentView::Search(
                SearchView {
                    state: ComponentState { focused: false, visible: true },
                    list: Seq::empty(),
                    text: Seq::empty(),
                    cursor: 0,
                },
            ),
            !r@.close,
    {
        let r = Self {
            focused_components: vec![
                FocusedComponent::Counter(CounterApp::new()),
                FocusedComponent::Search(ListedSearch::new()),
            ],
            close: false,
        };
        r
    }
}

impl App {
    /// Whether the application is to close.
    pub fn should_close(&self) -> (r: bool)
        ensures
            r == self@.close,
    {
        self.close
    }

    /// The components, in focus order.
    pub fn components(&self) -> (r: &Vec<FocusedComponent>)
        ensures
            r@.map_values(|c: FocusedComponent| c@) == self@.components,
    {
        &self.focused_components
    }

    /// The index of the first focused component, if any.
    fn position_focused(&self) -> (r: Option<usize>)
        ensures
            r matches Some(i) ==> is_first_focused(self@.components, i as int),
            r == None::<usize> ==> first_focused(self@.components) == None::<int>,
            r matches Some(i) ==> first_focused(self@.components) == Some(i as int),
    {
        let n = self.focused_components.len();
        let mut idx: usize = 0;
        while idx < n
            invariant
                n == self@.components.len(),
                idx <= n,
                forall|k: int| 0 <= k < idx ==> !(#[trigger] self@.components[k]).focused(),
            decreases n - idx,
        {
            if self.focused_components[idx].is_focused() {
                proof {
                    lemma_first_focused_unique(self@.components, idx as int);
                }
                return Some(idx);
            }
            idx = idx + 1;
        }
        proof {
            if exists|i: int| is_first_focused(self@.components, i) {
                let i = choose|i: int| is_first_focused(self@.components, i);
                assert(!self@.components[i].focused());
            }
        }
        None
    }

    /// Moves the focus to the next component, wrapping around; with none focused,
    /// focuses the first.
    pub fn cycle_focus(&mut self)
        ensures
            final(self)@.components == cycled(old(self)@.components),
            final(self)@.close == old(self)@.close,
    {
        let ghost cs = self@.components;
        let n = self.focused_components.len();
        if let Some(current_idx) = self.position_focused() {
            self.focused_components[current_idx].set_focus(false);
            let next_idx = (current_idx + 1) % n;
            self.focused_components[next_idx].set_focus(true);
            assert(self@.components =~= cycled(cs));
        } else {
            if !self.focused_components.is_empty() {
                self.focused_components[0].set_focus(true);
                assert(self@.components =~= cycled(cs));
            } else {
                assert(self@.components =~= cycled(cs));
            }
        }
    }
}


impl App {
    /// The index of the component that a key press other than Control-c reaches.
    fn receiver_index(&self, key: KeyInput) -> (r: usize)
        requires
            self@.components.len() > 0,
        ensures
            r == key_receiver(self@.components, key),
    {
        let n = self.focused_components.len();
        let focused = self.position_focused();
        proof {
            lemma_cycled_first_focused(self@.components);
        }
        match key.code {
            KeyCode::Tab => match focused {
                Some(i) => (i + 1) % n,
                None => 0,
            },
            _ => match focused {
                Some(i) => i,
                None => 0,
            },
        }
    }

    /// Whether the key press can be handled: Control-c always can; another key needs a
    /// component to receive it, and a text input that receives a character needs room
    /// for it.
    pub fn can_accept(&self, key: KeyInput) -> (r: bool)
        ensures
            r == key_accepted(self@.components, key),
    {
        let is_quit = match key.code {
            KeyCode::Char(c) => c == 'c' && key.control,
            _ => false,
        };
        if is_quit {
            return true;
        }
        if self.focused_components.is_empty() {
            return false;
        }
        let idx = self.receiver_index(key);
        match &self.focused_components[idx] {
            FocusedComponent::Counter(_) => true,
            FocusedComponent::Search(s) => match key.code {
                KeyCode::Char(c) => s.has_room(c),
                _ => true,
            },
        }
    }

    /// Handles a key press: Control-c closes the application; otherwise Tab moves
    /// the focus on, and the focused component handles the key (with none focused,
    /// the focus moves on first).
    pub fn handle_key_event(&mut self, key_event: KeyInput)
        requires
            key_accepted(old(self)@.components, key_event),
        ensures
            final(self)@ == old(self)@.after_key(key_event),
    {
        let ghost v = self@;
        let is_quit = match key_event.code {
            KeyCode::Char(c) => c == 'c' && key_event.control,
            _ => false,
        };
        if is_quit {
            self.close = true;
            assert(self@.components =~= v.components);
            return;
        }
        let is_tab = match key_event.code {
            KeyCode::Tab => true,
            _ => false,
        };
        if is_tab {
            self.cycle_focus();
        }
        let ghost cs = self@.components;
        assert(cs == before_dispatch(v.components, key_event));
        proof {
            let r = key_receiver(v.components, key_event);
            lemma_cycled_keeps(v.components, key_event, r);
            lemma_cycled_keeps(cs, key_event, 0);
        }
        match self.position_focused() {
            Some(i) => {
                let _ = self.focused_components[i].handle_key_events(key_event);
                assert(self@.components =~= cs.update(i as int, cs[i as int].after_key(key_event)));
            },
            None => {
                self.cycle_focus();
                let ghost cs2 = self@.components;
                assert(cs2.len() > 0);
                let _ = self.focused_components[0].handle_key_events(key_event);
                assert(self@.components =~= cs2.update(0, cs2[0].after_key(key_event)));
            },
        }
    }

    /// The cursor cell to show after drawing: each component is drawn in the area of
    /// the same index, and the last focused one that shows a cursor places it.
    pub fn focused_cursor(&self, areas: &Vec<Area>) -> (r: Option<(u16, u16)>)
        requires
            forall|i: int|
                0 <= i < self@.components.len() && 0 <= i < areas@.len()
                    ==> #[trigger] self@.components[i].cursor_fits(areas@[i]),
        ensures
            r == shown_cursor(
                self@.components,
                areas@,
                if self@.components.len() < areas@.len() {
                    self@.components.len() as int
                } else {
                    areas@.len() as int
                },
            ),
    {
        let n = if self.focused_components.len() < areas.len() {
            self.focused_components.len()
        } else {
            areas.len()
        };
        let mut cursor_pos: Option<(u16, u16)> = None;
        let mut idx: usize = 0;
        while idx < n
            invariant
                n <= self@.components.len(),
                n <= areas@.len(),
                idx <= n,
                cursor_pos == shown_cursor(self@.components, areas@, idx as int),
                forall|i: int|
                    0 <= i < self@.components.len() && 0 <= i < areas@.len()
                        ==> #[trigger] self@.components[i].cursor_fits(areas@[i]),
            decreases n - idx,
        {
            assert(self@.components[idx as int].cursor_fits(areas@[idx as int]));
            let component = &self.focused_components[idx];
            if let Some(pos) = component.cursor_position(areas[idx]) {
                if component.is_focused() {
                    cursor_pos = Some(pos);
                }
            }
            idx = idx + 1;
        }
        cursor_pos
    }
}

/// Moving the focus changes no component but in its focus, so it keeps each
/// component well formed and able to take the key press.
pub proof fn lemma_cycled_keeps(cs: Seq<ComponentView>, key: KeyInput, i: int)
    requires
        0 <= i < cs.len(),
    ensures
        cycled(cs).len() == cs.len(),
        cycled(cs)[i].wf() == cs[i].wf(),
        cycled(cs)[i].accepts(key) == cs[i].accepts(key),
{
}

/// After the focus moves on, the first focused component is the one after the
/// previously first focused one, wrapping around, or the first when none was focused.
pub proof fn lemma_cycled_first_focused(cs: Seq<ComponentView>)
    requires
        cs.len() > 0,
    ensures
        first_focused(cycled(cs)) == Some(
            match first_focused(cs) {
                Some(i) => (i + 1) % (cs.len() as int),
                None => 0,
            },
        ),
{
    let n = cs.len() as int;
    match first_focused(cs) {
        Some(i) => {
            assert(is_first_focused(cs, i));
            let j = (i + 1) % n;
            let c = cycled(cs);
            if i + 1 < n {
                vstd::arithmetic::div_mod::lemma_small_mod((i + 1) as nat, n as nat);
            } else {
                vstd::arithmetic::div_mod::lemma_mod_self_0(n);
            }
            assert forall|k: int| 0 <= k < j implies !(#[trigger] c[k]).focused() by {
                if k < i {
                    assert(!cs[k].focused());
                }
            }
            assert(is_first_focused(c, j));
            lemma_first_focused_unique(c, j);
        },
        None => {
            assert(is_first_focused(cycled(cs), 0));
            lemma_first_focused_unique(cycled(cs), 0);
        },
    }
}

/// No two components have the focus.
pub open spec fn at_most_one_focused(cs: Seq<ComponentView>) -> bool {
    forall|i: int, j: int|
        0 <= i < cs.len() && 0 <= j < cs.len() && #[trigger] cs[i].focused() && #[trigger] cs[j].focused()
            ==> i == j
}

/// Component `i` has the focus and no other does.
pub open spec fn focused_only_at(cs: Seq<ComponentView>, i: int) -> bool {
    &&& 0 <= i < cs.len()
    &&& cs[i].focused()
    &&& forall|k: int| 0 <= k < cs.len() && k != i ==> !(#[trigger] cs[k].focused())
}

/// Moving the focus takes it from the focused component to the next one, wrapping
/// around at the end.
pub proof fn lemma_cycle_moves_focus(cs: Seq<ComponentView>, i: int)
    requires
        focused_only_at(cs, i),
    ensures
        focused_only_at(cycled(cs), (i + 1) % (cs.len() as int)),
{
    lemma_first_focused_unique(cs, i);
}

/// With no component focused, moving the focus gives it to the first component.
pub proof fn lemma_cycle_focuses_first(cs: Seq<ComponentView>)
    requires
        cs.len() > 0,
        forall|k: int| 0 <= k < cs.len() ==> !(#[trigger] cs[k].focused()),
    ensures
        focused_only_at(cycled(cs), 0),
{
    if exists|i: int| is_first_focused(cs, i) {
        let i = choose|i: int| is_first_focused(cs, i);
        assert(cs[i].focused());
    }
}

/// Handling a key changes no component's focus.
pub proof fn lemma_after_key_keeps_focus(c: ComponentView, key: KeyInput)
    ensures
        c.after_key(key).focused() == c.focused(),
{
}

/// With at most one component focused, moving the focus leaves exactly one focused.
pub proof fn lemma_cycle_leaves_one_focused(cs: Seq<ComponentView>)
    requires
        cs.len() > 0,
        at_most_one_focused(cs),
    ensures
        exists|i: int| focused_only_at(cycled(cs), i),
{
    if exists|i: int| 0 <= i < cs.len() && cs[i].focused() {
        let i = choose|i: int| 0 <= i < cs.len() && cs[i].focused();
        assert(focused_only_at(cs, i));
        lemma_cycle_moves_focus(cs, i);
        assert(focused_only_at(cycled(cs), (i + 1) % (cs.len() as int)));
    } else {
        lemma_cycle_focuses_first(cs);
        assert(focused_only_at(cycled(cs), 0));
    }
}

/// After any key press but Control-c, exactly one component has the focus, and the
/// components keep their number.
pub proof fn lemma_key_leaves_one_focused(v: AppView, key: KeyInput)
    requires
        v.components.len() > 0,
        at_most_one_focused(v.components),
        !is_quit_key(key),
    ensures
        v.after_key(key).components.len() == v.components.len(),
        exists|i: int| focused_only_at(v.after_key(key).components, i),
{
    let cs = if key.code == KeyCode::Tab {
        cycled(v.components)
    } else {
        v.components
    };
    if key.code == KeyCode::Tab {
        lemma_cycle_leaves_one_focused(v.components);
        let i = choose|i: int| focused_only_at(cycled(v.components), i);
        assert(is_first_focused(cs, i));
        lemma_first_focused_unique(cs, i);
        let out = cs.update(i, cs[i].after_key(key));
        lemma_after_key_keeps_focus(cs[i], key);
        assert(focused_only_at(out, i));
    } else {
        match first_focused(cs) {
            Some(i) => {
                let j = choose|j: int| is_first_focused(cs, j);
                assert(is_first_focused(cs, j));
                assert(focused_only_at(cs, j));
                let out = cs.update(j, cs[j].after_key(key));
                lemma_after_key_keeps_focus(cs[j], key);
                assert(focused_only_at(out, j));
            },
            None => {
                assert forall|k: int| 0 <= k < cs.len() implies !(#[trigger] cs[k].focused()) by {
                    if cs[k].focused() {
                        let m = choose|m: int|
                            0 <= m <= k && cs[m].focused() && forall|q: int| 0 <= q < m ==> !cs[q].focused();
                        assert(is_first_focused(cs, m));
                    }
                }
                lemma_cycle_focuses_first(cs);
                let cs2 = cycled(cs);
                let out = cs2.update(0, cs2[0].after_key(key));
                lemma_after_key_keeps_focus(cs2[0], key);
                assert(focused_only_at(out, 0));
            },
        }
    }
}

/// Control-c closes the application and changes no component.
pub proof fn lemma_quit_key_closes(v: AppView, key: KeyInput)
    requires
        key.control,
        key.code == KeyCode::Char('c'),
    ensures
        v.after_key(key).close,
        v.after_key(key).components == v.components,
{
}

/// Only Control-c closes the application: any other key press, a plain `c` or
/// Control with another key included, leaves it as open as it was and keeps the
/// number of components.
pub proof fn lemma_only_control_c_closes(v: AppView, key: KeyInput)
    requires
        !(key.control && key.code == KeyCode::Char('c')),
    ensures
        v.after_key(key).close == v.close,
        v.components.len() > 0 ==> v.after_key(key).components.len() == v.components.len(),
{
    if v.components.len() > 0 {
        lemma_cycled_keeps(v.components, key, 0);
        let cs = before_dispatch(v.components, key);
        assert(cs.len() == v.components.len());
        lemma_cycled_keeps(cs, key, 0);
        if exists|i: int| is_first_focused(cs, i) {
            let i = choose|i: int| is_first_focused(cs, i);
            assert(0 <= i < cs.len());
        }
    }
}

/// A character key other than Control-c typed while a text input has the focus
/// goes into that input: the character is inserted at its cursor, which moves past
/// it; every other component, and whether the application closes, stay as they were.
pub proof fn lemma_typing_reaches_focused_input(v: AppView, i: int, s: SearchView, key: KeyInput, c: char)
    requires
        focused_only_at(v.components, i),
        v.components[i] == ComponentView::Search(s),
        key.code == KeyCode::Char(c),
        !(key.control && c == 'c'),
    ensures
        v.after_key(key).components[i] == ComponentView::Search(
            SearchView {
                text: s.text.take(s.cursor as int) + seq![c] + s.text.skip(s.cursor as int),
                cursor: s.cursor + 1,
                ..s
            },
        ),
        forall|j: int|
            0 <= j < v.components.len() && j != i ==> #[trigger] v.after_key(key).components[j]
                == v.components[j],
        v.after_key(key).components.len() == v.components.len(),
        v.after_key(key).close == v.close,
{
    let cs = v.components;
    assert(is_first_focused(cs, i));
    lemma_first_focused_unique(cs, i);
    let k = s.cursor as int;
    assert(s.text.take(k).push(c) + s.text.skip(k) =~= s.text.take(k) + seq![c] + s.text.skip(k));
}

/// The components after the focus moved on `m` times.
pub open spec fn cycled_times(cs: Seq<ComponentView>, m: nat) -> Seq<ComponentView>
    decreases m,
{
    if m == 0 {
        cs
    } else {
        cycled(cycled_times(cs, (m - 1) as nat))
    }
}

/// With one component focused, moving the focus `m` times puts it `m` components
/// further on, wrapping around.
pub proof fn lemma_cycle_moves_by(cs: Seq<ComponentView>, i: int, m: nat)
    requires
        focused_only_at(cs, i),
    ensures
        cycled_times(cs, m).len() == cs.len(),
        focused_only_at(cycled_times(cs, m), (i + m) % (cs.len() as int)),
    decreases m,
{
    let n = cs.len() as int;
    if m == 0 {
        vstd::arithmetic::div_mod::lemma_small_mod(i as nat, n as nat);
    } else {
        lemma_cycle_moves_by(cs, i, (m - 1) as nat);
        let prev = cycled_times(cs, (m - 1) as nat);
        lemma_cycle_moves_focus(prev, (i + m - 1) % n);
        vstd::arithmetic::div_mod::lemma_add_mod_noop_right(1, i + m - 1, n);
        assert((1 + (i + m - 1) % n) % n == ((i + m - 1) % n + 1) % n);
    }
}

/// With one component focused, moving the focus as many times as there are
/// components brings it back to that component.
pub proof fn lemma_cycle_returns(cs: Seq<ComponentView>, i: int)
    requires
        focused_only_at(cs, i),
    ensures
        focused_only_at(cycled_times(cs, cs.len()), i),
{
    let n = cs.len() as int;
    lemma_cycle_moves_by(cs, i, cs.len());
    vstd::arithmetic::div_mod::lemma_mod_add_multiples_vanish(i, n);
    vstd::arithmetic::div_mod::lemma_small_mod(i as nat, n as nat);
    assert(i + n == n + i);
}

} // verus!
