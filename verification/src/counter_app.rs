use vstd::prelude::*;
use crate::input::{KeyCode, KeyInput};
use crate::main_ui::ComponentState;

verus! {

/// A one-byte counter driven by the Left and Right keys.
#[derive(Debug)]
pub struct CounterApp {
    counter: u8,
    state: ComponentState,
}

/// What a counter holds.
pub struct CounterView {
    pub counter: u8,
    pub state: ComponentState,
}

/// The counter one step up, wrapping from 255 to 0.
pub open spec fn counter_up(c: u8) -> u8 {
    if c == 255 { 0 } else { (c + 1) as u8 }
}

/// The counter one step down, wrapping from 0 to 255.
pub open spec fn counter_down(c: u8) -> u8 {
    if c == 0 { 255 } else { (c - 1) as u8 }
}

impl CounterView {
    /// The counter after a key press: Left steps down, Right steps up.
    pub open spec fn after_key(self, key: KeyInput) -> CounterView {
        match key.code {
            KeyCode::Left => CounterView { counter: counter_down(self.counter), ..self },
            KeyCode::Right => CounterView { counter: counter_up(self.counter), ..self },
            _ => self,
        }
    }
}

impl View for CounterApp {
    type V = CounterView;

    closed spec fn view(&self) -> CounterView {
        CounterView { counter: self.counter, state: self.state }
    }
}

impl CounterApp {
    /// A counter at zero, visible and without focus.
    pub fn new() -> (r: Self)
        ensures
            r@.counter == 0,
            r@.state == (ComponentState { focused: false, visible: true }),
    {
        CounterApp { counter: 0, state: ComponentState::new() }
    }

    /// The counter's value.
    pub fn counter(&self) -> (r: u8)
        ensures
            r == self@.counter,
    {
        self.counter
    }

    /// Steps the counter up by one, wrapping from 255 to 0.
    pub fn increment_counter(&mut self)
        ensures
            final(self)@.counter == counter_up(old(self)@.counter),
            final(self)@.state == old(self)@.state,
    {
        self.counter = self.counter.wrapping_add(1);
    }

    /// Steps the counter down by one, wrapping from 0 to 255.
    pub fn decrement_counter(&mut self)
        ensures
            final(self)@.counter == counter_down(old(self)@.counter),
            final(self)@.state == old(self)@.state,
    {
        self.counter = self.counter.wrapping_sub(1);
    }

    /// Gives or takes away the focus.
    pub fn set_focus(&mut self, focus: bool)
        ensures
            final(self)@ == (CounterView {
                state: ComponentState { focused: focus, ..old(self)@.state },
                ..old(self)@
            }),
    {
        self.state.focused = focus;
    }

    /// Whether the counter has the focus.
    pub fn is_focused(&self) -> (r: bool)
        ensures
            r == self@.state.focused,
    {
        self.state.focused
    }

    /// Left steps the counter down, Right steps it up; other keys are ignored.
    pub fn handle_key_events(&mut self, event: KeyInput) -> (r: Result<(), String>)
        ensures
            r is Ok,
            final(self)@ == old(self)@.after_key(event),
    {
        match event.code {
            KeyCode::Left => self.decrement_counter(),
            KeyCode::Right => self.increment_counter(),
            _ => {},
        }
        Ok(())
    }
}

/// Stepping the counter up and then down, or down and then up, gives it back.
pub proof fn lemma_counter_steps_cancel(c: u8)
    ensures
        counter_down(counter_up(c)) == c,
        counter_up(counter_down(c)) == c,
{
}

/// Right and then Left, or Left and then Right, leave the counter as it was.
pub proof fn lemma_counter_keys_cancel(v: CounterView, left: KeyInput, right: KeyInput)
    requires
        left.code == KeyCode::Left,
        right.code == KeyCode::Right,
    ensures
        v.after_key(right).after_key(left) == v,
        v.after_key(left).after_key(right) == v,
{
    lemma_counter_steps_cancel(v.counter);
}

} // verus!
