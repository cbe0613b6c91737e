use vstd::prelude::*;
use vstd::utf8::encode_utf8;
use crate::input::{Area, KeyCode, KeyInput};
use crate::main_ui::ComponentState;

verus! {

/// Number of bytes in the UTF-8 encoding of `chars`.
pub open spec fn utf8_len(chars: Seq<char>) -> nat {
    encode_utf8(chars).len()
}

/// The UTF-8 length of a concatenation is the sum of the lengths.
pub proof fn lemma_utf8_len_concat(a: Seq<char>, b: Seq<char>)
    ensures
        utf8_len(a + b) == utf8_len(a) + utf8_len(b),
    decreases a.len(),
{
    if a.len() == 0 {
        assert(a + b =~= b);
    } else {
        lemma_utf8_len_concat(a.drop_first(), b);
        assert((a + b).drop_first() =~= a.drop_first() + b);
        assert((a + b)[0] == a[0]);
    }
}

/// One character takes between one and four bytes.
pub proof fn lemma_utf8_len_single(c: char)
    ensures
        1 <= utf8_len(seq![c]) <= 4,
{
    reveal_with_fuel(encode_utf8, 2);
    assert(seq![c].drop_first() =~= Seq::<char>::empty());
}

/// The number of bytes in the UTF-8 encoding of `c`.
pub fn char_utf8_len(c: char) -> (r: usize)
    ensures
        r == utf8_len(seq![c]),
        1 <= r <= 4,
{
    let u = c as u32;
    proof {
        reveal_with_fuel(encode_utf8, 2);
        assert(seq![c].drop_first() =~= Seq::<char>::empty());
        vstd::utf8::char_is_scalar(c);
    }
    if u <= 0x7F {
        1
    } else if u <= 0x7FF {
        2
    } else if u <= 0xFFFF {
        3
    } else {
        4
    }
}

/// Every character takes at least one byte.
pub proof fn lemma_utf8_len_at_least_chars(chars: Seq<char>)
    ensures
        chars.len() <= utf8_len(chars),
    decreases chars.len(),
{
    if chars.len() > 0 {
        lemma_utf8_len_at_least_chars(chars.drop_first());
    }
}

/// `String::insert`: inserts `ch` at byte position `idx`, which must be the end of the
/// encoding of some prefix of `s`; the string becomes that prefix, `ch`, and the rest.
/// The std documentation states that it panics off a character boundary; the string
/// must also stay within `isize::MAX` bytes, beyond which the allocation panics.
#[verifier::external_body]
fn string_insert(s: &mut String, idx: usize, ch: char)
    requires
        exists|k: int| 0 <= k <= old(s)@.len() && #[trigger] utf8_len(old(s)@.take(k)) == idx,
        utf8_len(old(s)@) + utf8_len(seq![ch]) <= isize::MAX,
    ensures
        forall|k: int|
            0 <= k <= old(s)@.len() && #[trigger] utf8_len(old(s)@.take(k)) == idx
                ==> final(s)@ == old(s)@.take(k).push(ch) + old(s)@.skip(k),
{
    s.insert(idx, ch)
}

/// A one-line text input with a cursor counted in characters, over a list of entries.
#[derive(Debug)]
pub struct ListedSearch {
    state: ComponentState,
    list: Vec<String>,
    search_text: String,
    search_text_index: usize,
}

/// What a text input holds: its entries, its text and its cursor (a character index).
pub struct SearchView {
    pub state: ComponentState,
    pub list: Seq<Seq<char>>,
    pub text: Seq<char>,
    pub cursor: nat,
}

impl SearchView {
    /// The cursor stands within the text, and the text fits in memory.
    pub open spec fn wf(self) -> bool {
        &&& self.cursor <= self.text.len()
        &&& utf8_len(self.text) <= isize::MAX
    }

    /// A position limited to the number of characters.
    pub open spec fn clamped(self, pos: int) -> int {
        if pos < 0 {
            0
        } else if pos > self.text.len() {
            self.text.len() as int
        } else {
            pos
        }
    }

    /// The byte offset in the text's UTF-8 encoding at which the cursor stands.
    pub open spec fn byte_offset(self) -> nat {
        utf8_len(self.text.take(self.cursor as int))
    }

    /// The cursor one character to the left, stopping at the start.
    pub open spec fn cursor_left(self) -> SearchView {
        SearchView { cursor: self.clamped(self.cursor - 1) as nat, ..self }
    }

    /// The cursor one character to the right, stopping at the end.
    pub open spec fn cursor_right(self) -> SearchView {
        SearchView { cursor: self.clamped(self.cursor + 1int) as nat, ..self }
    }

    /// The cursor at the start of the text.
    pub open spec fn cursor_reset(self) -> SearchView {
        SearchView { cursor: 0, ..self }
    }

    /// `c` typed at the cursor, which then stands after it.
    pub open spec fn inserted(self, c: char) -> SearchView {
        SearchView {
            text: self.text.take(self.cursor as int).push(c) + self.text.skip(self.cursor as int),
            cursor: self.cursor + 1,
            ..self
        }
    }

    /// The character before the cursor removed, the cursor moved back over it;
    /// nothing happens at the start of the text.
    pub open spec fn deleted(self) -> SearchView {
        if self.cursor == 0 {
            self
        } else {
            SearchView {
                text: self.text.take(self.cursor - 1) + self.text.skip(self.cursor as int),
                cursor: (self.cursor - 1) as nat,
                ..self
            }
        }
    }

    /// `c` can be typed without the text outgrowing `isize::MAX` bytes.
    pub open spec fn has_room(self, c: char) -> bool {
        utf8_len(self.text) + utf8_len(seq![c]) <= isize::MAX
    }

    /// The input after a key press: a character is typed, Backspace deletes,
    /// Left and Right move the cursor; other keys change nothing.
    pub open spec fn after_key(self, key: KeyInput) -> SearchView {
        match key.code {
            KeyCode::Char(c) => self.inserted(c),
            KeyCode::Backspace => self.deleted(),
            KeyCode::Left => self.cursor_left(),
            KeyCode::Right => self.cursor_right(),
            _ => self,
        }
    }

    /// A key press can be handled: typing needs room for one more character.
    pub open spec fn accepts(self, key: KeyInput) -> bool {
        match key.code {
            KeyCode::Char(c) => self.has_room(c),
            _ => true,
        }
    }

    /// The terminal cell of the cursor fits in `u16` inside `area`.
    pub open spec fn cursor_fits(self, area: Area) -> bool {
        &&& area.x + (self.cursor as u16) + 1 <= u16::MAX
        &&& area.y + 1 <= u16::MAX
    }

    /// The terminal cell of the cursor inside the bordered `area`.
    pub open spec fn cursor_cell(self, area: Area) -> (u16, u16) {
        ((area.x + (self.cursor as u16) + 1) as u16, (area.y + 1) as u16)
    }
}

impl View for ListedSearch {
    type V = SearchView;

    closed spec fn view(&self) -> SearchView {
        SearchView {
            state: self.state,
            list: self.list@.map_values(|s: String| s@),
            text: self.search_text@,
            cursor: self.search_text_index as nat,
        }
    }
}

impl ListedSearch {
    /// The cursor stands within the text, and the text fits in memory.
    #[verifier::type_invariant]
    closed spec fn inv(self) -> bool {
        self@.wf()
    }

    /// An empty input with no entries.
    pub fn new() -> (r: ListedSearch)
        ensures
            r@.state == (ComponentState { focused: false, visible: true }),
            r@.list == Seq::<Seq<char>>::empty(),
            r@.text == Seq::<char>::empty(),
            r@.cursor == 0,
            r@.wf(),
    {
        let r = ListedSearch {
            state: ComponentState::new(),
            list: vec![],
            search_text: String::new(),
            search_text_index: 0,
        };
        assert(r@.list =~= Seq::<Seq<char>>::empty());
        r
    }

    /// An empty input over the given entries.
    pub fn new_with_list(list: Vec<String>) -> (r: ListedSearch)
        ensures
            r@.state == (ComponentState { focused: false, visible: true }),
            r@.list == list@.map_values(|s: String| s@),
            r@.text == Seq::<char>::empty(),
            r@.cursor == 0,
            r@.wf(),
    {
        ListedSearch {
            list,
            search_text: String::new(),
            search_text_index: 0,
            state: ComponentState::new(),
        }
    }

    /// The text typed so far.
    pub fn search_text(&self) -> (r: &str)
        ensures
            r@ == self@.text,
    {
        self.search_text.as_str()
    }

    /// The cursor, as a character index into the text.
    pub fn search_text_index(&self) -> (r: usize)
        ensures
            r == self@.cursor,
    {
        self.search_text_index
    }

    /// Moves the cursor one character left, stopping at the start.
    pub fn move_cursor_left(&mut self)
        ensures
            final(self)@ == old(self)@.cursor_left(),
            final(self)@.wf(),
    {
        proof {
            use_type_invariant(&*self);
        }
        let cursor = self.search_text_index.saturating_sub(1);
        self.search_text_index = self.clamp_cursor(cursor);
    }

    /// Moves the cursor one character right, stopping at the end.
    pub fn move_cursor_right(&mut self)
        ensures
            final(self)@ == old(self)@.cursor_right(),
            final(self)@.wf(),
    {
        proof {
            use_type_invariant(&*self);
            lemma_utf8_len_at_least_chars(self@.text);
        }
        let cursor = self.search_text_index.saturating_add(1);
        self.search_text_index = self.clamp_cursor(cursor);
    }

    /// Inserts `new_char` at the cursor and moves the cursor past it.
    pub fn enter_char(&mut self, new_char: char)
        requires
            old(self)@.has_room(new_char),
        ensures
            final(self)@ == old(self)@.inserted(new_char),
            final(self)@.wf(),
    {
        proof {
            use_type_invariant(&*self);
        }
        let index = self.byte_index();
        let ghost before = self@;
        assert(utf8_len(before.text.take(before.cursor as int)) == index);
        // The text is edited outside the input, so that the input stays well formed
        // while it is edited; an empty input stands in meanwhile.
        let mut taken = ListedSearch::new();
        std::mem::swap(self, &mut taken);
        let ListedSearch { state, list, mut search_text, search_text_index } = taken;
        string_insert(&mut search_text, index, new_char);
        proof {
            let t = before.text;
            let k = before.cursor as int;
            assert(t.take(k) + t.skip(k) =~= t);
            lemma_utf8_len_concat(t.take(k), t.skip(k));
            lemma_utf8_len_concat(t.take(k), seq![new_char]);
            assert(t.take(k).push(new_char) =~= t.take(k) + seq![new_char]);
            lemma_utf8_len_concat(t.take(k).push(new_char), t.skip(k));
            lemma_utf8_len_single(new_char);
            assert(search_text@.len() == t.len() + 1);
        }
        *self = ListedSearch { state, list, search_text, search_text_index };
        self.move_cursor_right();
    }

    /// The cursor position limited to the number of characters.
    pub fn clamp_cursor(&mut self, new_cursor_pos: usize) -> (r: usize)
        ensures
            r == old(self)@.clamped(new_cursor_pos as int),
            *final(self) == *old(self),
    {
        let char_count = self.search_text.as_str().unicode_len();
        if new_cursor_pos > char_count {
            char_count
        } else {
            new_cursor_pos
        }
    }

    /// The byte offset in the text at which the cursor stands.
    pub fn byte_index(&self) -> (r: usize)
        ensures
            r == self@.byte_offset(),
    {
        proof {
            use_type_invariant(self);
        }
        let s = self.search_text.as_str();
        let n = s.unicode_len();
        let k = if self.search_text_index < n {
            self.search_text_index
        } else {
            n
        };
        let prefix = s.substring_char(0, k);
        proof {
            let t = self@.text;
            assert(t.take(k as int) + t.skip(k as int) =~= t);
            lemma_utf8_len_concat(t.take(k as int), t.skip(k as int));
            assert(prefix@ =~= t.take(k as int));
        }
        prefix.len()
    }

    /// Removes the character before the cursor and moves the cursor back;
    /// does nothing at the start of the text.
    pub fn delete_char(&mut self)
        ensures
            final(self)@ == old(self)@.deleted(),
            final(self)@.wf(),
    {
        proof {
            use_type_invariant(&*self);
        }
        let is_not_cursor_leftmost = self.search_text_index != 0;
        if is_not_cursor_leftmost {
            let ghost before = self@;
            let current_index = self.search_text_index;
            let from_left_to_current_index = current_index - 1;
            let s = self.search_text.as_str();
            let n = s.unicode_len();
            let mut rest = String::from_str(s.substring_char(0, from_left_to_current_index));
            rest.append(s.substring_char(current_index, n));
            // The cursor moves back over the character first, so that it stays within
            // the shorter text that replaces the old one.
            self.move_cursor_left();
            proof {
                let t = before.text;
                let k = current_index as int;
                assert(t =~= t.take(k - 1) + (seq![t[k - 1]] + t.skip(k)));
                lemma_utf8_len_concat(t.take(k - 1), seq![t[k - 1]] + t.skip(k));
                lemma_utf8_len_concat(seq![t[k - 1]], t.skip(k));
                lemma_utf8_len_concat(t.take(k - 1), t.skip(k));
                assert(rest@ =~= t.take(k - 1) + t.skip(k));
            }
            self.search_text = rest;
        }
    }

    /// Whether `c` can be typed without the text outgrowing `isize::MAX` bytes.
    pub fn has_room(&self, c: char) -> (r: bool)
        ensures
            r == self@.has_room(c),
    {
        proof {
            use_type_invariant(self);
        }
        let len = self.search_text.as_str().len();
        len <= (isize::MAX as usize) - char_utf8_len(c)
    }

    /// Gives or takes away the focus.
    pub fn set_focus(&mut self, focus: bool)
        ensures
            final(self)@ == (SearchView {
                state: ComponentState { focused: focus, ..old(self)@.state },
                ..old(self)@
            }),
    {
        proof {
            use_type_invariant(&*self);
        }
        self.state.focused = focus;
    }

    /// Whether the input has the focus.
    pub fn is_focused(&self) -> (r: bool)
        ensures
            r == self@.state.focused,
    {
        self.state.focused
    }

    /// A character is typed, Backspace deletes, Left and Right move the cursor;
    /// other keys are ignored.
    pub fn handle_key_events(&mut self, event: KeyInput) -> (r: Result<(), String>)
        requires
            old(self)@.accepts(event),
        ensures
            r is Ok,
            final(self)@ == old(self)@.after_key(event),
            final(self)@.wf(),
    {
        proof {
            use_type_invariant(&*self);
        }
        match event.code {
            KeyCode::Char(to_insert) => self.enter_char(to_insert),
            KeyCode::Backspace => self.delete_char(),
            KeyCode::Left => self.move_cursor_left(),
            KeyCode::Right => self.move_cursor_right(),
            _ => {},
        }
        Ok(())
    }

    /// The terminal cell of the cursor inside the bordered `area`.
    pub fn cursor_position(&self, area: Area) -> (r: Option<(u16, u16)>)
        requires
            self@.cursor_fits(area),
        ensures
            r == Some(self@.cursor_cell(area)),
    {
        Some((area.x + self.search_text_index as u16 + 1, area.y + 1))
    }

    /// Moves the cursor to the start of the text.
    pub fn reset_cursor(&mut self)
        ensures
            final(self)@ == old(self)@.cursor_reset(),
    {
        proof {
            use_type_invariant(&*self);
        }
        self.search_text_index = 0;
    }
}

/// Typing a character and then pressing Backspace gives the input back.
pub proof fn lemma_backspace_undoes_typing(v: SearchView, c: char)
    requires
        v.wf(),
    ensures
        v.inserted(c).deleted() == v,
{
    let w = v.inserted(c);
    let k = v.cursor as int;
    assert(w.text.take(k) =~= v.text.take(k));
    assert(w.text.skip(k + 1) =~= v.text.skip(k));
    assert(v.text.take(k) + v.text.skip(k) =~= v.text);
    assert(w.deleted().text =~= v.text);
}

/// Moving the cursor right and then left gives it back unless it stood at the end;
/// moving it left and then right gives it back unless it stood at the start.
pub proof fn lemma_cursor_moves_cancel(v: SearchView)
    requires
        v.wf(),
    ensures
        v.cursor < v.text.len() ==> v.cursor_right().cursor_left() == v,
        v.cursor > 0 ==> v.cursor_left().cursor_right() == v,
{
}

/// The cursor's byte offset lies within the text's encoding.
pub proof fn lemma_byte_offset_within_text(v: SearchView)
    requires
        v.wf(),
    ensures
        v.byte_offset() <= utf8_len(v.text),
{
    let k = v.cursor as int;
    assert(v.text.take(k) + v.text.skip(k) =~= v.text);
    lemma_utf8_len_concat(v.text.take(k), v.text.skip(k));
}

/// What each key does to a well-formed input: a character is inserted at the
/// cursor, which moves past it; Backspace removes the character before the cursor
/// and moves the cursor back over it (nothing at the start); Left and Right move the
/// cursor by one character within the text; any other key changes nothing. No key
/// changes the focus or the entries.
pub proof fn lemma_search_keys(v: SearchView, key: KeyInput)
    requires
        v.wf(),
    ensures
        v.after_key(key).state == v.state,
        v.after_key(key).list == v.list,
        match key.code {
            KeyCode::Char(c) => {
                &&& v.after_key(key).text == v.text.take(v.cursor as int) + seq![c] + v.text.skip(
                    v.cursor as int,
                )
                &&& v.after_key(key).cursor == v.cursor + 1
            },
            KeyCode::Backspace => if v.cursor == 0 {
                v.after_key(key) == v
            } else {
                &&& v.after_key(key).text == v.text.take(v.cursor - 1) + v.text.skip(v.cursor as int)
                &&& v.after_key(key).cursor == v.cursor - 1
            },
            KeyCode::Left => {
                &&& v.after_key(key).text == v.text
                &&& v.after_key(key).cursor == if v.cursor == 0 {
                    0
                } else {
                    v.cursor - 1
                }
            },
            KeyCode::Right => {
                &&& v.after_key(key).text == v.text
                &&& v.after_key(key).cursor == if v.cursor < v.text.len() {
                    v.cursor + 1
                } else {
                    v.text.len()
                }
            },
            _ => v.after_key(key) == v,
        },
{
    match key.code {
        KeyCode::Char(c) => {
            let k = v.cursor as int;
            assert(v.text.take(k).push(c) + v.text.skip(k) =~= v.text.take(k) + seq![c] + v.text.skip(k));
        },
        _ => {},
    }
}

/// The terminal cursor of an input stands one cell inside the area's border, after
/// as many cells as there are characters before the cursor, however many bytes
/// those characters take.
pub proof fn lemma_cursor_cell_counts_chars(v: SearchView, area: Area)
    requires
        v.wf(),
        v.cursor <= u16::MAX,
        v.cursor_fits(area),
    ensures
        v.cursor_cell(area).0 == area.x + 1 + v.text.take(v.cursor as int).len(),
        v.cursor_cell(area).1 == area.y + 1,
{
    assert((v.cursor as u16) == v.cursor);
}

} // verus!
