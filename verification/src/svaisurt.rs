use vstd::prelude::*;
use crate::setup::Personalization;
use crate::text::push_char;

verus! {

/// The number of fields the personalisation editor edits.
pub const FIELD_COUNT: usize = 4;

/// The prompt of each field, in editing order: tone, humour level, formality
/// and custom instructions.
pub open spec fn field_prompt(i: int) -> Seq<char> {
    if i == 0 {
        "Tone (e.g., calm, chaotic, warm, dry)"@
    } else if i == 1 {
        "Humor level (none / subtle / lanang / unhinged)"@
    } else if i == 2 {
        "Formality (casual / neutral / formal / poetic)"@
    } else {
        "Custom instructions (anything extra)"@
    }
}

/// The prompt of a field.
pub fn field_label(i: usize) -> (r: &'static str)
    requires
        i < FIELD_COUNT,
    ensures
        r@ == field_prompt(i as int),
{
    if i == 0 {
        "Tone (e.g., calm, chaotic, warm, dry)"
    } else if i == 1 {
        "Humor level (none / subtle / lanang / unhinged)"
    } else if i == 2 {
        "Formality (casual / neutral / formal / poetic)"
    } else {
        "Custom instructions (anything extra)"
    }
}

/// A key press, as far as the editor tells keys apart.
#[derive(Debug, Clone, Copy, PartialEq, Eq, Structural)]
pub enum EditorKey {
    Esc,
    Tab,
    Enter,
    Backspace,
    Char(char),
    Other,
}

/// What the editor holds: the text of each field and the field being edited.
pub struct EditorView {
    pub values: Seq<Seq<char>>,
    pub current: int,
}

/// The editor after one key: Tab and Enter move to the next field, wrapping
/// around; Backspace removes the last character of the current field; a
/// character is appended to it; Esc and other keys change nothing.
pub open spec fn apply_key(v: EditorView, key: EditorKey) -> EditorView {
    match key {
        EditorKey::Tab | EditorKey::Enter => EditorView {
            values: v.values,
            current: (v.current + 1) % (FIELD_COUNT as int),
        },
        EditorKey::Backspace => {
            let s = v.values[v.current];
            EditorView {
                values: v.values.update(
                    v.current,
                    if s.len() > 0 {
                        s.drop_last()
                    } else {
                        s
                    },
                ),
                current: v.current,
            }
        },
        EditorKey::Char(c) => EditorView {
            values: v.values.update(v.current, v.values[v.current].push(c)),
            current: v.current,
        },
        _ => v,
    }
}

/// A well-formed editor state: four fields, and the current one among them.
pub open spec fn editor_wf(v: EditorView) -> bool {
    v.values.len() == FIELD_COUNT && 0 <= v.current < FIELD_COUNT
}

/// The personalisation editor: one text per field and the field being
/// edited. Esc ends the editing.
pub struct SvisurtEditor {
    values: Vec<String>,
    current: usize,
}

/// Removes the last character of a string and returns it.
/// Trusted: `String::pop` removes the last character and returns it, or
/// returns `None` and leaves the string alone when it is empty.
#[verifier::external_body]
fn pop_char(s: &mut String) -> (r: Option<char>)
    ensures
        old(s)@.len() == 0 ==> r is None && final(s)@ == old(s)@,
        old(s)@.len() > 0 ==> r == Some(old(s)@.last()) && final(s)@ == old(s)@.drop_last(),
{
    s.pop()
}

/// Four empty texts.
fn blank_fields() -> (r: Vec<String>)
    ensures
        r@.len() == FIELD_COUNT,
        forall|i: int| 0 <= i < FIELD_COUNT ==> (#[trigger] r@[i])@.len() == 0,
{
    let mut values: Vec<String> = Vec::new();
    let mut i: usize = 0;
    while i < FIELD_COUNT
        invariant
            i <= FIELD_COUNT,
            values@.len() == i,
            forall|j: int| 0 <= j < i ==> (#[trigger] values@[j])@.len() == 0,
        decreases FIELD_COUNT - i,
    {
        values.push(String::new());
        i = i + 1;
    }
    values
}

impl View for SvisurtEditor {
    type V = EditorView;

    closed spec fn view(&self) -> EditorView {
        EditorView { values: self.values.deep_view(), current: self.current as int }
    }
}

impl SvisurtEditor {
    /// Four fields, and the current one among them.
    #[verifier::type_invariant]
    spec fn well_formed(&self) -> bool {
        self.values@.len() == FIELD_COUNT && self.current < FIELD_COUNT
    }

    /// An editor with four empty fields, editing the first.
    pub fn new() -> (r: SvisurtEditor)
        ensures
            editor_wf(r@),
            r@.current == 0,
            forall|i: int| 0 <= i < FIELD_COUNT ==> (#[trigger] r@.values[i]).len() == 0,
    {
        let values = blank_fields();
        SvisurtEditor { values, current: 0 }
    }

    /// The field being edited.
    pub fn current_field(&self) -> (r: usize)
        ensures
            r == self@.current,
            editor_wf(self@),
    {
        proof {
            use_type_invariant(self);
        }
        self.current
    }

    /// The text of a field.
    pub fn value(&self, i: usize) -> (r: &String)
        requires
            i < FIELD_COUNT,
        ensures
            r@ == self@.values[i as int],
    {
        proof {
            use_type_invariant(self);
        }
        &self.values[i]
    }

    /// Takes one key; true when it ends the editing.
    pub fn handle_key(&mut self, key: EditorKey) -> (done: bool)
        ensures
            editor_wf(final(self)@),
            final(self)@ == apply_key(old(self)@, key),
            done == (key == EditorKey::Esc),
    {
        proof {
            use_type_invariant(&*self);
        }
        let ghost before = self.values.deep_view();
        match key {
            EditorKey::Esc => {
                return true;
            },
            EditorKey::Tab | EditorKey::Enter => {
                self.current = (self.current + 1) % FIELD_COUNT;
            },
            EditorKey::Backspace => {
                let mut values = blank_fields();
                std::mem::swap(&mut values, &mut self.values);
                let mut s = String::new();
                values.set_and_swap(self.current, &mut s);
                let _ = pop_char(&mut s);
                values.set_and_swap(self.current, &mut s);
                std::mem::swap(&mut values, &mut self.values);
                assert(self.values.deep_view() =~= apply_key(
                    EditorView { values: before, current: self.current as int },
                    key,
                ).values);
            },
            EditorKey::Char(c) => {
                let mut values = blank_fields();
                std::mem::swap(&mut values, &mut self.values);
                let mut s = String::new();
                values.set_and_swap(self.current, &mut s);
                push_char(&mut s, c);
                values.set_and_swap(self.current, &mut s);
                std::mem::swap(&mut values, &mut self.values);
                assert(self.values.deep_view() =~= apply_key(
                    EditorView { values: before, current: self.current as int },
                    key,
                ).values);
            },
            EditorKey::Other => {},
        }
        false
    }

    /// The personalisation the fields spell out, in field order.
    pub fn into_personalization(self) -> (r: Personalization)
        ensures
            r.tone@ == self@.values[0],
            r.humor_level@ == self@.values[1],
            r.formality@ == self@.values[2],
            r.custom_instructions@ == self@.values[3],
    {
        proof {
            use_type_invariant(&self);
        }
        Personalization {
            tone: self.values[0].clone(),
            humor_level: self.values[1].clone(),
            formality: self.values[2].clone(),
            custom_instructions: self.values[3].clone(),
        }
    }
}

// ---------------------------------------------------------------------------
// Laws of the editor
// ---------------------------------------------------------------------------

/// Every key keeps the editor well formed.
pub proof fn law_key_keeps_wf(v: EditorView, key: EditorKey)
    requires
        editor_wf(v),
    ensures
        editor_wf(apply_key(v, key)),
{
}

/// A key only ever changes the field being edited.
pub proof fn law_key_touches_current_field_only(v: EditorView, key: EditorKey, i: int)
    requires
        editor_wf(v),
        0 <= i < FIELD_COUNT,
        i != v.current,
    ensures
        apply_key(v, key).values[i] == v.values[i],
{
}

/// Backspace undoes a typed character.
pub proof fn law_backspace_undoes_char(v: EditorView, c: char)
    requires
        editor_wf(v),
    ensures
        apply_key(apply_key(v, EditorKey::Char(c)), EditorKey::Backspace) == v,
{
    let typed = apply_key(v, EditorKey::Char(c));
    assert(typed.values[v.current].drop_last() =~= v.values[v.current]);
    assert(apply_key(typed, EditorKey::Backspace).values =~= v.values);
}

/// Moving to the next field as many times as there are fields comes back to
/// the same field, with every text unchanged.
pub proof fn law_next_field_cycles(v: EditorView)
    requires
        editor_wf(v),
    ensures
        apply_key(apply_key(apply_key(apply_key(v, EditorKey::Tab), EditorKey::Tab), EditorKey::Tab),
            EditorKey::Tab) == v,
{
}

/// Esc changes nothing.
pub proof fn law_esc_changes_nothing(v: EditorView)
    ensures
        apply_key(v, EditorKey::Esc) == v,
{
}

/// The editor after typing each character of `text`, in order.
pub open spec fn type_text(v: EditorView, text: Seq<char>) -> EditorView
    decreases text.len(),
{
    if text.len() == 0 {
        v
    } else {
        apply_key(type_text(v, text.drop_last()), EditorKey::Char(text.last()))
    }
}

/// A typed character is appended, unchanged, to the field being edited; the
/// field stays the current one and the other fields keep their text.
pub proof fn law_typed_char_is_appended(v: EditorView, c: char)
    requires
        editor_wf(v),
    ensures
        apply_key(v, EditorKey::Char(c)).values[v.current] == v.values[v.current].push(c),
        apply_key(v, EditorKey::Char(c)).values[v.current].last() == c,
        apply_key(v, EditorKey::Char(c)).current == v.current,
        apply_key(v, EditorKey::Char(c)).values.len() == v.values.len(),
{
}

/// Typing a text appends exactly that text to the field being edited.
pub proof fn law_typing_appends_text(v: EditorView, text: Seq<char>)
    requires
        editor_wf(v),
    ensures
        type_text(v, text).values[v.current] == v.values[v.current] + text,
        type_text(v, text).current == v.current,
        editor_wf(type_text(v, text)),
        forall|i: int| 0 <= i < FIELD_COUNT && i != v.current ==> #[trigger] type_text(v, text).values[i] == v.values[i],
    decreases text.len(),
{
    if text.len() > 0 {
        law_typing_appends_text(v, text.drop_last());
        assert(v.values[v.current] + text =~= (v.values[v.current] + text.drop_last()).push(text.last()));
    } else {
        assert(v.values[v.current] + text =~= v.values[v.current]);
    }
}

/// Backspace removes the last character of the field being edited, if it
/// has one, and leaves everything else as it was.
pub proof fn law_backspace_removes_last_char(v: EditorView)
    requires
        editor_wf(v),
    ensures
        v.values[v.current].len() > 0 ==> apply_key(v, EditorKey::Backspace).values[v.current]
            == v.values[v.current].subrange(0, v.values[v.current].len() - 1),
        v.values[v.current].len() == 0 ==> apply_key(v, EditorKey::Backspace) == v,
        apply_key(v, EditorKey::Backspace).current == v.current,
{
    assert(v.values.update(v.current, v.values[v.current]) =~= v.values);
}

/// Tab and Enter move to the next field, after the last back to the first,
/// and change no text.
pub proof fn law_next_field_moves_on(v: EditorView)
    requires
        editor_wf(v),
    ensures
        apply_key(v, EditorKey::Tab).current == if v.current + 1 == FIELD_COUNT {
            0
        } else {
            v.current + 1
        },
        apply_key(v, EditorKey::Enter) == apply_key(v, EditorKey::Tab),
        apply_key(v, EditorKey::Tab).values == v.values,
{
}

} // verus!
