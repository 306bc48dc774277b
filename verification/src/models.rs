use vstd::prelude::*;
use crate::text::{begins_with, contains_seq, lemma_contains_by_search, lower_code, occurs_from};

verus! {

/// The downloadable Eru models offered by the setup wizard.
#[derive(Debug, Clone, Copy, PartialEq, Eq, Structural)]
pub enum EruModel {
    /// Full Strium - NOT RECOMMENDED. Full system access. Dangerous.
    FullStrium,
    /// Assistant/Friend - RECOMMENDED. Caring companion mode.
    Assistant,
    /// Terminal-Eru - For devs who want to edit the model / open-source coding helper.
    TerminalEru,
    /// Exathry - Fast-lite. Kinda recommended.
    Exathry,
    /// Avl-Eru - Fastest of all Eru models.
    AvlEru,
}

/// The key that selects a model, case-insensitively for letters.
pub open spec fn model_for_key(key: char) -> Option<EruModel> {
    if key == 'p' || key == 'P' {
        Some(EruModel::FullStrium)
    } else if key == 'u' || key == 'U' {
        Some(EruModel::Assistant)
    } else if key == 'q' || key == 'Q' {
        Some(EruModel::TerminalEru)
    } else if key == 'z' || key == 'Z' {
        Some(EruModel::Exathry)
    } else if key == '2' {
        Some(EruModel::AvlEru)
    } else {
        None
    }
}

/// The menu line shown for a model.
pub open spec fn model_label(m: EruModel) -> Seq<char> {
    match m {
        EruModel::FullStrium => "A. Full Strium (p)         NOT RECOMMENDED - full system access!"@,
        EruModel::Assistant => "B. Assistant/Friend (u)    RECOMMENDED - new friend yay :D"@,
        EruModel::TerminalEru => "C. Terminal-Eru (q)        For editing model / coding helper"@,
        EruModel::Exathry => "D. Exathry (z)             Kinda recommended - fast-lite"@,
        EruModel::AvlEru => "E. Avl-Eru (2)             Most fastest of all Eru models"@,
    }
}

/// Download size of a model, in megabytes.
pub open spec fn model_size_mb(m: EruModel) -> u64 {
    match m {
        EruModel::FullStrium => 2400,
        EruModel::Assistant => 380,
        EruModel::TerminalEru => 520,
        EruModel::Exathry => 180,
        EruModel::AvlEru => 95,
    }
}

impl EruModel {
    /// Maps a menu key to its model; letters match in either case.
    pub fn from_key(key: char) -> (r: Option<EruModel>)
        ensures
            r == model_for_key(key),
    {
        match key {
            'p' | 'P' => Some(EruModel::FullStrium),
            'u' | 'U' => Some(EruModel::Assistant),
            'q' | 'Q' => Some(EruModel::TerminalEru),
            'z' | 'Z' => Some(EruModel::Exathry),
            '2' => Some(EruModel::AvlEru),
            _ => None,
        }
    }

    /// The menu line for this model.
    pub fn label(&self) -> (r: &'static str)
        ensures
            r@ == model_label(*self),
    {
        match self {
            EruModel::FullStrium => "A. Full Strium (p)         NOT RECOMMENDED - full system access!",
            EruModel::Assistant => "B. Assistant/Friend (u)    RECOMMENDED - new friend yay :D",
            EruModel::TerminalEru => "C. Terminal-Eru (q)        For editing model / coding helper",
            EruModel::Exathry => "D. Exathry (z)             Kinda recommended - fast-lite",
            EruModel::AvlEru => "E. Avl-Eru (2)             Most fastest of all Eru models",
        }
    }

    /// Download size in megabytes.
    pub fn download_size_mb(&self) -> (r: u64)
        ensures
            r == model_size_mb(*self),
    {
        match self {
            EruModel::FullStrium => 2400,
            EruModel::Assistant => 380,
            EruModel::TerminalEru => 520,
            EruModel::Exathry => 180,
            EruModel::AvlEru => 95,
        }
    }

    /// Only Full Strium grants full system access.
    pub fn is_dangerous(&self) -> (r: bool)
        ensures
            r <==> *self == EruModel::FullStrium,
    {
        match self {
            EruModel::FullStrium => true,
            _ => false,
        }
    }
}

/// The letter of a model's line in the menu.
pub open spec fn menu_letter(m: EruModel) -> char {
    match m {
        EruModel::FullStrium => 'A',
        EruModel::Assistant => 'B',
        EruModel::TerminalEru => 'C',
        EruModel::Exathry => 'D',
        EruModel::AvlEru => 'E',
    }
}

proof fn lemma_no_danger_marker_assistant()
    ensures
        !contains_seq(model_label(EruModel::Assistant), "NOT RECOMMENDED"@),
{
    reveal_strlit("B. Assistant/Friend (u)    RECOMMENDED - new friend yay :D");
    reveal_strlit("NOT RECOMMENDED");
    lemma_contains_by_search(model_label(EruModel::Assistant), "NOT RECOMMENDED"@);
    reveal_with_fuel(begins_with, 3);
    reveal_with_fuel(occurs_from, 64);
}

proof fn lemma_no_danger_marker_terminaleru()
    ensures
        !contains_seq(model_label(EruModel::TerminalEru), "NOT RECOMMENDED"@),
{
    reveal_strlit("C. Terminal-Eru (q)        For editing model / coding helper");
    reveal_strlit("NOT RECOMMENDED");
    lemma_contains_by_search(model_label(EruModel::TerminalEru), "NOT RECOMMENDED"@);
    reveal_with_fuel(begins_with, 3);
    reveal_with_fuel(occurs_from, 64);
}

proof fn lemma_no_danger_marker_exathry()
    ensures
        !contains_seq(model_label(EruModel::Exathry), "NOT RECOMMENDED"@),
{
    reveal_strlit("D. Exathry (z)             Kinda recommended - fast-lite");
    reveal_strlit("NOT RECOMMENDED");
    lemma_contains_by_search(model_label(EruModel::Exathry), "NOT RECOMMENDED"@);
    reveal_with_fuel(begins_with, 3);
    reveal_with_fuel(occurs_from, 64);
}

proof fn lemma_no_danger_marker_avleru()
    ensures
        !contains_seq(model_label(EruModel::AvlEru), "NOT RECOMMENDED"@),
{
    reveal_strlit("E. Avl-Eru (2)             Most fastest of all Eru models");
    reveal_strlit("NOT RECOMMENDED");
    lemma_contains_by_search(model_label(EruModel::AvlEru), "NOT RECOMMENDED"@);
    reveal_with_fuel(begins_with, 3);
    reveal_with_fuel(occurs_from, 64);
}

/// The menu lines: each begins with its letter, `A.` to `E.` in declaration
/// order; only the dangerous model is marked `NOT RECOMMENDED`; the Assistant
/// is marked `RECOMMENDED`; and no two models share a line.
pub proof fn law_model_labels(m: EruModel, other: EruModel)
    ensures
        model_label(m).take(3) == seq![menu_letter(m), '.', ' '],
        contains_seq(model_label(m), "NOT RECOMMENDED"@) <==> m == EruModel::FullStrium,
        contains_seq(model_label(EruModel::Assistant), "RECOMMENDED"@),
        m != other ==> model_label(m) != model_label(other),
{
    reveal_strlit("A. Full Strium (p)         NOT RECOMMENDED - full system access!");
    reveal_strlit("B. Assistant/Friend (u)    RECOMMENDED - new friend yay :D");
    reveal_strlit("C. Terminal-Eru (q)        For editing model / coding helper");
    reveal_strlit("D. Exathry (z)             Kinda recommended - fast-lite");
    reveal_strlit("E. Avl-Eru (2)             Most fastest of all Eru models");
    reveal_strlit("NOT RECOMMENDED");
    reveal_strlit("RECOMMENDED");
    assert(model_label(m).take(3) =~= seq![menu_letter(m), '.', ' ']);
    assert(model_label(m)[0] == menu_letter(m));
    assert(model_label(other)[0] == menu_letter(other));
    let full = model_label(EruModel::FullStrium);
    assert(full.subrange(27, 27int + "NOT RECOMMENDED"@.len()) =~= "NOT RECOMMENDED"@);
    let assistant = model_label(EruModel::Assistant);
    assert(assistant.subrange(27, 27int + "RECOMMENDED"@.len()) =~= "RECOMMENDED"@);
    lemma_no_danger_marker_assistant();
    lemma_no_danger_marker_terminaleru();
    lemma_no_danger_marker_exathry();
    lemma_no_danger_marker_avleru();
}

/// The key a model's menu line shows in parentheses.
pub open spec fn shows_key(m: EruModel, c: char) -> bool {
    contains_seq(model_label(m), seq!['(', c, ')'])
}

proof fn lemma_shown_key_fullstrium(c: char)
    ensures
        contains_seq(model_label(EruModel::FullStrium), seq!['(', c, ')']) <==> c == 'p',
{
    reveal_strlit("A. Full Strium (p)         NOT RECOMMENDED - full system access!");
    let l = model_label(EruModel::FullStrium);
    let n = seq!['(', c, ')'];
    if c == 'p' {
        assert(l.subrange(15, 15int + n.len()) =~= n);
    }
    lemma_contains_by_search(l, n);
    reveal_with_fuel(begins_with, 3);
    reveal_with_fuel(occurs_from, 64);
}

proof fn lemma_shown_key_assistant(c: char)
    ensures
        contains_seq(model_label(EruModel::Assistant), seq!['(', c, ')']) <==> c == 'u',
{
    reveal_strlit("B. Assistant/Friend (u)    RECOMMENDED - new friend yay :D");
    let l = model_label(EruModel::Assistant);
    let n = seq!['(', c, ')'];
    if c == 'u' {
        assert(l.subrange(20, 20int + n.len()) =~= n);
    }
    lemma_contains_by_search(l, n);
    reveal_with_fuel(begins_with, 3);
    reveal_with_fuel(occurs_from, 64);
}

proof fn lemma_shown_key_terminaleru(c: char)
    ensures
        contains_seq(model_label(EruModel::TerminalEru), seq!['(', c, ')']) <==> c == 'q',
{
    reveal_strlit("C. Terminal-Eru (q)        For editing model / coding helper");
    let l = model_label(EruModel::TerminalEru);
    let n = seq!['(', c, ')'];
    if c == 'q' {
        assert(l.subrange(16, 16int + n.len()) =~= n);
    }
    lemma_contains_by_search(l, n);
    reveal_with_fuel(begins_with, 3);
    reveal_with_fuel(occurs_from, 64);
}

proof fn lemma_shown_key_exathry(c: char)
    ensures
        contains_seq(model_label(EruModel::Exathry), seq!['(', c, ')']) <==> c == 'z',
{
    reveal_strlit("D. Exathry (z)             Kinda recommended - fast-lite");
    let l = model_label(EruModel::Exathry);
    let n = seq!['(', c, ')'];
    if c == 'z' {
        assert(l.subrange(11, 11int + n.len()) =~= n);
    }
    lemma_contains_by_search(l, n);
    reveal_with_fuel(begins_with, 3);
    reveal_with_fuel(occurs_from, 64);
}

proof fn lemma_shown_key_avleru(c: char)
    ensures
        contains_seq(model_label(EruModel::AvlEru), seq!['(', c, ')']) <==> c == '2',
{
    reveal_strlit("E. Avl-Eru (2)             Most fastest of all Eru models");
    let l = model_label(EruModel::AvlEru);
    let n = seq!['(', c, ')'];
    if c == '2' {
        assert(l.subrange(11, 11int + n.len()) =~= n);
    }
    lemma_contains_by_search(l, n);
    reveal_with_fuel(begins_with, 3);
    reveal_with_fuel(occurs_from, 64);
}

proof fn lemma_shown_keys(m: EruModel, c: char)
    ensures
        shows_key(m, c) <==> c == match m {
            EruModel::FullStrium => 'p',
            EruModel::Assistant => 'u',
            EruModel::TerminalEru => 'q',
            EruModel::Exathry => 'z',
            EruModel::AvlEru => '2',
        },
{
    match m {
        EruModel::FullStrium => lemma_shown_key_fullstrium(c),
        EruModel::Assistant => lemma_shown_key_assistant(c),
        EruModel::TerminalEru => lemma_shown_key_terminaleru(c),
        EruModel::Exathry => lemma_shown_key_exathry(c),
        EruModel::AvlEru => lemma_shown_key_avleru(c),
    }
}

/// A key selects a model only if the model's menu line shows that key, in
/// lower case, in parentheses; every key a menu line shows selects its model;
/// and a capital letter selects what its lower-case letter selects.
pub proof fn law_keys_are_the_shown_keys(k: char, m: EruModel)
    ensures
        model_for_key(k) == Some(m) ==> shows_key(m, lower_code(k) as char),
        shows_key(m, k) ==> model_for_key(k) == Some(m),
        'A' <= k <= 'Z' ==> model_for_key(k) == model_for_key(lower_code(k) as char),
{
    lemma_shown_keys(m, k);
    lemma_shown_keys(m, lower_code(k) as char);
}

} // verus!
