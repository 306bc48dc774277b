use vstd::prelude::*;
use crate::fetcher::{parse_read_command, read_command_url};
use crate::text::{chars_of, contains_seq, eq_ignore_ascii_case_char, lower_code, trim, trim_str};

verus! {

/// What a line typed in a session asks for.
pub enum SessionInput {
    /// Nothing but whitespace.
    Empty,
    /// `exit` or `quit`, in any ASCII case.
    Exit,
    /// The user says the companion is wrong.
    Correction,
    /// A `[read:<url>]` command, with its URL.
    Read(String),
    /// Anything else, trimmed: a question the companion has no context for.
    Query(String),
}

/// `a` and `b` are equal up to ASCII case.
pub open spec fn eq_ignore_ascii_case(a: Seq<char>, b: Seq<char>) -> bool {
    a.len() == b.len() && forall|i: int| 0 <= i < a.len() ==> lower_code(#[trigger] a[i]) == lower_code(b[i])
}

/// A lower-cased line that says the companion got something wrong.
pub open spec fn says_correction(lowered: Seq<char>) -> bool {
    contains_seq(lowered, "wrong"@) || contains_seq(lowered, "salah"@) || contains_seq(
        lowered,
        "correction"@,
    )
}

/// What `str::to_lowercase` makes of a string.
pub uninterp spec fn lowercase(s: Seq<char>) -> Seq<char>;

/// Trusted: calls `str::to_lowercase`, the Unicode lower-casing of the whole
/// string; the result is named `lowercase` and nothing more is claimed of it.
#[verifier::external_body]
fn to_lowercase(s: &str) -> (r: String)
    ensures
        r@ == lowercase(s@),
{
    s.to_lowercase()
}

/// What a typed line asks for, as values.
pub enum InputKind {
    Empty,
    Exit,
    Correction,
    Read(Seq<char>),
    Query(Seq<char>),
}

impl View for SessionInput {
    type V = InputKind;

    open spec fn view(&self) -> InputKind {
        match self {
            SessionInput::Empty => InputKind::Empty,
            SessionInput::Exit => InputKind::Exit,
            SessionInput::Correction => InputKind::Correction,
            SessionInput::Read(u) => InputKind::Read(u@),
            SessionInput::Query(q) => InputKind::Query(q@),
        }
    }
}

/// What a typed line asks for: blank lines are empty, `exit` and `quit` end
/// the session, a mention of `wrong`, `salah` or `correction` in any case is a
/// correction, then a `[read:<url>]` command, else a query. Everything is
/// judged on the trimmed line.
pub open spec fn classify(line: Seq<char>) -> InputKind {
    let t = trim(line);
    if t.len() == 0 {
        InputKind::Empty
    } else if eq_ignore_ascii_case(t, "exit"@) || eq_ignore_ascii_case(t, "quit"@) {
        InputKind::Exit
    } else if says_correction(lowercase(t)) {
        InputKind::Correction
    } else {
        match read_command_url(t) {
            Some(u) => InputKind::Read(u),
            None => InputKind::Query(t),
        }
    }
}

/// Whether `cs` equals `word` up to ASCII case.
fn equals_ignoring_ascii_case(cs: &Vec<char>, word: &str) -> (r: bool)
    ensures
        r == eq_ignore_ascii_case(cs@, word@),
{
    let w = chars_of(word);
    if cs.len() != w.len() {
        return false;
    }
    let mut i: usize = 0;
    while i < cs.len()
        invariant
            i <= cs@.len(),
            cs@.len() == w@.len(),
            w@ == word@,
            forall|j: int| 0 <= j < i ==> lower_code(#[trigger] cs@[j]) == lower_code(w@[j]),
        decreases cs.len() - i,
    {
        if !eq_ignore_ascii_case_char(cs[i], w[i]) {
            return false;
        }
        i = i + 1;
    }
    true
}

/// Whether `word` occurs in `cs`.
fn contains_word(cs: &Vec<char>, word: &str) -> (r: bool)
    ensures
        r == contains_seq(cs@, word@),
{
    let w = chars_of(word);
    if w.len() > cs.len() {
        return false;
    }
    let mut i: usize = 0;
    while i <= cs.len() - w.len()
        invariant
            w@ == word@,
            w@.len() <= cs@.len(),
            i <= cs@.len() - w@.len() + 1,
            forall|k: int| 0 <= k < i ==> #[trigger] cs@.subrange(k, k + w@.len()) != w@,
        decreases cs.len() - w.len() + 1 - i,
    {
        let mut j: usize = 0;
        let mut same = true;
        while j < w.len()
            invariant
                w@.len() <= cs@.len(),
                i + w@.len() <= cs@.len(),
                cs@.len() == cs.len(),
                j <= w@.len(),
                same == forall|m: int| 0 <= m < j ==> cs@[i + m] == w@[m],
            decreases w.len() - j,
        {
            if cs[i + j] != w[j] {
                same = false;
            }
            j = j + 1;
        }
        if same {
            assert(cs@.subrange(i as int, i + w@.len()) =~= w@);
            return true;
        }
        proof {
            let m = choose|m: int| 0 <= m < w@.len() && cs@[i + m] != w@[m];
            assert(cs@.subrange(i as int, i + w@.len())[m] != w@[m]);
        }
        i = i + 1;
    }
    false
}

/// Whether a lower-cased line says the companion got something wrong.
pub fn mentions_correction(lowered: &str) -> (r: bool)
    ensures
        r == says_correction(lowered@),
{
    let cs = chars_of(lowered);
    contains_word(&cs, "wrong") || contains_word(&cs, "salah") || contains_word(&cs, "correction")
}

/// Decides what a typed line asks for.
pub fn classify_input(line: &str) -> (r: SessionInput)
    ensures
        r@ == classify(line@),
{
    let trimmed = trim_str(line);
    let cs = chars_of(trimmed.as_str());
    if cs.len() == 0 {
        return SessionInput::Empty;
    }
    if equals_ignoring_ascii_case(&cs, "exit") || equals_ignoring_ascii_case(&cs, "quit") {
        return SessionInput::Exit;
    }
    let lowered = to_lowercase(trimmed.as_str());
    if mentions_correction(lowered.as_str()) {
        return SessionInput::Correction;
    }
    match parse_read_command(trimmed.as_str()) {
        Some(url) => SessionInput::Read(url),
        None => SessionInput::Query(trimmed),
    }
}

/// Whitespace around a line does not change what it asks for.
pub proof fn law_surrounding_whitespace_is_ignored(line: Seq<char>)
    ensures
        classify(trim(line)) == classify(line),
{
    crate::text::law_trim_idempotent(line);
}

} // verus!
