use vstd::prelude::*;

verus! {

// ---------------------------------------------------------------------------
// Character classes
// ---------------------------------------------------------------------------

/// Unicode `White_Space`: the characters that `char::is_whitespace` accepts,
/// and hence the separators of `str::split_whitespace` and `str::trim`.
pub open spec fn is_ws(c: char) -> bool {
    let u = c as u32;
    ||| 0x09 <= u <= 0x0D
    ||| u == 0x20
    ||| u == 0x85
    ||| u == 0xA0
    ||| u == 0x1680
    ||| 0x2000 <= u <= 0x200A
    ||| u == 0x2028
    ||| u == 0x2029
    ||| u == 0x202F
    ||| u == 0x205F
    ||| u == 0x3000
}

/// An ASCII decimal digit.
pub open spec fn is_digit(c: char) -> bool {
    '0' <= c <= '9'
}

/// The code of a character after ASCII lower-casing; other characters keep
/// their code.
pub open spec fn lower_code(c: char) -> u32 {
    if 'A' <= c <= 'Z' {
        (c as u32 + 32) as u32
    } else {
        c as u32
    }
}

/// Whether a character is Unicode whitespace.
pub fn is_whitespace(c: char) -> (r: bool)
    ensures
        r == is_ws(c),
{
    let u = c as u32;
    (0x09 <= u && u <= 0x0D) || u == 0x20 || u == 0x85 || u == 0xA0 || u == 0x1680 || (0x2000
        <= u && u <= 0x200A) || u == 0x2028 || u == 0x2029 || u == 0x202F || u == 0x205F || u
        == 0x3000
}

/// Whether a character is an ASCII decimal digit.
pub fn is_ascii_digit(c: char) -> (r: bool)
    ensures
        r == is_digit(c),
{
    '0' <= c && c <= '9'
}

/// Whether two characters are equal up to ASCII case.
pub fn eq_ignore_ascii_case_char(a: char, b: char) -> (r: bool)
    ensures
        r == (lower_code(a) == lower_code(b)),
{
    let la = if 'A' <= a && a <= 'Z' { a as u32 + 32 } else { a as u32 };
    let lb = if 'A' <= b && b <= 'Z' { b as u32 + 32 } else { b as u32 };
    la == lb
}

// ---------------------------------------------------------------------------
// Strings as character sequences
// ---------------------------------------------------------------------------

/// Appends one character to a string.
/// Trusted: `String::push` appends the given char to the end of the string.
#[verifier::external_body]
pub(crate) fn push_char(s: &mut String, c: char)
    ensures
        final(s)@ == old(s)@.push(c),
{
    s.push(c);
}

/// The characters of a string, in order.
pub fn chars_of(s: &str) -> (r: Vec<char>)
    ensures
        r@ == s@,
{
    let mut v: Vec<char> = Vec::new();
    for c in it: s.chars()
        invariant
            v@ == it.seq().take(it.index()),
    {
        v.push(c);
    }
    v
}

/// The string made of `cs[lo..hi]`.
pub fn string_from(cs: &Vec<char>, lo: usize, hi: usize) -> (r: String)
    requires
        lo <= hi <= cs@.len(),
    ensures
        r@ == cs@.subrange(lo as int, hi as int),
{
    let mut out = String::new();
    let mut i = lo;
    while i < hi
        invariant
            lo <= i <= hi <= cs@.len(),
            out@ == cs@.subrange(lo as int, i as int),
        decreases hi - i,
    {
        push_char(&mut out, cs[i]);
        assert(cs@.subrange(lo as int, i + 1) =~= cs@.subrange(lo as int, i as int).push(cs@[i as int]));
        i = i + 1;
    }
    out
}

// ---------------------------------------------------------------------------
// Trimming
// ---------------------------------------------------------------------------

/// `s` without its leading whitespace.
pub open spec fn trim_start(s: Seq<char>) -> Seq<char>
    decreases s.len(),
{
    if s.len() > 0 && is_ws(s[0]) {
        trim_start(s.drop_first())
    } else {
        s
    }
}

/// `s` without its trailing whitespace.
pub open spec fn trim_end(s: Seq<char>) -> Seq<char>
    decreases s.len(),
{
    if s.len() > 0 && is_ws(s.last()) {
        trim_end(s.drop_last())
    } else {
        s
    }
}

/// `s` without leading and trailing whitespace, as `str::trim` gives it.
pub open spec fn trim(s: Seq<char>) -> Seq<char> {
    trim_end(trim_start(s))
}

/// The bounds of `trim(cs[lo..hi])` inside `cs`.
pub fn trim_bounds(cs: &Vec<char>, lo: usize, hi: usize) -> (r: (usize, usize))
    requires
        lo <= hi <= cs@.len(),
    ensures
        lo <= r.0 <= r.1 <= hi,
        cs@.subrange(r.0 as int, r.1 as int) == trim(cs@.subrange(lo as int, hi as int)),
{
    let mut a = lo;
    while a < hi && is_whitespace(cs[a])
        invariant
            lo <= a <= hi <= cs@.len(),
            trim_start(cs@.subrange(lo as int, hi as int)) == trim_start(
                cs@.subrange(a as int, hi as int),
            ),
        decreases hi - a,
    {
        assert(cs@.subrange(a as int, hi as int).drop_first() =~= cs@.subrange(a + 1, hi as int));
        a = a + 1;
    }
    let mut b = hi;
    while b > a && is_whitespace(cs[b - 1])
        invariant
            lo <= a <= b <= hi <= cs@.len(),
            trim(cs@.subrange(lo as int, hi as int)) == trim_end(cs@.subrange(a as int, b as int)),
        decreases b - a,
    {
        assert(cs@.subrange(a as int, b as int).drop_last() =~= cs@.subrange(a as int, b - 1));
        b = b - 1;
    }
    (a, b)
}

/// `s` with leading and trailing whitespace removed.
pub fn trim_str(s: &str) -> (r: String)
    ensures
        r@ == trim(s@),
{
    let cs = chars_of(s);
    let (a, b) = trim_bounds(&cs, 0, cs.len());
    assert(cs@.subrange(0, cs@.len() as int) =~= cs@);
    string_from(&cs, a, b)
}

// ---------------------------------------------------------------------------
// Words
// ---------------------------------------------------------------------------

/// The maximal runs of non-whitespace characters of `s`, in order: what
/// `str::split_whitespace` yields.
pub open spec fn words(s: Seq<char>) -> Seq<Seq<char>>
    decreases s.len(),
{
    if s.len() == 0 {
        seq![]
    } else {
        let p = s.drop_last();
        let c = s.last();
        if is_ws(c) {
            words(p)
        } else if p.len() > 0 && !is_ws(p.last()) {
            let w = words(p);
            w.update(w.len() - 1, w.last().push(c))
        } else {
            words(p).push(seq![c])
        }
    }
}

/// The parts joined with `sep` between each two of them.
pub open spec fn join(parts: Seq<Seq<char>>, sep: Seq<char>) -> Seq<char>
    decreases parts.len(),
{
    if parts.len() == 0 {
        seq![]
    } else if parts.len() == 1 {
        parts[0]
    } else {
        join(parts.drop_last(), sep) + sep + parts.last()
    }
}

/// The words of `s` joined by single spaces: every run of whitespace becomes
/// one space, and leading and trailing whitespace is gone.
pub open spec fn collapse_ws(s: Seq<char>) -> Seq<char> {
    join(words(s), seq![' '])
}

/// A non-empty sequence that ends in a non-whitespace character has a word.
pub proof fn lemma_words_nonempty(s: Seq<char>)
    requires
        s.len() > 0,
        !is_ws(s.last()),
    ensures
        words(s).len() > 0,
    decreases s.len(),
{
    let p = s.drop_last();
    if p.len() > 0 && !is_ws(p.last()) {
        lemma_words_nonempty(p);
    }
}

/// Every word is non-empty and free of whitespace.
pub proof fn lemma_words_shape(s: Seq<char>)
    ensures
        forall|i: int|
            0 <= i < words(s).len() ==> (#[trigger] words(s)[i]).len() > 0 && forall|j: int|
                0 <= j < words(s)[i].len() ==> !is_ws(#[trigger] words(s)[i][j]),
    decreases s.len(),
{
    if s.len() > 0 {
        let p = s.drop_last();
        lemma_words_shape(p);
        if !is_ws(s.last()) && p.len() > 0 && !is_ws(p.last()) {
            lemma_words_nonempty(p);
        }
    }
}

/// Joining one more part.
pub proof fn lemma_join_push(parts: Seq<Seq<char>>, sep: Seq<char>, w: Seq<char>)
    ensures
        join(parts.push(w), sep) == if parts.len() == 0 {
            w
        } else {
            join(parts, sep) + sep + w
        },
{
    assert(parts.push(w).drop_last() =~= parts);
}

/// Extending the last part by one character extends the join by it.
pub proof fn lemma_join_extend_last(parts: Seq<Seq<char>>, sep: Seq<char>, c: char)
    requires
        parts.len() > 0,
    ensures
        join(parts.update(parts.len() - 1, parts.last().push(c)), sep) == join(parts, sep).push(c),
{
    let q = parts.update(parts.len() - 1, parts.last().push(c));
    if parts.len() == 1 {
        assert(join(q, sep) == q[0]);
    } else {
        assert(q.drop_last() =~= parts.drop_last());
        assert(join(q, sep) == join(parts.drop_last(), sep) + sep + parts.last().push(c));
        assert(join(q, sep) =~= (join(parts.drop_last(), sep) + sep + parts.last()).push(c));
    }
}

/// How `words` and `collapse_ws` grow by one character.
pub proof fn lemma_collapse_step(s: Seq<char>, c: char)
    ensures
        ({
            let t = s.push(c);
            &&& is_ws(c) ==> words(t) == words(s) && collapse_ws(t) == collapse_ws(s)
            &&& (!is_ws(c) && s.len() > 0 && !is_ws(s.last())) ==> words(t).len() == words(s).len()
                && collapse_ws(t) == collapse_ws(s).push(c)
            &&& (!is_ws(c) && !(s.len() > 0 && !is_ws(s.last()))) ==> words(t).len() == words(
                s,
            ).len() + 1 && collapse_ws(t) == if words(s).len() == 0 {
                seq![c]
            } else {
                collapse_ws(s) + seq![' ', c]
            }
        }),
{
    let t = s.push(c);
    assert(t.drop_last() =~= s);
    assert(t.last() == c);
    if !is_ws(c) {
        if s.len() > 0 && !is_ws(s.last()) {
            lemma_words_nonempty(s);
            lemma_join_extend_last(words(s), seq![' '], c);
        } else {
            lemma_join_push(words(s), seq![' '], seq![c]);
            assert(seq![' '] + seq![c] =~= seq![' ', c]);
            assert(collapse_ws(s) + seq![' '] + seq![c] =~= collapse_ws(s) + seq![' ', c]);
        }
    }
}

/// A sequence that begins and ends with non-whitespace is its own trim.
pub proof fn lemma_trim_fixed(s: Seq<char>)
    requires
        s.len() > 0,
        !is_ws(s[0]),
        !is_ws(s.last()),
    ensures
        trim(s) == s,
{
}

/// The join of non-empty parts begins with the first character of the first
/// part and ends with the last character of the last part.
pub proof fn lemma_join_ends(parts: Seq<Seq<char>>, sep: Seq<char>)
    requires
        parts.len() > 0,
        forall|i: int| 0 <= i < parts.len() ==> (#[trigger] parts[i]).len() > 0,
    ensures
        join(parts, sep).len() > 0,
        join(parts, sep)[0] == parts[0][0],
        join(parts, sep).last() == parts.last().last(),
    decreases parts.len(),
{
    if parts.len() > 1 {
        let p = parts.drop_last();
        lemma_join_ends(p, sep);
        assert(p[0] == parts[0]);
        let j = join(p, sep) + sep + parts.last();
        assert(j[0] == join(p, sep)[0]);
    }
}

/// Collapsed text has no whitespace at either end.
pub proof fn lemma_collapse_is_trimmed(s: Seq<char>)
    ensures
        trim(collapse_ws(s)) == collapse_ws(s),
{
    lemma_words_shape(s);
    let ws = words(s);
    if ws.len() > 0 {
        lemma_join_ends(ws, seq![' ']);
        assert(!is_ws(ws[0][0]));
        assert(!is_ws(ws.last()[ws.last().len() - 1]));
        lemma_trim_fixed(collapse_ws(s));
    }
}

/// The words of `s` joined by single spaces, as
/// `s.split_whitespace().collect::<Vec<_>>().join(" ")` gives it.
pub fn collapse_whitespace(s: &str) -> (r: String)
    ensures
        r@ == collapse_ws(s@),
{
    let cs = chars_of(s);
    let mut out = String::new();
    let mut in_word = false;
    let mut any_word = false;
    let mut i: usize = 0;
    while i < cs.len()
        invariant
            i <= cs@.len(),
            cs@ == s@,
            out@ == collapse_ws(cs@.take(i as int)),
            in_word == (i > 0 && !is_ws(cs@[i - 1])),
            any_word == (words(cs@.take(i as int)).len() > 0),
        decreases cs.len() - i,
    {
        let c = cs[i];
        proof {
            assert(cs@.take(i + 1) =~= cs@.take(i as int).push(c));
            lemma_collapse_step(cs@.take(i as int), c);
        }
        if is_whitespace(c) {
            in_word = false;
        } else {
            if !in_word && any_word {
                push_char(&mut out, ' ');
            }
            push_char(&mut out, c);
            in_word = true;
            any_word = true;
        }
        i = i + 1;
    }
    assert(cs@.take(cs@.len() as int) =~= cs@);
    out
}

/// The words of `s`, as `str::split_whitespace` yields them.
pub fn split_words(s: &str) -> (r: Vec<Vec<char>>)
    ensures
        r.deep_view() == words(s@),
{
    let cs = chars_of(s);
    let mut out: Vec<Vec<char>> = Vec::new();
    let mut in_word = false;
    let mut i: usize = 0;
    while i < cs.len()
        invariant
            i <= cs@.len(),
            cs@ == s@,
            out.deep_view() == words(cs@.take(i as int)),
            in_word == (i > 0 && !is_ws(cs@[i - 1])),
        decreases cs.len() - i,
    {
        let c = cs[i];
        let ghost p = cs@.take(i as int);
        proof {
            assert(cs@.take(i + 1).drop_last() =~= p);
            assert(cs@.take(i + 1).last() == c);
            if i > 0 {
                assert(p.last() == cs@[i - 1]);
            }
        }
        if is_whitespace(c) {
            in_word = false;
        } else if in_word {
            proof {
                lemma_words_nonempty(p);
            }
            let last = out.len() - 1;
            let ghost before = out.deep_view();
            let mut w: Vec<char> = Vec::new();
            out.set_and_swap(last, &mut w);
            assert(w.deep_view() =~= w@);
            assert(w@ == before[last as int]);
            w.push(c);
            assert(w.deep_view() =~= before[last as int].push(c));
            out.set_and_swap(last, &mut w);
            assert(out.deep_view() =~= before.update(last as int, before[last as int].push(c)));
        } else {
            let ghost before = out.deep_view();
            let mut w: Vec<char> = Vec::new();
            w.push(c);
            assert(w.deep_view() =~= seq![c]);
            out.push(w);
            assert(out.deep_view() =~= before.push(seq![c]));
            in_word = true;
        }
        i = i + 1;
    }
    assert(cs@.take(cs@.len() as int) =~= cs@);
    out
}

/// The number of words of `s`, as `s.split_whitespace().count()` gives it.
pub fn word_count(s: &str) -> (r: usize)
    ensures
        r == words(s@).len(),
{
    let cs = chars_of(s);
    let mut count: usize = 0;
    let mut in_word = false;
    let mut i: usize = 0;
    while i < cs.len()
        invariant
            i <= cs@.len(),
            cs@ == s@,
            count == words(cs@.take(i as int)).len(),
            count <= i,
            in_word == (i > 0 && !is_ws(cs@[i - 1])),
        decreases cs.len() - i,
    {
        let c = cs[i];
        proof {
            assert(cs@.take(i + 1) =~= cs@.take(i as int).push(c));
            lemma_collapse_step(cs@.take(i as int), c);
        }
        if is_whitespace(c) {
            in_word = false;
        } else {
            if !in_word {
                count = count + 1;
            }
            in_word = true;
        }
        i = i + 1;
    }
    assert(cs@.take(cs@.len() as int) =~= cs@);
    count
}


// ---------------------------------------------------------------------------
// Decimal numbers
// ---------------------------------------------------------------------------

/// The character of a decimal digit.
pub open spec fn digit_char(d: nat) -> char {
    ('0' as u32 + d) as char
}

/// The decimal representation of `n`, without leading zeros, as `Display`
/// writes an unsigned integer.
pub open spec fn decimal(n: nat) -> Seq<char>
    decreases n,
{
    if n < 10 {
        seq![digit_char(n)]
    } else {
        decimal(n / 10).push(digit_char(n % 10))
    }
}

fn digit(d: u64) -> (c: char)
    requires
        d < 10,
    ensures
        c == digit_char(d as nat),
{
    if d == 0 {
        '0'
    } else if d == 1 {
        '1'
    } else if d == 2 {
        '2'
    } else if d == 3 {
        '3'
    } else if d == 4 {
        '4'
    } else if d == 5 {
        '5'
    } else if d == 6 {
        '6'
    } else if d == 7 {
        '7'
    } else if d == 8 {
        '8'
    } else {
        '9'
    }
}

/// Appends the decimal representation of `n`.
pub fn push_decimal(out: &mut String, n: u64)
    ensures
        final(out)@ == old(out)@ + decimal(n as nat),
    decreases n,
{
    if n >= 10 {
        push_decimal(out, n / 10);
    }
    push_char(out, digit(n % 10));
    proof {
        if n >= 10 {
            assert(old(out)@ + decimal(n as nat) =~= old(out)@ + decimal((n / 10) as nat) + seq![
                digit_char((n % 10) as nat),
            ]);
        }
    }
}

/// The decimal representation of `n`.
pub fn decimal_string(n: u64) -> (r: String)
    ensures
        r@ == decimal(n as nat),
{
    let mut s = String::new();
    push_decimal(&mut s, n);
    assert(Seq::<char>::empty() + decimal(n as nat) =~= decimal(n as nat));
    s
}


// ---------------------------------------------------------------------------
// Occurrence of a piece of text
// ---------------------------------------------------------------------------

/// `needle` occurs in `s` as a contiguous piece.
pub open spec fn contains_seq(s: Seq<char>, needle: Seq<char>) -> bool {
    exists|i: int|
        0 <= i <= s.len() - needle.len() && #[trigger] s.subrange(i, i + needle.len()) == needle
}

/// `s` begins with `n`, checked one character at a time.
pub open spec fn begins_with(s: Seq<char>, n: Seq<char>) -> bool
    decreases n.len(),
{
    n.len() == 0 || (s.len() > 0 && s[0] == n[0] && begins_with(s.drop_first(), n.drop_first()))
}

/// `n` occurs in `s` at position `k` or later, checked position by position.
pub open spec fn occurs_from(s: Seq<char>, n: Seq<char>, k: nat) -> bool
    decreases s.len() + 1 - k,
{
    if k + n.len() > s.len() {
        false
    } else {
        begins_with(s.skip(k as int), n) || occurs_from(s, n, k + 1)
    }
}

/// `begins_with` is being a prefix.
pub proof fn lemma_begins_with(s: Seq<char>, n: Seq<char>)
    ensures
        begins_with(s, n) <==> (n.len() <= s.len() && s.subrange(0, n.len() as int) == n),
    decreases n.len(),
{
    if n.len() == 0 {
        assert(s.subrange(0, 0) =~= n);
    } else if s.len() > 0 {
        lemma_begins_with(s.drop_first(), n.drop_first());
        if n.len() <= s.len() && s.subrange(0, n.len() as int) == n {
            assert(s.subrange(0, n.len() as int)[0] == s[0]);
            assert forall|j: int| 0 <= j < n.len() - 1 implies s.drop_first().subrange(
                0,
                n.len() - 1,
            )[j] == n.drop_first()[j] by {
                assert(s.subrange(0, n.len() as int)[j + 1] == s[j + 1]);
            }
            assert(s.drop_first().subrange(0, n.len() - 1) =~= n.drop_first());
        }
        if begins_with(s, n) {
            assert(s.subrange(0, n.len() as int) =~= seq![s[0]] + s.drop_first().subrange(
                0,
                n.len() - 1,
            ));
            assert(n =~= seq![n[0]] + n.drop_first());
        }
    }
}

/// The position-by-position search finds exactly the occurrences.
pub proof fn lemma_occurs_from(s: Seq<char>, n: Seq<char>, k: nat)
    ensures
        occurs_from(s, n, k) <==> exists|i: int|
            k <= i <= s.len() - n.len() && #[trigger] s.subrange(i, i + n.len()) == n,
    decreases s.len() + 1 - k,
{
    if k + n.len() <= s.len() {
        lemma_occurs_from(s, n, k + 1);
        lemma_begins_with(s.skip(k as int), n);
        assert(s.skip(k as int).subrange(0, n.len() as int) =~= s.subrange(
            k as int,
            (k + n.len()) as int,
        ));
        if occurs_from(s, n, k + 1) {
            let i = choose|i: int|
                k + 1 <= i <= s.len() - n.len() && #[trigger] s.subrange(i, i + n.len()) == n;
            assert(k <= i);
        }
        if exists|i: int| k <= i <= s.len() - n.len() && #[trigger] s.subrange(i, i + n.len()) == n {
            let i = choose|i: int|
                k <= i <= s.len() - n.len() && #[trigger] s.subrange(i, i + n.len()) == n;
            if i > k {
                assert(k + 1 <= i);
            }
        }
    }
}

/// Occurrence, by the position-by-position search.
pub proof fn lemma_contains_by_search(s: Seq<char>, n: Seq<char>)
    ensures
        contains_seq(s, n) <==> occurs_from(s, n, 0),
{
    lemma_occurs_from(s, n, 0);
}

/// The number a string of decimal digits stands for.
pub open spec fn digits_value(s: Seq<char>) -> nat
    decreases s.len(),
{
    if s.len() == 0 {
        0
    } else {
        digits_value(s.drop_last()) * 10 + ((s.last() as u32) - ('0' as u32)) as nat
    }
}

/// The decimal representation of `n` is made of ASCII digits, has no leading
/// zero (unless it is `0` itself), and stands for `n`.
pub proof fn law_decimal_round_trip(n: nat)
    ensures
        decimal(n).len() > 0,
        decimal(n).len() == 1 <==> n < 10,
        forall|i: int| 0 <= i < decimal(n).len() ==> is_digit(#[trigger] decimal(n)[i]),
        decimal(n).len() > 1 ==> decimal(n)[0] != '0',
        digits_value(decimal(n)) == n,
    decreases n,
{
    let d = decimal(n);
    let k = n % 10;
    assert((digit_char(k) as u32) == ('0' as u32) + k);
    if n >= 10 {
        law_decimal_round_trip(n / 10);
        assert(d.drop_last() =~= decimal(n / 10));
        assert forall|i: int| 0 <= i < d.len() implies is_digit(#[trigger] d[i]) by {
            if i < d.len() - 1 {
                assert(d[i] == decimal(n / 10)[i]);
            }
        }
        assert(d[0] == decimal(n / 10)[0]);
        assert(digits_value(d) == digits_value(decimal(n / 10)) * 10 + k);
        assert((n / 10) * 10 + k == n);
    } else {
        assert(k == n);
        assert(d.drop_last() =~= Seq::<char>::empty());
        assert(digits_value(d.drop_last()) == 0);
        assert(d.last() == digit_char(n));
        assert(digits_value(d) == k);
    }
}

/// A word on its own is its only word.
proof fn lemma_words_of_word(w: Seq<char>)
    requires
        w.len() > 0,
        forall|j: int| 0 <= j < w.len() ==> !is_ws(#[trigger] w[j]),
    ensures
        words(w) == seq![w],
    decreases w.len(),
{
    let p = w.drop_last();
    assert(w.last() == w[w.len() - 1]);
    if p.len() > 0 {
        assert forall|j: int| 0 <= j < p.len() implies !is_ws(#[trigger] p[j]) by {
            assert(p[j] == w[j]);
        }
        lemma_words_of_word(p);
        assert(p.last() == w[p.len() - 1]);
        assert(p.push(w.last()) =~= w);
        assert(!is_ws(p.last()));
        assert(words(w) == words(p).update(words(p).len() - 1, words(p).last().push(w.last())));
        assert(seq![p].last() == p);
        assert(seq![p].update(0, p.push(w.last())) =~= seq![w]);
    } else {
        assert(seq![w.last()] =~= w);
        assert(p =~= Seq::<char>::empty());
        assert(words(p) =~= Seq::<Seq<char>>::empty());
        assert(words(w) == words(p).push(seq![w.last()]));
        assert(seq![].push(seq![w.last()]) =~= seq![w]);
    }
}

/// A space and a word after a text add that word to the text's words.
proof fn lemma_words_after_space(a: Seq<char>, w: Seq<char>)
    requires
        w.len() > 0,
        forall|j: int| 0 <= j < w.len() ==> !is_ws(#[trigger] w[j]),
    ensures
        words(a + seq![' '] + w) == words(a).push(w),
    decreases w.len(),
{
    let t = a + seq![' '] + w;
    let p = w.drop_last();
    assert(w.last() == w[w.len() - 1]);
    assert(t.drop_last() =~= a + seq![' '] + p);
    assert(t.last() == w.last());
    if p.len() > 0 {
        assert forall|j: int| 0 <= j < p.len() implies !is_ws(#[trigger] p[j]) by {
            assert(p[j] == w[j]);
        }
        lemma_words_after_space(a, p);
        assert((a + seq![' '] + p).last() == p.last());
        assert(p.last() == w[p.len() - 1]);
        assert(!is_ws(p.last()));
        assert(p.push(w.last()) =~= w);
        let x = words(a + seq![' '] + p);
        assert(words(t) == x.update(x.len() - 1, x.last().push(w.last())));
        assert(words(a).push(p).last() == p);
        assert(words(a).push(p).update(words(a).len() as int, p.push(w.last())) =~= words(a).push(w));
    } else {
        let u = a + seq![' '];
        assert(a + seq![' '] + p =~= u);
        assert(u.drop_last() =~= a);
        assert(u.last() == ' ');
        assert(is_ws(' '));
        assert(words(u) == words(a));
        assert(words(t) == words(u).push(seq![w.last()]));
        assert(seq![w.last()] =~= w);
    }
}

/// Joining words with single spaces gives back exactly those words.
proof fn lemma_words_of_join(ws: Seq<Seq<char>>)
    requires
        forall|i: int|
            0 <= i < ws.len() ==> (#[trigger] ws[i]).len() > 0 && forall|j: int|
                0 <= j < ws[i].len() ==> !is_ws(#[trigger] ws[i][j]),
    ensures
        words(join(ws, seq![' '])) == ws,
    decreases ws.len(),
{
    if ws.len() == 1 {
        lemma_words_of_word(ws[0]);
        assert(seq![ws[0]] =~= ws);
    } else if ws.len() > 1 {
        let p = ws.drop_last();
        assert forall|i: int| 0 <= i < p.len() implies (#[trigger] p[i]).len() > 0 && forall|j: int|
            0 <= j < p[i].len() ==> !is_ws(#[trigger] p[i][j]) by {
            assert(p[i] == ws[i]);
        }
        lemma_words_of_join(p);
        assert(ws.last() == ws[ws.len() - 1]);
        lemma_words_after_space(join(p, seq![' ']), ws.last());
        assert(p.push(ws.last()) =~= ws);
    } else {
        assert(ws =~= Seq::<Seq<char>>::empty());
    }
}

/// Collapsing whitespace keeps exactly the words of the text, in order.
pub proof fn law_collapse_keeps_words(s: Seq<char>)
    ensures
        words(collapse_ws(s)) == words(s),
{
    lemma_words_shape(s);
    lemma_words_of_join(words(s));
}

/// The words of a text, put back to back, are its non-whitespace characters
/// in order: splitting loses only whitespace.
pub proof fn law_words_are_the_non_whitespace(s: Seq<char>)
    ensures
        words(s).flatten() == s.filter(|c: char| !is_ws(c)),
    decreases s.len(),
{
    reveal(Seq::filter);
    if s.len() > 0 {
        let p = s.drop_last();
        let c = s.last();
        law_words_are_the_non_whitespace(p);
        let wp = words(p);
        if !is_ws(c) {
            if p.len() > 0 && !is_ws(p.last()) {
                lemma_words_nonempty(p);
                let x = wp.last().push(c);
                assert(wp.update(wp.len() - 1, x) =~= wp.drop_last().push(x));
                assert(wp.drop_last().push(wp.last()) =~= wp);
                wp.drop_last().lemma_flatten_push(x);
                wp.drop_last().lemma_flatten_push(wp.last());
                assert(wp.drop_last().flatten() + x =~= (wp.drop_last().flatten() + wp.last()).push(c));
            } else {
                wp.lemma_flatten_push(seq![c]);
                assert(wp.flatten() + seq![c] =~= wp.flatten().push(c));
            }
        }
    }
}

proof fn lemma_trim_start_cut(s: Seq<char>) -> (lo: int)
    ensures
        0 <= lo <= s.len(),
        trim_start(s) == s.subrange(lo, s.len() as int),
        forall|i: int| 0 <= i < lo ==> is_ws(#[trigger] s[i]),
        lo < s.len() ==> !is_ws(s[lo]),
    decreases s.len(),
{
    if s.len() > 0 && is_ws(s[0]) {
        let l = lemma_trim_start_cut(s.drop_first());
        assert(s.drop_first().subrange(l, s.len() - 1) =~= s.subrange(l + 1, s.len() as int));
        assert forall|i: int| 0 <= i < l + 1 implies is_ws(#[trigger] s[i]) by {
            if i > 0 {
                assert(s[i] == s.drop_first()[i - 1]);
            }
        }
        if l + 1 < s.len() {
            assert(s[l + 1] == s.drop_first()[l]);
        }
        l + 1
    } else {
        assert(s.subrange(0, s.len() as int) =~= s);
        0
    }
}

proof fn lemma_trim_end_cut(s: Seq<char>) -> (hi: int)
    ensures
        0 <= hi <= s.len(),
        trim_end(s) == s.subrange(0, hi),
        forall|i: int| hi <= i < s.len() ==> is_ws(#[trigger] s[i]),
        hi > 0 ==> !is_ws(s[hi - 1]),
    decreases s.len(),
{
    if s.len() > 0 && is_ws(s.last()) {
        let h = lemma_trim_end_cut(s.drop_last());
        assert(s.drop_last().subrange(0, h) =~= s.subrange(0, h));
        assert forall|i: int| h <= i < s.len() implies is_ws(#[trigger] s[i]) by {
            if i < s.len() - 1 {
                assert(s[i] == s.drop_last()[i]);
            }
        }
        if h > 0 {
            assert(s[h - 1] == s.drop_last()[h - 1]);
        }
        h
    } else {
        assert(s.subrange(0, s.len() as int) =~= s);
        s.len() as int
    }
}

/// Trimming cuts whitespace, and only whitespace, from both ends: the result
/// is a piece of the text, everything cut away is whitespace, and a non-empty
/// result begins and ends with a non-whitespace character.
pub proof fn law_trim_cuts_only_whitespace(s: Seq<char>)
    ensures
        exists|lo: int, hi: int|
            {
                &&& 0 <= lo <= hi <= s.len()
                &&& trim(s) == s.subrange(lo, hi)
                &&& forall|i: int| 0 <= i < lo ==> is_ws(#[trigger] s[i])
                &&& forall|i: int| hi <= i < s.len() ==> is_ws(#[trigger] s[i])
                &&& lo < hi ==> !is_ws(s[lo]) && !is_ws(s[hi - 1])
            },
{
    let lo = lemma_trim_start_cut(s);
    let u = s.subrange(lo, s.len() as int);
    let h = lemma_trim_end_cut(u);
    let hi = lo + h;
    assert(u.subrange(0, h) =~= s.subrange(lo, hi));
    assert forall|i: int| hi <= i < s.len() implies is_ws(#[trigger] s[i]) by {
        assert(s[i] == u[i - lo]);
    }
    if lo < hi {
        assert(s[lo] == u[0]);
        assert(s[hi - 1] == u[h - 1]);
        if h == u.len() {
            assert(u[0] == s[lo]);
        }
    }
}

/// Trimming twice is trimming once.
pub proof fn law_trim_idempotent(s: Seq<char>)
    ensures
        trim(trim(s)) == trim(s),
{
    law_trim_cuts_only_whitespace(s);
    let t = trim(s);
    if t.len() > 0 {
        let (lo, hi) = choose|lo: int, hi: int|
            {
                &&& 0 <= lo <= hi <= s.len()
                &&& trim(s) == s.subrange(lo, hi)
                &&& forall|i: int| 0 <= i < lo ==> is_ws(#[trigger] s[i])
                &&& forall|i: int| hi <= i < s.len() ==> is_ws(#[trigger] s[i])
                &&& lo < hi ==> !is_ws(s[lo]) && !is_ws(s[hi - 1])
            };
        assert(t[0] == s[lo]);
        assert(t.last() == s[hi - 1]);
        lemma_trim_fixed(t);
    }
}

} // verus!
