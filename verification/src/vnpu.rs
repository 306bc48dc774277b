use vstd::prelude::*;
use crate::text::{
    chars_of, decimal, is_ascii_digit, is_digit, push_decimal, word_count, words,
};

verus! {

/// What the companion notices in a context before it words its digest.
pub struct ContextFeatures {
    /// The number of whitespace-separated words.
    pub word_count: usize,
    /// Whether an ASCII digit occurs.
    pub has_numbers: bool,
    /// Whether a double or a single quote occurs.
    pub has_quotes: bool,
}

/// Whether some character of `s` is an ASCII digit.
pub open spec fn has_digit(s: Seq<char>) -> bool {
    exists|i: int| 0 <= i < s.len() && is_digit(#[trigger] s[i])
}

/// Whether `s` holds a double or a single quote.
pub open spec fn has_quote(s: Seq<char>) -> bool {
    s.contains('"') || s.contains('\'')
}

/// Looks at a context: how many words it has, whether it holds numbers, and
/// whether it quotes anyone.
pub fn context_features(context: &str) -> (r: ContextFeatures)
    ensures
        r.word_count == words(context@).len(),
        r.has_numbers == has_digit(context@),
        r.has_quotes == has_quote(context@),
{
    let count = word_count(context);
    let cs = chars_of(context);
    let mut numbers = false;
    let mut quotes_double = false;
    let mut quotes_single = false;
    let mut i: usize = 0;
    while i < cs.len()
        invariant
            i <= cs@.len(),
            cs@ == context@,
            numbers == exists|j: int| 0 <= j < i && is_digit(#[trigger] cs@[j]),
            quotes_double == exists|j: int| 0 <= j < i && #[trigger] cs@[j] == '"',
            quotes_single == exists|j: int| 0 <= j < i && #[trigger] cs@[j] == '\'',
        decreases cs.len() - i,
    {
        let c = cs[i];
        if is_ascii_digit(c) {
            numbers = true;
        }
        if c == '"' {
            quotes_double = true;
        }
        if c == '\'' {
            quotes_single = true;
        }
        i = i + 1;
    }
    proof {
        if quotes_double {
            let j = choose|j: int| 0 <= j < cs@.len() && #[trigger] cs@[j] == '"';
            assert(context@.contains('"'));
        }
        if quotes_single {
            let j = choose|j: int| 0 <= j < cs@.len() && #[trigger] cs@[j] == '\'';
            assert(context@.contains('\''));
        }
    }
    ContextFeatures {
        word_count: count,
        has_numbers: numbers,
        has_quotes: quotes_double || quotes_single,
    }
}

/// How hot the virtual processor runs while it reads: below 50 degrees it is
/// cool, below 70 warm, hotter than that hot.
#[derive(Debug, Clone, Copy, PartialEq, Eq, Structural)]
pub enum ThermalBand {
    Cool,
    Warm,
    Hot,
}

/// Above this many words a warm processor finds a context dense.
pub const DENSE_WORDS: usize = 300;

/// The digest of a context, worded by how hot the processor runs; the
/// temperature appears as `thermal`, already written with one decimal.
pub open spec fn digest_text(
    band: ThermalBand,
    word_count: nat,
    has_numbers: bool,
    has_quotes: bool,
    thermal: Seq<char>,
) -> Seq<char> {
    match band {
        ThermalBand::Cool => "Context absorbed: "@ + decimal(word_count) + " words. Structure feels "@
            + (if has_numbers {
            "data-rich"@
        } else {
            "narrative"@
        }) + ". "@ + (if has_quotes {
            "Voices detected within."@
        } else {
            "Single perspective."@
        }),
        ThermalBand::Warm => "Processing "@ + decimal(word_count) + " words at "@ + thermal
            + "\u{b0}C. Patterns emerging but edges are warm. "@ + (if word_count > DENSE_WORDS {
            "Density requires patience."@
        } else {
            "Manageable weight."@
        }),
        ThermalBand::Hot => "\u{26a0} Thermal "@ + thermal + "\u{b0}C during ingestion of "@ + decimal(
            word_count,
        ) + " words. Understanding is possible but costly. Silicon remembers this effort."@,
    }
}

/// Words the digest of a context.
pub fn compose_digest(band: ThermalBand, features: &ContextFeatures, thermal: &str) -> (r: String)
    ensures
        r@ == digest_text(
            band,
            features.word_count as nat,
            features.has_numbers,
            features.has_quotes,
            thermal@,
        ),
{
    match band {
        ThermalBand::Cool => {
            let mut s = String::from_str("Context absorbed: ");
            push_decimal(&mut s, features.word_count as u64);
            s.append(" words. Structure feels ");
            if features.has_numbers {
                s.append("data-rich");
            } else {
                s.append("narrative");
            }
            s.append(". ");
            if features.has_quotes {
                s.append("Voices detected within.");
            } else {
                s.append("Single perspective.");
            }
            s
        },
        ThermalBand::Warm => {
            let mut s = String::from_str("Processing ");
            push_decimal(&mut s, features.word_count as u64);
            s.append(" words at ");
            s.append(thermal);
            s.append("\u{b0}C. Patterns emerging but edges are warm. ");
            if features.word_count > DENSE_WORDS {
                s.append("Density requires patience.");
            } else {
                s.append("Manageable weight.");
            }
            s
        },
        ThermalBand::Hot => {
            let mut s = String::from_str("\u{26a0} Thermal ");
            s.append(thermal);
            s.append("\u{b0}C during ingestion of ");
            push_decimal(&mut s, features.word_count as u64);
            s.append(" words. Understanding is possible but costly. Silicon remembers this effort.");
            s
        },
    }
}

/// The digest of a context read while the processor runs in `band`.
pub fn digest_context(band: ThermalBand, context: &str, thermal: &str) -> (r: String)
    ensures
        r@ == digest_text(
            band,
            words(context@).len(),
            has_digit(context@),
            has_quote(context@),
            thermal@,
        ),
{
    let features = context_features(context);
    compose_digest(band, &features, thermal)
}

/// The same context is worded differently in different thermal bands: the
/// digest always tells how hot the processor ran.
pub proof fn law_band_changes_digest(
    b1: ThermalBand,
    b2: ThermalBand,
    word_count: nat,
    has_numbers: bool,
    has_quotes: bool,
    thermal: Seq<char>,
)
    requires
        b1 != b2,
    ensures
        digest_text(b1, word_count, has_numbers, has_quotes, thermal) != digest_text(
            b2,
            word_count,
            has_numbers,
            has_quotes,
            thermal,
        ),
{
    reveal_strlit("Context absorbed: ");
    reveal_strlit("Processing ");
    reveal_strlit("\u{26a0} Thermal ");
    let c = digest_text(ThermalBand::Cool, word_count, has_numbers, has_quotes, thermal);
    let w = digest_text(ThermalBand::Warm, word_count, has_numbers, has_quotes, thermal);
    let h = digest_text(ThermalBand::Hot, word_count, has_numbers, has_quotes, thermal);
    assert(c[0] == 'C');
    assert(w[0] == 'P');
    assert(h[0] == '\u{26a0}');
}

/// `s` ends with `t`.
pub open spec fn ends_with(s: Seq<char>, t: Seq<char>) -> bool {
    t.len() <= s.len() && s.subrange(s.len() - t.len(), s.len() as int) == t
}

/// `s` begins with `t`.
pub open spec fn starts_with(s: Seq<char>, t: Seq<char>) -> bool {
    t.len() <= s.len() && s.subrange(0, t.len() as int) == t
}

/// A cool digest closes by noticing voices exactly when the context quotes
/// someone, whether or not it holds numbers; otherwise it closes on a single
/// perspective.
pub proof fn law_cool_digest_tells_quotes(n: nat, has_numbers: bool, has_quotes: bool, t: Seq<char>)
    ensures
        ends_with(digest_text(ThermalBand::Cool, n, has_numbers, has_quotes, t), "Voices detected within."@)
            <==> has_quotes,
        ends_with(digest_text(ThermalBand::Cool, n, has_numbers, has_quotes, t), "Single perspective."@)
            <==> !has_quotes,
{
    reveal_strlit("Voices detected within.");
    reveal_strlit("Single perspective.");
    reveal_strlit(". ");
    reveal_strlit("Context absorbed: ");
    let d = digest_text(ThermalBand::Cool, n, has_numbers, has_quotes, t);
    let v = "Voices detected within."@;
    let p = "Single perspective."@;
    if has_quotes {
        assert(d.subrange(d.len() - v.len(), d.len() as int) =~= v);
        assert(d[d.len() - 19] == v[4]);
        assert(!(d.subrange(d.len() - p.len(), d.len() as int) =~= p)) by {
            assert(d.subrange(d.len() - p.len(), d.len() as int)[0] == d[d.len() - 19]);
        }
    } else {
        assert(d.subrange(d.len() - p.len(), d.len() as int) =~= p);
        assert(d[d.len() - 19] == 'S');
        assert(!(d.subrange(d.len() - v.len(), d.len() as int) =~= v)) by {
            assert(d.subrange(d.len() - v.len(), d.len() as int)[4] == d[d.len() - 19]);
        }
    }
}

/// A cool digest opens with the number of words read.
pub proof fn law_cool_digest_counts_words(n: nat, has_numbers: bool, has_quotes: bool, t: Seq<char>)
    ensures
        starts_with(
            digest_text(ThermalBand::Cool, n, has_numbers, has_quotes, t),
            "Context absorbed: "@ + decimal(n) + " words."@,
        ),
{
    reveal_strlit(" words.");
    reveal_strlit(" words. Structure feels ");
    let d = digest_text(ThermalBand::Cool, n, has_numbers, has_quotes, t);
    let pre = "Context absorbed: "@ + decimal(n) + " words."@;
    assert(d.subrange(0, pre.len() as int) =~= pre);
}

/// A cool digest calls the structure data-rich exactly when the context holds
/// numbers, and narrative otherwise; the quotes do not change that.
pub proof fn law_cool_digest_tells_numbers(n: nat, has_numbers: bool, has_quotes: bool, t: Seq<char>)
    ensures
        ({
            let d = digest_text(ThermalBand::Cool, n, has_numbers, has_quotes, t);
            let k = ("Context absorbed: "@ + decimal(n) + " words. Structure feels "@).len();
            &&& d.subrange(k as int, k + 9int) == "data-rich"@ <==> has_numbers
            &&& d.subrange(k as int, k + 9int) == "narrative"@ <==> !has_numbers
        }),
{
    reveal_strlit("data-rich");
    reveal_strlit("narrative");
    let d = digest_text(ThermalBand::Cool, n, has_numbers, has_quotes, t);
    let k = ("Context absorbed: "@ + decimal(n) + " words. Structure feels "@).len();
    if has_numbers {
        assert(d.subrange(k as int, k + 9int) =~= "data-rich"@);
        assert(d.subrange(k as int, k + 9int)[0] != "narrative"@[0]);
    } else {
        assert(d.subrange(k as int, k + 9int) =~= "narrative"@);
        assert(d.subrange(k as int, k + 9int)[0] != "data-rich"@[0]);
    }
}

/// A warm digest finds a context dense exactly when it has more than
/// `DENSE_WORDS` words, and manageable otherwise.
pub proof fn law_warm_digest_tells_density(n: nat, has_numbers: bool, has_quotes: bool, t: Seq<char>)
    ensures
        ends_with(digest_text(ThermalBand::Warm, n, has_numbers, has_quotes, t), "Density requires patience."@)
            <==> n > DENSE_WORDS,
        ends_with(digest_text(ThermalBand::Warm, n, has_numbers, has_quotes, t), "Manageable weight."@)
            <==> n <= DENSE_WORDS,
{
    reveal_strlit("Density requires patience.");
    reveal_strlit("Manageable weight.");
    reveal_strlit("Processing ");
    reveal_strlit(" words at ");
    reveal_strlit("\u{b0}C. Patterns emerging but edges are warm. ");
    let d = digest_text(ThermalBand::Warm, n, has_numbers, has_quotes, t);
    let a = "Density requires patience."@;
    let b = "Manageable weight."@;
    if n > DENSE_WORDS {
        assert(d.subrange(d.len() - a.len(), d.len() as int) =~= a);
        assert(!(d.subrange(d.len() - b.len(), d.len() as int) =~= b)) by {
            assert(d.subrange(d.len() - b.len(), d.len() as int)[0] == a[8]);
        }
    } else {
        assert(d.subrange(d.len() - b.len(), d.len() as int) =~= b);
        assert(!(d.subrange(d.len() - a.len(), d.len() as int) =~= a)) by {
            assert(d.subrange(d.len() - a.len(), d.len() as int)[8] == b[0]);
        }
    }
}

/// Warm and hot digests report the word count and the temperature as given.
pub proof fn law_hot_digests_report_count_and_temperature(
    n: nat,
    has_numbers: bool,
    has_quotes: bool,
    t: Seq<char>,
)
    ensures
        starts_with(
            digest_text(ThermalBand::Warm, n, has_numbers, has_quotes, t),
            "Processing "@ + decimal(n) + " words at "@ + t + "\u{b0}C."@,
        ),
        starts_with(
            digest_text(ThermalBand::Hot, n, has_numbers, has_quotes, t),
            "\u{26a0} Thermal "@ + t + "\u{b0}C during ingestion of "@ + decimal(n) + " words."@,
        ),
{
    reveal_strlit("\u{b0}C.");
    reveal_strlit("\u{b0}C. Patterns emerging but edges are warm. ");
    reveal_strlit(" words.");
    reveal_strlit(" words. Understanding is possible but costly. Silicon remembers this effort.");
    let w = digest_text(ThermalBand::Warm, n, has_numbers, has_quotes, t);
    let wp = "Processing "@ + decimal(n) + " words at "@ + t + "\u{b0}C."@;
    assert(w.subrange(0, wp.len() as int) =~= wp);
    let h = digest_text(ThermalBand::Hot, n, has_numbers, has_quotes, t);
    let hp = "\u{26a0} Thermal "@ + t + "\u{b0}C during ingestion of "@ + decimal(n) + " words."@;
    assert(h.subrange(0, hp.len() as int) =~= hp);
}

/// What the context holds matters only where the band speaks of it: a hot
/// digest ignores numbers and quotes, a warm one ignores them too, and a cool
/// one ignores the temperature.
pub proof fn law_digest_ignores_what_it_does_not_mention(
    n: nat,
    num1: bool,
    q1: bool,
    num2: bool,
    q2: bool,
    t1: Seq<char>,
    t2: Seq<char>,
)
    ensures
        digest_text(ThermalBand::Hot, n, num1, q1, t1) == digest_text(ThermalBand::Hot, n, num2, q2, t1),
        digest_text(ThermalBand::Warm, n, num1, q1, t1) == digest_text(ThermalBand::Warm, n, num2, q2, t1),
        digest_text(ThermalBand::Cool, n, num1, q1, t1) == digest_text(ThermalBand::Cool, n, num1, q1, t2),
{
}

/// A context quotes someone exactly when one of its characters is a double or
/// a single quote: a one-character text quotes exactly when it is one, and a
/// text made of two parts quotes exactly when one of the parts does.
pub proof fn law_quotes_are_quote_characters(c: char, a: Seq<char>, b: Seq<char>)
    ensures
        has_quote(seq![c]) <==> (c == '"' || c == '\''),
        has_quote(a + b) <==> (has_quote(a) || has_quote(b)),
{
    assert(seq![c][0] == c);
    let ab = a + b;
    if has_quote(ab) {
        if ab.contains('"') {
            let i = choose|i: int| 0 <= i < ab.len() && ab[i] == '"';
            if i < a.len() {
                assert(a[i] == '"');
            } else {
                assert(b[i - a.len()] == '"');
            }
        } else {
            let i = choose|i: int| 0 <= i < ab.len() && ab[i] == '\'';
            if i < a.len() {
                assert(a[i] == '\'');
            } else {
                assert(b[i - a.len()] == '\'');
            }
        }
    }
    if a.contains('"') {
        let i = choose|i: int| 0 <= i < a.len() && a[i] == '"';
        assert(ab[i] == '"');
    }
    if a.contains('\'') {
        let i = choose|i: int| 0 <= i < a.len() && a[i] == '\'';
        assert(ab[i] == '\'');
    }
    if b.contains('"') {
        let i = choose|i: int| 0 <= i < b.len() && b[i] == '"';
        assert(ab[a.len() + i] == '"');
    }
    if b.contains('\'') {
        let i = choose|i: int| 0 <= i < b.len() && b[i] == '\'';
        assert(ab[a.len() + i] == '\'');
    }
}

/// A context holds numbers exactly when one of its characters is an ASCII
/// digit, in the same two steps.
pub proof fn law_numbers_are_digit_characters(c: char, a: Seq<char>, b: Seq<char>)
    ensures
        has_digit(seq![c]) <==> ('0' <= c <= '9'),
        has_digit(a + b) <==> (has_digit(a) || has_digit(b)),
{
    assert(seq![c][0] == c);
    let ab = a + b;
    if has_digit(ab) {
        let i = choose|i: int| 0 <= i < ab.len() && is_digit(#[trigger] ab[i]);
        if i < a.len() {
            assert(a[i] == ab[i]);
        } else {
            assert(b[i - a.len()] == ab[i]);
        }
    }
    if has_digit(a) {
        let i = choose|i: int| 0 <= i < a.len() && is_digit(#[trigger] a[i]);
        assert(ab[i] == a[i]);
    }
    if has_digit(b) {
        let i = choose|i: int| 0 <= i < b.len() && is_digit(#[trigger] b[i]);
        assert(ab[a.len() + i] == b[i]);
    }
}

} // verus!
