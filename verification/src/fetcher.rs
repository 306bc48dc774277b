use vstd::prelude::*;
use vstd::utf8::encode_utf8;
use crate::text::{
    chars_of, collapse_whitespace, collapse_ws, join, string_from, trim, trim_bounds, trim_str,
    push_char,
};

verus! {

/// A page that was read: where it came from, its title, its text and the
/// size of that text in bytes.
pub struct FetchedContent {
    pub url: String,
    pub title: String,
    pub body: String,
    pub byte_size: usize,
}

// ---------------------------------------------------------------------------
// The `[read:<url>]` command
// ---------------------------------------------------------------------------

/// The URL named by a `[read:<url>]` command: the input, trimmed, must start
/// with `[read:` and end with `]`; the URL is what stands between, trimmed.
pub open spec fn read_command_url(input: Seq<char>) -> Option<Seq<char>> {
    let t = trim(input);
    if t.len() >= 6 && t.subrange(0, 6) == "[read:"@ && t.len() >= 1 && t.last() == ']' {
        Some(trim(t.subrange(6, t.len() - 1)))
    } else {
        None
    }
}

/// Recognises a `[read:<url>]` command and gives the URL it names.
pub fn parse_read_command(input: &str) -> (r: Option<String>)
    ensures
        match r {
            Some(u) => read_command_url(input@) == Some(u@),
            None => read_command_url(input@) is None,
        },
{
    let cs = chars_of(input);
    let (a, b) = trim_bounds(&cs, 0, cs.len());
    assert(cs@.subrange(0, cs@.len() as int) =~= cs@);
    let ghost t = cs@.subrange(a as int, b as int);
    let prefix = chars_of("[read:");
    proof {
        reveal_strlit("[read:");
    }
    let mut starts = b - a >= 6;
    let mut k: usize = 0;
    while starts && k < 6
        invariant
            prefix@ == "[read:"@,
            prefix@.len() == 6,
            a <= b <= cs@.len(),
            t == cs@.subrange(a as int, b as int),
            k <= 6,
            starts ==> b - a >= 6,
            starts ==> forall|j: int| 0 <= j < k ==> t[j] == prefix@[j],
            !starts ==> !(t.len() >= 6 && t.subrange(0, 6) == "[read:"@),
        decreases 6 - k + (if starts { 1int } else { 0 }),
    {
        if cs[a + k] != prefix[k] {
            assert(t[k as int] != "[read:"@[k as int]);
            starts = false;
        } else {
            k = k + 1;
        }
    }
    if starts {
        assert(t.subrange(0, 6) =~= "[read:"@);
    }
    if starts && b > a && cs[b - 1] == ']' {
        assert(t.last() == cs@[b - 1]);
        let (c, d) = trim_bounds(&cs, a + 6, b - 1);
        assert(cs@.subrange(a + 6, b - 1) =~= t.subrange(6, t.len() - 1));
        Some(string_from(&cs, c, d))
    } else {
        None
    }
}

/// A command built as `[read:` + `u` + `]` names `u`, trimmed.
pub proof fn law_read_command_roundtrip(u: Seq<char>)
    ensures
        read_command_url("[read:"@ + u + "]"@) == Some(trim(u)),
{
    reveal_strlit("[read:");
    reveal_strlit("]");
    let t = "[read:"@ + u + "]"@;
    assert(t[0] == '[');
    assert(t.last() == ']');
    crate::text::lemma_trim_fixed(t);
    assert(t.subrange(0, 6) =~= "[read:"@);
    assert(t.subrange(6, t.len() - 1) =~= u);
}

/// A recognised command is `[read:`, some text and `]`, with only whitespace
/// around it, and the URL is that text trimmed.
pub proof fn law_read_command_shape(input: Seq<char>)
    ensures
        read_command_url(input) matches Some(u) ==> exists|x: Seq<char>|
            trim(input) == "[read:"@ + x + "]"@ && #[trigger] trim(x) == u,
{
    reveal_strlit("[read:");
    reveal_strlit("]");
    let t = trim(input);
    if read_command_url(input) is Some {
        let x = t.subrange(6, t.len() - 1);
        assert(t =~= "[read:"@ + x + "]"@) by {
            assert(t.subrange(0, 6) == "[read:"@);
            assert forall|i: int| 0 <= i < 6 implies t[i] == "[read:"@[i] by {
                assert(t.subrange(0, 6)[i] == t[i]);
            }
        }
        assert(trim(x) == read_command_url(input)->Some_0);
    }
}

// ---------------------------------------------------------------------------
// Validating the URL
// ---------------------------------------------------------------------------

/// What `url::Url::parse` makes of a string: the URL as it serialises it, or
/// the text of the parse error.
pub uninterp spec fn url_parse(raw: Seq<char>) -> Result<Seq<char>, Seq<char>>;

/// Trusted: calls `url::Url::parse`; on success gives the URL's `as_str`
/// serialisation, on failure the `Display` text of the `ParseError`. The
/// result is named `url_parse` and nothing more is claimed of it.
#[verifier::external_body]
fn parse_url(raw: &str) -> (r: Result<String, String>)
    ensures
        match r {
            Ok(u) => url_parse(raw@) == Ok::<Seq<char>, Seq<char>>(u@),
            Err(e) => url_parse(raw@) == Err::<Seq<char>, Seq<char>>(e@),
        },
{
    match url::Url::parse(raw) {
        Ok(u) => Ok(u.as_str().to_string()),
        Err(e) => Err(e.to_string()),
    }
}

/// The fetch target for a URL parse outcome: the parsed URL, or the error
/// prefixed with `Invalid URL: `.
pub open spec fn target_of(outcome: Result<Seq<char>, Seq<char>>) -> Result<Seq<char>, Seq<char>> {
    match outcome {
        Ok(u) => Ok(u),
        Err(e) => Err("Invalid URL: "@ + e),
    }
}

/// Turns a URL parse outcome into the fetch target or the error reported.
pub fn target_from_parse(outcome: Result<String, String>) -> (r: Result<String, String>)
    ensures
        match (outcome, r) {
            (Ok(u), Ok(v)) => target_of(Ok(u@)) == Ok::<Seq<char>, Seq<char>>(v@),
            (Err(e), Err(m)) => target_of(Err(e@)) == Err::<Seq<char>, Seq<char>>(m@),
            _ => false,
        },
{
    match outcome {
        Ok(u) => Ok(u),
        Err(e) => {
            let mut m = String::from_str("Invalid URL: ");
            m.append(e.as_str());
            Err(m)
        },
    }
}

/// Checks a raw URL before it is fetched: the normalised URL to request, or
/// `Invalid URL: <reason>`.
pub fn fetch_target(raw_url: &str) -> (r: Result<String, String>)
    ensures
        match r {
            Ok(u) => target_of(url_parse(raw_url@)) == Ok::<Seq<char>, Seq<char>>(u@),
            Err(m) => target_of(url_parse(raw_url@)) == Err::<Seq<char>, Seq<char>>(m@),
        },
{
    let outcome = parse_url(raw_url);
    target_from_parse(outcome)
}


// ---------------------------------------------------------------------------
// Extracting the page content
// ---------------------------------------------------------------------------

/// The selector of the page title.
pub const TITLE_SELECTOR: &'static str = "title";

/// The selector of the elements whose text makes the page body.
pub const BODY_SELECTOR: &'static str = "article, main, .content, .page-content, p, li, h1, h2, h3";

/// What `scraper` selects from an HTML document: for each element that the
/// CSS selector matches, in the order `Html::select` yields them, the text
/// nodes below it; `None` where the selector does not parse.
pub uninterp spec fn html_select_text(html: Seq<char>, selector: Seq<char>) -> Option<
    Seq<Seq<Seq<char>>>,
>;

/// Trusted: parses `html` with `scraper::Html::parse_document` and `selector`
/// with `scraper::Selector::parse`; for each element of `Html::select`, in
/// order, collects the strings of `ElementRef::text`. Gives `None` where the
/// selector fails to parse. The result is named `html_select_text` and nothing
/// more is claimed of it.
#[verifier::external_body]
fn select_text_nodes(html: &str, selector: &str) -> (r: Option<Vec<Vec<String>>>)
    ensures
        match r {
            Some(v) => html_select_text(html@, selector@) == Some(v.deep_view()),
            None => html_select_text(html@, selector@) is None,
        },
{
    let sel = match scraper::Selector::parse(selector) {
        Ok(sel) => sel,
        Err(_) => return None,
    };
    let doc = scraper::Html::parse_document(html);
    let mut out: Vec<Vec<String>> = Vec::new();
    for el in doc.select(&sel) {
        let mut nodes: Vec<String> = Vec::new();
        for t in el.text() {
            nodes.push(t.to_string());
        }
        out.push(nodes);
    }
    Some(out)
}

/// The title: the text of the first title element, trimmed, or `Untitled`.
pub open spec fn title_of(selected: Option<Seq<Seq<Seq<char>>>>) -> Seq<char> {
    match selected {
        Some(elements) => if elements.len() > 0 {
            trim(elements[0].flatten())
        } else {
            "Untitled"@
        },
        None => "Untitled"@,
    }
}

/// The body: all text nodes of the body elements joined by spaces, with every
/// run of whitespace collapsed to one space and no whitespace at either end.
pub open spec fn body_of(selected: Option<Seq<Seq<Seq<char>>>>) -> Seq<char> {
    match selected {
        Some(elements) => collapse_ws(join(elements.flatten(), seq![' '])),
        None => seq![],
    }
}

/// The strings one after another.
fn concat_all(parts: &Vec<String>) -> (r: String)
    ensures
        r@ == parts.deep_view().flatten(),
{
    let mut out = String::new();
    let mut i: usize = 0;
    while i < parts.len()
        invariant
            i <= parts@.len(),
            out@ == parts.deep_view().take(i as int).flatten(),
        decreases parts.len() - i,
    {
        proof {
            assert(parts.deep_view().take(i + 1) =~= parts.deep_view().take(i as int).push(
                parts@[i as int]@,
            ));
            parts.deep_view().take(i as int).lemma_flatten_push(parts@[i as int]@);
        }
        out.append(parts[i].as_str());
        i = i + 1;
    }
    assert(parts.deep_view().take(parts@.len() as int) =~= parts.deep_view());
    out
}

/// The strings joined with single spaces.
fn join_with_spaces(parts: &Vec<String>) -> (r: String)
    ensures
        r@ == join(parts.deep_view(), seq![' ']),
{
    let mut out = String::new();
    let mut i: usize = 0;
    while i < parts.len()
        invariant
            i <= parts@.len(),
            out@ == join(parts.deep_view().take(i as int), seq![' ']),
        decreases parts.len() - i,
    {
        proof {
            assert(parts.deep_view().take(i + 1) =~= parts.deep_view().take(i as int).push(
                parts@[i as int]@,
            ));
            crate::text::lemma_join_push(parts.deep_view().take(i as int), seq![' '], parts@[i as int]@);
        }
        if i > 0 {
            push_char(&mut out, ' ');
        }
        out.append(parts[i].as_str());
        i = i + 1;
    }
    assert(parts.deep_view().take(parts@.len() as int) =~= parts.deep_view());
    out
}

/// The text nodes of all elements, in order, in one list.
fn all_nodes(elements: &Vec<Vec<String>>) -> (r: Vec<String>)
    ensures
        r.deep_view() == elements.deep_view().flatten(),
{
    let mut out: Vec<String> = Vec::new();
    let mut i: usize = 0;
    while i < elements.len()
        invariant
            i <= elements@.len(),
            out.deep_view() == elements.deep_view().take(i as int).flatten(),
        decreases elements.len() - i,
    {
        let nodes = &elements[i];
        let mut j: usize = 0;
        while j < nodes.len()
            invariant
                j <= nodes@.len(),
                nodes == elements@[i as int],
                i < elements@.len(),
                out.deep_view() == elements.deep_view().take(i as int).flatten() + nodes.deep_view().take(j as int),
            decreases nodes.len() - j,
        {
            let ghost before = out.deep_view();
            out.push(nodes[j].clone());
            assert(out.deep_view() =~= before.push(nodes@[j as int]@));
            assert(nodes.deep_view().take(j + 1) =~= nodes.deep_view().take(j as int).push(nodes@[j as int]@));
            assert(out.deep_view() =~= elements.deep_view().take(i as int).flatten() + nodes.deep_view().take(j + 1));
            j = j + 1;
        }
        proof {
            assert(nodes.deep_view().take(nodes@.len() as int) =~= nodes.deep_view());
            assert(elements.deep_view().take(i + 1) =~= elements.deep_view().take(i as int).push(
                elements.deep_view()[i as int],
            ));
            elements.deep_view().take(i as int).lemma_flatten_push(elements.deep_view()[i as int]);
        }
        i = i + 1;
    }
    assert(elements.deep_view().take(elements@.len() as int) =~= elements.deep_view());
    out
}

/// Builds the page content from what the title and body selectors selected.
pub fn content_from_selections(
    raw_url: &str,
    title_selected: Option<Vec<Vec<String>>>,
    body_selected: Option<Vec<Vec<String>>>,
) -> (r: FetchedContent)
    ensures
        r.url@ == raw_url@,
        r.title@ == title_of(
            match title_selected {
                Some(v) => Some(v.deep_view()),
                None => None,
            },
        ),
        r.body@ == body_of(
            match body_selected {
                Some(v) => Some(v.deep_view()),
                None => None,
            },
        ),
        r.byte_size == encode_utf8(r.body@).len() as usize,
{
    let title = match &title_selected {
        Some(elements) => {
            if elements.len() > 0 {
                let joined = concat_all(&elements[0]);
                trim_str(joined.as_str())
            } else {
                String::from_str("Untitled")
            }
        },
        None => String::from_str("Untitled"),
    };
    let body = match &body_selected {
        Some(elements) => {
            let nodes = all_nodes(elements);
            let joined = join_with_spaces(&nodes);
            collapse_whitespace(joined.as_str())
        },
        None => String::new(),
    };
    let byte_size = body.as_str().len();
    FetchedContent { url: String::from_str(raw_url), title, body, byte_size }
}

/// Extracts the title and body text of an HTML page read from `raw_url`.
pub fn extract_content(raw_url: &str, html: &str) -> (r: FetchedContent)
    ensures
        r.url@ == raw_url@,
        r.title@ == title_of(html_select_text(html@, TITLE_SELECTOR@)),
        r.body@ == body_of(html_select_text(html@, BODY_SELECTOR@)),
        r.byte_size == encode_utf8(r.body@).len() as usize,
{
    let title_selected = select_text_nodes(html, TITLE_SELECTOR);
    let body_selected = select_text_nodes(html, BODY_SELECTOR);
    content_from_selections(raw_url, title_selected, body_selected)
}

/// The extracted body is already trimmed: removing surrounding whitespace
/// from it changes nothing.
pub proof fn law_body_is_trimmed(selected: Option<Seq<Seq<Seq<char>>>>)
    ensures
        trim(body_of(selected)) == body_of(selected),
{
    match selected {
        Some(elements) => crate::text::lemma_collapse_is_trimmed(join(elements.flatten(), seq![' '])),
        None => {},
    }
}

} // verus!
