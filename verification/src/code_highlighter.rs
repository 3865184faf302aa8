//! The syntax-highlighting plugin: source text in, a self-contained HTML
//! fragment out.
//!
//! The page is a style sheet for the theme followed by the classed HTML of the
//! code. Which syntax and which theme are used is decided here; the HTML and the
//! CSS themselves come from `syntect`.

use vstd::prelude::*;
use syntect::highlighting::{Theme, ThemeSet};
use syntect::html::ClassedHTMLGenerator;
use syntect::parsing::{SyntaxReference, SyntaxSet};
use vstd::utf8::*;
use crate::boundary::{
    address_of, buffer_bytes, buffer_in_memory, decode_string, deliver, flatten, flattened,
    hands_over, lemma_buffer_ignores_other_memory, read_buffer, rendered_view, view_buffer,
    ExportOutcome, HostCall, PayloadView, RenderError, ResultPayload,
};
use crate::syntect_api::{
    bundled_syntaxes, css_for_theme, finalize, find_syntax_by_extension, find_syntax_by_name,
    find_theme, first_theme, generator_after, generator_html, generator_start, leading_theme,
    load_syntaxes, load_themes, named_theme, new_generator, parse_line, syntax_belongs,
    syntax_by_extension, syntax_by_name, theme_css,
};
use crate::text::{decode_bytes, decoded_text, split_lines, text_lines, trim_dots, trimmed};

verus! {

/// The syntax for a language hint: the one registered for the hint as a file
/// extension, dots at either end ignored, and plain text where the hint is empty
/// or unknown.
pub open spec fn chosen_syntax(set: SyntaxSet, extension: Seq<char>) -> Option<SyntaxReference> {
    if extension.len() > 0 && syntax_by_extension(set, trimmed(extension, '.')).is_some() {
        syntax_by_extension(set, trimmed(extension, '.'))
    } else {
        syntax_by_name(set, "Plain Text"@)
    }
}

/// The theme for the style sheet: the preferred one where the set has it, else
/// the first theme of the set.
pub open spec fn chosen_theme(themes: ThemeSet) -> Option<Theme> {
    if named_theme(themes, "base16-ocean.dark"@).is_some() {
        named_theme(themes, "base16-ocean.dark"@)
    } else {
        leading_theme(themes)
    }
}

/// The style sheet of a theme; empty where none could be written.
pub open spec fn stylesheet(theme: Theme) -> Seq<char> {
    match theme_css(theme) {
        Some(css) => css,
        None => Seq::empty(),
    }
}

/// A generator after it has been given `lines` in order.
pub open spec fn fed(
    generator: ClassedHTMLGenerator<'static>,
    lines: Seq<Seq<char>>,
) -> ClassedHTMLGenerator<'static>
    decreases lines.len(),
{
    if lines.len() == 0 {
        generator
    } else {
        generator_after(fed(generator, lines.drop_last()), lines.last())
    }
}

/// The classed HTML of `lines` read in `syntax`.
pub open spec fn highlighted_lines(
    set: SyntaxSet,
    syntax: SyntaxReference,
    lines: Seq<Seq<char>>,
) -> Seq<char> {
    generator_html(fed(generator_start(set, syntax), lines))
}

/// The finished fragment: the style sheet in a `style` element, then the
/// highlighted code in a `pre` element.
pub open spec fn highlight_page(css: Seq<char>, body: Seq<char>) -> Seq<char> {
    "<style>"@ + css + "</style><pre class=\"neon-code syntect\">"@ + body + "</pre>"@
}

/// The payload that carries a page: the fragment as UTF-8, labelled
/// `text/html`.
pub open spec fn page_payload(css: Seq<char>, body: Seq<char>) -> PayloadView {
    PayloadView { data: encode_utf8(highlight_page(css, body)), mime_type: "text/html"@ }
}

/// What highlighting `code` under the hint `extension` gives with the given
/// syntaxes and themes: the page as UTF-8 labelled `text/html`, or the reason
/// why there is none.
pub open spec fn highlight_outcome(
    set: SyntaxSet,
    themes: ThemeSet,
    code: Seq<char>,
    extension: Seq<char>,
) -> Result<PayloadView, RenderError> {
    match chosen_theme(themes) {
        None => Err(RenderError::NoTheme),
        Some(theme) => match chosen_syntax(set, extension) {
            None => Err(RenderError::NoSyntax),
            Some(syntax) => Ok(
                page_payload(
                    stylesheet(theme),
                    highlighted_lines(set, syntax, text_lines(code)),
                ),
            ),
        },
    }
}

/// Whether `payload` carries a page, whatever its style sheet and its code.
pub open spec fn is_page(payload: PayloadView) -> bool {
    exists|css: Seq<char>, body: Seq<char>| payload == #[trigger] page_payload(css, body)
}

/// Whether `call` hands over a page, whatever its style sheet and its code.
pub open spec fn hands_over_page(call: HostCall) -> bool {
    exists|css: Seq<char>, body: Seq<char>| hands_over(call, #[trigger] page_payload(css, body))
}

/// Whether `set` and `themes` are the syntaxes and the themes that ship inside
/// `syntect`: the bundled syntaxes, plain text among them, and themes that
/// include the preferred one.
pub open spec fn bundled_assets(set: SyntaxSet, themes: ThemeSet) -> bool {
    &&& bundled_syntaxes(set)
    &&& syntax_by_name(set, "Plain Text"@).is_some()
    &&& named_theme(themes, "base16-ocean.dark"@).is_some()
}

/// Whether `rendered` is what highlighting `code` under `extension` gives with
/// the bundled syntaxes and themes.
pub open spec fn is_highlight_of(
    rendered: Result<PayloadView, RenderError>,
    code: Seq<char>,
    extension: Seq<char>,
) -> bool {
    exists|set: SyntaxSet, themes: ThemeSet|
        bundled_assets(set, themes) && rendered == #[trigger] highlight_outcome(
            set,
            themes,
            code,
            extension,
        )
}

/// Whether `call` hands over what highlighting `code` under `extension` gives
/// with the bundled syntaxes and themes.
pub open spec fn hands_over_highlight(
    call: HostCall,
    code: Seq<char>,
    extension: Seq<char>,
) -> bool {
    exists|rendered: Result<PayloadView, RenderError>|
        #![trigger is_highlight_of(rendered, code, extension)]
        is_highlight_of(rendered, code, extension) && hands_over(
            call,
            flattened(rendered, "application/octet-stream"@),
        )
}

/// Readiness probe of the plugin.
pub fn init() -> (status: i32)
    ensures
        status == 0,
{
    0
}

/// Picks the syntax for a language hint.
pub fn syntax_for_extension<'a>(set: &'a SyntaxSet, extension: &str) -> (syntax: Option<
    &'a SyntaxReference,
>)
    ensures
        match syntax {
            Some(found) => chosen_syntax(*set, extension@) == Some(*found) && syntax_belongs(
                *set,
                *found,
            ),
            None => chosen_syntax(*set, extension@).is_none(),
        },
{
    if !extension.is_empty() {
        if let Some(syntax) = find_syntax_by_extension(set, trim_dots(extension)) {
            return Some(syntax);
        }
    }
    find_syntax_by_name(set, "Plain Text")
}

/// Picks the theme for the style sheet.
pub fn select_theme<'a>(themes: &'a ThemeSet) -> (theme: Option<&'a Theme>)
    ensures
        match theme {
            Some(found) => chosen_theme(*themes) == Some(*found),
            None => chosen_theme(*themes).is_none(),
        },
{
    match find_theme(themes, "base16-ocean.dark") {
        Some(theme) => Some(theme),
        None => first_theme(themes),
    }
}

/// Feeds `lines` to a fresh generator, one by one and in order, and returns the
/// HTML it has built. A line that the parser rejects is passed over.
pub fn highlight_lines<'a>(
    syntax: &'a SyntaxReference,
    set: &'a SyntaxSet,
    lines: &Vec<&str>,
) -> (body: String)
    requires
        bundled_syntaxes(*set),
        syntax_belongs(*set, *syntax),
    ensures
        body@ == highlighted_lines(*set, *syntax, lines@.map_values(|line: &str| line@)),
{
    let ghost texts = lines@.map_values(|line: &str| line@);
    let ghost start = generator_start(*set, *syntax);
    let mut generator = new_generator(syntax, set);
    let mut i: usize = 0;
    while i < lines.len()
        invariant
            i <= lines.len(),
            texts == lines@.map_values(|line: &str| line@),
            generator == fed(start, texts.take(i as int)),
        decreases lines.len() - i,
    {
        let line: &str = lines[i];
        let _ = parse_line(&mut generator, line);
        proof {
            let next = texts.take(i + 1);
            assert(next.drop_last() =~= texts.take(i as int));
            assert(next.last() == line@);
        }
        i += 1;
    }
    proof {
        assert(texts.take(i as int) =~= texts);
    }
    finalize(generator)
}

/// Puts the style sheet and the highlighted code into one fragment.
pub fn wrap_html(css: &str, body: &str) -> (page: String)
    ensures
        page@ == highlight_page(css@, body@),
{
    let mut page = String::from_str("<style>");
    page.append(css);
    page.append("</style><pre class=\"neon-code syntect\">");
    page.append(body);
    page.append("</pre>");
    page
}

/// Highlights `code` under the hint `extension` with the given syntaxes and
/// themes.
///
/// Parsing needs the bundled syntax set. A set that offers no syntax for the
/// hint is never parsed with, so nothing is asked of it.
pub fn highlight_with(
    syntaxes: &SyntaxSet,
    themes: &ThemeSet,
    code: &str,
    extension: &str,
) -> (rendered: Result<ResultPayload, RenderError>)
    requires
        chosen_syntax(*syntaxes, extension@).is_some() ==> bundled_syntaxes(*syntaxes),
    ensures
        rendered_view(rendered) == highlight_outcome(*syntaxes, *themes, code@, extension@),
{
    let theme = match select_theme(themes) {
        Some(theme) => theme,
        None => {
            return Err(RenderError::NoTheme);
        },
    };
    let syntax = match syntax_for_extension(syntaxes, extension) {
        Some(syntax) => syntax,
        None => {
            return Err(RenderError::NoSyntax);
        },
    };
    let lines = split_lines(code);
    let body = highlight_lines(syntax, syntaxes, &lines);
    let css = match css_for_theme(theme) {
        Ok(css) => css,
        Err(_) => String::new(),
    };
    let page = wrap_html(css.as_str(), body.as_str());
    Ok(
        ResultPayload {
            data: page.as_str().as_bytes_vec(),
            mime_type: String::from_str("text/html"),
        },
    )
}

/// The highlighting renderer: decodes `code`, loads the bundled syntaxes and
/// themes, and highlights under the hint. With the bundled sets there is always
/// a theme and always a syntax, so the result is a page for every input.
pub fn render_highlight(code: &[u8], extension: &str) -> (rendered: Result<
    ResultPayload,
    RenderError,
>)
    ensures
        is_highlight_of(rendered_view(rendered), decoded_text(code@), extension@),
        rendered matches Ok(payload) && is_page(payload@) && payload@.data.len() > 0,
{
    let text = decode_bytes(code);
    let syntaxes = load_syntaxes();
    let themes = load_themes();
    proof {
        lemma_bundled_highlight_is_a_page(syntaxes, themes, text@, extension@);
    }
    highlight_with(&syntaxes, &themes, text.as_str(), extension)
}

/// Highlights `code` under the hint `extension` and prepares the hand-over of
/// the page. The status is zero.
pub fn highlight_text(code: &[u8], extension: &str) -> (outcome: ExportOutcome)
    ensures
        outcome.status == 0,
        hands_over_highlight(outcome.call, decoded_text(code@), extension@),
        hands_over_page(outcome.call),
        outcome.call.data@.len() > 0,
{
    let rendered = render_highlight(code, extension);
    let ghost seen = rendered_view(rendered);
    let outcome = deliver(flatten(rendered, "application/octet-stream"));
    proof {
        assert(is_highlight_of(seen, decoded_text(code@), extension@));
        let payload = seen->Ok_0;
        let (css, body) = choose|css: Seq<char>, body: Seq<char>|
            payload == #[trigger] page_payload(css, body);
        assert(hands_over(outcome.call, page_payload(css, body)));
    }
    outcome
}

/// The export behind `highlight_code`: reads the code and the language hint from
/// `memory`, highlights, and hands the page over.
pub fn highlight_code(
    memory: &[u8],
    data_ptr: i32,
    data_len: i32,
    lang_ptr: i32,
    lang_len: i32,
) -> (outcome: ExportOutcome)
    requires
        buffer_in_memory(memory@, data_ptr, data_len),
        buffer_in_memory(memory@, lang_ptr, lang_len),
    ensures
        outcome.status == 0,
        hands_over_highlight(
            outcome.call,
            decoded_text(buffer_bytes(memory@, data_ptr, data_len)),
            decoded_text(buffer_bytes(memory@, lang_ptr, lang_len)),
        ),
        hands_over_page(outcome.call),
        outcome.call.data@.len() > 0,
{
    let input = read_buffer(memory, view_buffer(data_ptr, data_len));
    let extension = decode_string(memory, lang_ptr, lang_len);
    highlight_text(input, extension.as_str())
}

/// The export behind `preview_file`: previews a file by highlighting it.
pub fn preview_file(
    memory: &[u8],
    data_ptr: i32,
    data_len: i32,
    lang_ptr: i32,
    lang_len: i32,
) -> (outcome: ExportOutcome)
    requires
        buffer_in_memory(memory@, data_ptr, data_len),
        buffer_in_memory(memory@, lang_ptr, lang_len),
    ensures
        outcome.status == 0,
        hands_over_highlight(
            outcome.call,
            decoded_text(buffer_bytes(memory@, data_ptr, data_len)),
            decoded_text(buffer_bytes(memory@, lang_ptr, lang_len)),
        ),
        hands_over_page(outcome.call),
        outcome.call.data@.len() > 0,
{
    highlight_code(memory, data_ptr, data_len, lang_ptr, lang_len)
}

/// With the same syntaxes and themes, highlighting is a function of the code and
/// the hint alone: two memories that agree inside the two buffers give the same
/// page, whatever else they hold and whatever was highlighted before.
pub proof fn lemma_highlight_ignores_other_memory(
    first: Seq<u8>,
    second: Seq<u8>,
    data: (i32, i32),
    lang: (i32, i32),
    set: SyntaxSet,
    themes: ThemeSet,
)
    requires
        buffer_in_memory(first, data.0, data.1),
        buffer_in_memory(second, data.0, data.1),
        buffer_in_memory(first, lang.0, lang.1),
        buffer_in_memory(second, lang.0, lang.1),
        forall|i: int|
            address_of(data.0) <= i < address_of(data.0) + data.1 ==> first[i] == second[i],
        forall|i: int|
            address_of(lang.0) <= i < address_of(lang.0) + lang.1 ==> first[i] == second[i],
    ensures
        highlight_outcome(
            set,
            themes,
            decoded_text(buffer_bytes(first, data.0, data.1)),
            decoded_text(buffer_bytes(first, lang.0, lang.1)),
        ) == highlight_outcome(
            set,
            themes,
            decoded_text(buffer_bytes(second, data.0, data.1)),
            decoded_text(buffer_bytes(second, lang.0, lang.1)),
        ),
{
    lemma_buffer_ignores_other_memory(first, second, data.0, data.1);
    lemma_buffer_ignores_other_memory(first, second, lang.0, lang.1);
}

/// A page is never empty: it holds at least its own elements.
pub proof fn lemma_page_is_never_empty(css: Seq<char>, body: Seq<char>)
    ensures
        page_payload(css, body).data.len() > 0,
{
    reveal_strlit("<style>");
    let page = highlight_page(css, body);
    assert(page.len() > 0);
    assert(encode_scalar(page[0] as u32).len() > 0);
}

/// Where the syntaxes hold plain text and the themes hold the preferred theme,
/// highlighting gives a page for every code and every hint: an empty or unknown
/// hint is no failure, nor is empty code.
pub proof fn lemma_bundled_highlight_is_a_page(
    set: SyntaxSet,
    themes: ThemeSet,
    code: Seq<char>,
    extension: Seq<char>,
)
    requires
        syntax_by_name(set, "Plain Text"@).is_some(),
        named_theme(themes, "base16-ocean.dark"@).is_some(),
    ensures
        highlight_outcome(set, themes, code, extension) matches Ok(payload) && is_page(payload)
            && payload.data.len() > 0,
{
    let syntax = chosen_syntax(set, extension)->Some_0;
    let theme = chosen_theme(themes)->Some_0;
    let css = stylesheet(theme);
    let body = highlighted_lines(set, syntax, text_lines(code));
    assert(highlight_outcome(set, themes, code, extension) == Ok::<PayloadView, RenderError>(
        page_payload(css, body),
    ));
    lemma_page_is_never_empty(css, body);
}

/// An unknown hint is read as no hint: where no syntax is registered for the
/// extension, the page is the one that the empty hint gives.
pub proof fn lemma_unknown_hint_is_plain_text(
    set: SyntaxSet,
    themes: ThemeSet,
    code: Seq<char>,
    extension: Seq<char>,
)
    requires
        syntax_by_extension(set, trimmed(extension, '.')).is_none(),
    ensures
        highlight_outcome(set, themes, code, extension) == highlight_outcome(
            set,
            themes,
            code,
            Seq::empty(),
        ),
{
}

} // verus!
