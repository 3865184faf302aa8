//! The calls this library makes into `syntect`, each with the contract that the
//! verified code relies on.
//!
//! Nothing in this file is proved. A syntax set, a theme and an HTML generator are
//! opaque values here; what a call returns for them is given a name. Beyond the
//! names the contracts record only where a syntax set came from and which set a
//! syntax was found in, because the parser needs both.

use vstd::prelude::*;
use syntect::highlighting::{Theme, ThemeSet};
use syntect::html::{css_for_theme_with_class_style, ClassStyle, ClassedHTMLGenerator};
use syntect::parsing::{SyntaxReference, SyntaxSet};

verus! {

/// `syntect::parsing::SyntaxSet`, carried as an opaque value.
#[verifier::external_type_specification]
#[verifier::external_body]
pub struct ExSyntaxSet(SyntaxSet);

/// `syntect::parsing::SyntaxReference`, carried as an opaque value.
#[verifier::external_type_specification]
#[verifier::external_body]
pub struct ExSyntaxReference(SyntaxReference);

/// `syntect::highlighting::ThemeSet`, carried as an opaque value.
#[verifier::external_type_specification]
#[verifier::external_body]
pub struct ExThemeSet(ThemeSet);

/// `syntect::highlighting::Theme`, carried as an opaque value.
#[verifier::external_type_specification]
#[verifier::external_body]
pub struct ExTheme(Theme);

/// `syntect::html::ClassedHTMLGenerator`, carried as an opaque value.
#[verifier::external_type_specification]
#[verifier::external_body]
pub struct ExClassedHTMLGenerator<'a>(ClassedHTMLGenerator<'a>);

/// `syntect::Error`, carried as an opaque value.
#[verifier::external_type_specification]
#[verifier::external_body]
pub struct ExSyntectError(syntect::Error);

/// Whether `set` is the syntax set that ships inside `syntect`, in its variant for
/// lines that keep their line feed.
pub uninterp spec fn bundled_syntaxes(set: SyntaxSet) -> bool;

/// Whether `syntax` is one of the syntaxes that `set` holds.
pub uninterp spec fn syntax_belongs(set: SyntaxSet, syntax: SyntaxReference) -> bool;

/// The syntax that `SyntaxSet::find_syntax_by_extension` finds in `set`.
pub uninterp spec fn syntax_by_extension(set: SyntaxSet, extension: Seq<char>) -> Option<
    SyntaxReference,
>;

/// The syntax that `SyntaxSet::find_syntax_by_name` finds in `set`.
pub uninterp spec fn syntax_by_name(set: SyntaxSet, name: Seq<char>) -> Option<SyntaxReference>;

/// The theme that `themes` holds under the key `name`.
pub uninterp spec fn named_theme(themes: ThemeSet, name: Seq<char>) -> Option<Theme>;

/// The theme that `themes` holds under its least key.
pub uninterp spec fn leading_theme(themes: ThemeSet) -> Option<Theme>;

/// The style sheet that `css_for_theme_with_class_style` writes for `theme` with
/// space-separated class names, or `None` where it reports an error.
pub uninterp spec fn theme_css(theme: Theme) -> Option<Seq<char>>;

/// The generator that `ClassedHTMLGenerator::new_with_class_style` makes for
/// `syntax` in `set` with space-separated class names.
pub uninterp spec fn generator_start(
    set: SyntaxSet,
    syntax: SyntaxReference,
) -> ClassedHTMLGenerator<'static>;

/// The generator after `parse_html_for_line_which_includes_newline` has been
/// given `line`, whether or not the call reported an error.
pub uninterp spec fn generator_after(
    generator: ClassedHTMLGenerator<'_>,
    line: Seq<char>,
) -> ClassedHTMLGenerator<'static>;

/// The HTML that `ClassedHTMLGenerator::finalize` returns for `generator`.
pub uninterp spec fn generator_html(generator: ClassedHTMLGenerator<'_>) -> Seq<char>;

/// Calls `SyntaxSet::load_defaults_newlines`.
///
/// Trusted: the call reads a dump that is compiled into `syntect` and cannot
/// fail. The dump is built from a set to which the plain text syntax is added
/// first, and the crate documents that syntax as always present.
#[verifier::external_body]
pub(crate) fn load_syntaxes() -> (set: SyntaxSet)
    ensures
        bundled_syntaxes(set),
        syntax_by_name(set, "Plain Text"@).is_some(),
{
    SyntaxSet::load_defaults_newlines()
}

/// Calls `ThemeSet::load_defaults`.
///
/// Trusted: the crate documents the keys of the themes it loads, and
/// `base16-ocean.dark` is the first of them.
#[verifier::external_body]
pub(crate) fn load_themes() -> (themes: ThemeSet)
    ensures
        named_theme(themes, "base16-ocean.dark"@).is_some(),
{
    ThemeSet::load_defaults()
}

/// Calls `SyntaxSet::find_syntax_by_extension`.
///
/// Trusted: the method searches the set's own syntaxes and returns a reference
/// to one of them, or `None`.
#[verifier::external_body]
pub(crate) fn find_syntax_by_extension<'a>(set: &'a SyntaxSet, extension: &str) -> (found: Option<
    &'a SyntaxReference,
>)
    ensures
        match found {
            Some(syntax) => syntax_by_extension(*set, extension@) == Some(*syntax)
                && syntax_belongs(*set, *syntax),
            None => syntax_by_extension(*set, extension@).is_none(),
        },
{
    set.find_syntax_by_extension(extension)
}

/// Calls `SyntaxSet::find_syntax_by_name`.
///
/// Trusted: the method searches the set's own syntaxes and returns a reference
/// to one of them, or `None`.
#[verifier::external_body]
pub(crate) fn find_syntax_by_name<'a>(set: &'a SyntaxSet, name: &str) -> (found: Option<
    &'a SyntaxReference,
>)
    ensures
        match found {
            Some(syntax) => syntax_by_name(*set, name@) == Some(*syntax) && syntax_belongs(
                *set,
                *syntax,
            ),
            None => syntax_by_name(*set, name@).is_none(),
        },
{
    set.find_syntax_by_name(name)
}

/// Looks `name` up in the public map `ThemeSet::themes` with `BTreeMap::get`.
#[verifier::external_body]
pub(crate) fn find_theme<'a>(themes: &'a ThemeSet, name: &str) -> (found: Option<&'a Theme>)
    ensures
        match found {
            Some(theme) => named_theme(*themes, name@) == Some(*theme),
            None => named_theme(*themes, name@).is_none(),
        },
{
    themes.themes.get(name)
}

/// Takes the first entry of the public map `ThemeSet::themes` with
/// `BTreeMap::first_key_value` and keeps its value.
#[verifier::external_body]
pub(crate) fn first_theme<'a>(themes: &'a ThemeSet) -> (found: Option<&'a Theme>)
    ensures
        match found {
            Some(theme) => leading_theme(*themes) == Some(*theme),
            None => leading_theme(*themes).is_none(),
        },
{
    themes.themes.first_key_value().map(|entry| entry.1)
}

/// Calls `css_for_theme_with_class_style` with `ClassStyle::Spaced`.
#[verifier::external_body]
pub(crate) fn css_for_theme(theme: &Theme) -> (css: Result<String, syntect::Error>)
    ensures
        match css {
            Ok(text) => theme_css(*theme) == Some(text@),
            Err(_) => theme_css(*theme).is_none(),
        },
{
    css_for_theme_with_class_style(theme, ClassStyle::Spaced)
}

/// Calls `ClassedHTMLGenerator::new_with_class_style` with `ClassStyle::Spaced`.
///
/// The parser behind the generator indexes into the set that the syntax came
/// from, so the syntax has to belong to the set. It also starts by looking up
/// the context `__start` of the syntax and panics where there is none. The
/// loaders of `syntect` give that context to every syntax they read, but a set
/// can be built from definitions written by hand that lack it, so the set has to
/// be the bundled one.
#[verifier::external_body]
pub(crate) fn new_generator<'a>(syntax: &'a SyntaxReference, set: &'a SyntaxSet) -> (generator:
    ClassedHTMLGenerator<'a>)
    requires
        bundled_syntaxes(*set),
        syntax_belongs(*set, *syntax),
    ensures
        generator == generator_start(*set, *syntax),
{
    ClassedHTMLGenerator::new_with_class_style(syntax, set, ClassStyle::Spaced)
}

/// Calls `ClassedHTMLGenerator::parse_html_for_line_which_includes_newline`.
///
/// Trusted: the generator afterwards depends on the generator before and on the
/// line alone. Nothing is claimed of the returned `Result`.
#[verifier::external_body]
pub(crate) fn parse_line<'a>(generator: &mut ClassedHTMLGenerator<'a>, line: &str) -> (outcome:
    Result<(), syntect::Error>)
    ensures
        *final(generator) == generator_after(*old(generator), line@),
{
    generator.parse_html_for_line_which_includes_newline(line)
}

/// Calls `ClassedHTMLGenerator::finalize`.
#[verifier::external_body]
pub(crate) fn finalize(generator: ClassedHTMLGenerator<'_>) -> (html: String)
    ensures
        html@ == generator_html(generator),
{
    generator.finalize()
}

} // verus!
