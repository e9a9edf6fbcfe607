//! Syntax highlighting of code blocks by `syntect`, and the style it gives a
//! text.

use vstd::prelude::*;
use syntect::easy::HighlightLines;
use syntect::highlighting::{FontStyle, Theme, ThemeSet};
use syntect::parsing::SyntaxSet;
use crate::text::{cat3, chars_of, split, string_from, trim, Separator};
#[allow(unused_imports)]
use crate::text::{
    joined, law_join_undoes_split, law_pieces_hold_no_separator, lemma_pieces_nonempty, opt_str, pieces, texts, trimmed,
};
use crate::view::{line_of, plain_style, push_span, Color, Line, Style};
#[allow(unused_imports)]
use crate::view::{lemma_line_text_push, line_text, line_view, lines_view, plain};
#[allow(unused_imports)]
use crate::wrap::concatenated;

verus! {

#[verifier::external_type_specification]
#[verifier::external_body]
pub struct ExSyntaxSet(SyntaxSet);

#[verifier::external_type_specification]
#[verifier::external_body]
pub struct ExTheme(Theme);

#[verifier::external_type_specification]
#[verifier::external_body]
pub struct ExHighlightLines<'a>(HighlightLines<'a>);

/// The theme of code blocks. It reads well on a dark background.
pub fn highlight_theme() -> (s: &'static str)
    ensures
        s@ == "base16-ocean.dark"@,
{
    "base16-ocean.dark"
}

/// The background of code.
pub open spec fn code_bg() -> Color {
    Color::Rgb(40, 44, 56)
}

pub fn code_bg_color() -> (c: Color)
    ensures
        c == code_bg(),
{
    Color::Rgb(40, 44, 56)
}

/// The syntax definitions and the theme that `syntect` ships. Loading them
/// takes a while, so a program loads them once.
pub struct HighlightAssets {
    syntaxes: SyntaxSet,
    theme: Theme,
}

/// A stretch of highlighted text: its colour and font style.
#[derive(Debug, PartialEq, Eq)]
pub struct Region {
    pub text: String,
    pub rgb: (u8, u8, u8),
    pub bold: bool,
    pub italic: bool,
    pub underline: bool,
}

/// The style of a region.
pub open spec fn region_style(r: Region) -> Style {
    Style {
        fg: Some(Color::Rgb(r.rgb.0, r.rgb.1, r.rgb.2)),
        bg: Some(code_bg()),
        bold: r.bold,
        italic: r.italic,
        underlined: r.underline,
        ..plain()
    }
}

/// A region as text and style.
pub open spec fn region_view(r: Region) -> (Seq<char>, Style) {
    (r.text@, region_style(r))
}

pub open spec fn regions_view(v: Seq<Region>) -> Seq<(Seq<char>, Style)> {
    Seq::new(v.len(), |i: int| region_view(v[i]))
}

/// The shipped theme of a name.
pub uninterp spec fn theme_named(name: Seq<char>) -> Option<Theme>;

/// Whether one of the syntaxes is found by a token, that is by a file extension
/// or a name.
pub uninterp spec fn token_known(syntaxes: SyntaxSet, token: Seq<char>) -> bool;

/// How the last of `lines` is highlighted in a theme, by the syntax that `token`
/// stands for, after the lines before it; nothing where the syntax fails on it.
pub uninterp spec fn highlighted_line(
    theme: Theme,
    syntaxes: SyntaxSet,
    token: Seq<char>,
    lines: Seq<Seq<char>>,
) -> Seq<(Seq<char>, Style)>;

/// The theme of a highlighter, the syntaxes that its own is one of, the token of
/// that, and the lines that it has seen.
pub uninterp spec fn highlighter_state(h: HighlightLines<'_>) -> (
    Theme,
    SyntaxSet,
    Seq<char>,
    Seq<Seq<char>>,
);

impl HighlightAssets {
    pub closed spec fn spec_theme(self) -> Theme {
        self.theme
    }

    pub closed spec fn spec_syntaxes(self) -> SyntaxSet {
        self.syntaxes
    }
}

/// `SyntaxSet::load_defaults_newlines` loads the shipped syntaxes.
#[verifier::external_body]
fn default_syntaxes() -> SyntaxSet {
    SyntaxSet::load_defaults_newlines()
}

/// `ThemeSet::load_defaults` loads the shipped themes; the one of the given name
/// is taken, and named.
#[verifier::external_body]
fn shipped_theme(name: &str) -> (theme: Option<Theme>)
    ensures
        theme == theme_named(name@),
{
    ThemeSet::load_defaults().themes.get(name).cloned()
}

/// `ThemeSet::load_defaults` loads the shipped themes; the first one is taken,
/// and syntect's empty theme where there is none.
#[verifier::external_body]
fn first_theme() -> Theme {
    ThemeSet::load_defaults().themes.values().next().cloned().unwrap_or_default()
}

/// `SyntaxSet::find_syntax_by_token` finds a syntax by file extension, else by
/// name, and `HighlightLines::new` starts to highlight with it in a theme. Whether
/// there is one is named; it has seen no line.
#[verifier::external_body]
fn highlighter_for<'a>(syntaxes: &'a SyntaxSet, theme: &'a Theme, token: &str) -> (h: Option<
    HighlightLines<'a>,
>)
    ensures
        h is Some == token_known(*syntaxes, token@),
        h matches Some(x) ==> highlighter_state(x) == (
            *theme,
            *syntaxes,
            token@,
            Seq::<Seq<char>>::empty(),
        ),
{
    syntaxes.find_syntax_by_token(token).map(|syntax| HighlightLines::new(syntax, theme))
}

/// `HighlightLines::highlight_line` highlights a line after those that it has
/// seen, and gives no regions here where it reports an error. The syntaxes have
/// to be those of the highlighter. That the regions make up the line is not
/// stated: syntect stops early where a syntax leaves its own stack.
#[verifier::external_body]
fn highlight_next(h: &mut HighlightLines<'_>, line: &str, syntaxes: &SyntaxSet) -> (r: Vec<Region>)
    requires
        highlighter_state(*old(h)).1 == *syntaxes,
    ensures
        highlighter_state(*final(h)) == (
            highlighter_state(*old(h)).0,
            highlighter_state(*old(h)).1,
            highlighter_state(*old(h)).2,
            highlighter_state(*old(h)).3.push(line@),
        ),
        regions_view(r@) == highlighted_line(
            highlighter_state(*old(h)).0,
            highlighter_state(*old(h)).1,
            highlighter_state(*old(h)).2,
            highlighter_state(*old(h)).3.push(line@),
        ),
{
    h.highlight_line(line, syntaxes).unwrap_or_default().iter().map(
        |(s, text)| Region {
            text: (*text).to_owned(),
            rgb: (s.foreground.r, s.foreground.g, s.foreground.b),
            bold: s.font_style.contains(FontStyle::BOLD),
            italic: s.font_style.contains(FontStyle::ITALIC),
            underline: s.font_style.contains(FontStyle::UNDERLINE),
        },
    ).collect()
}

/// Loads the shipped syntaxes and the theme of code blocks.
pub fn highlight_assets() -> (assets: HighlightAssets)
    ensures
        theme_named("base16-ocean.dark"@) is Some ==> Some(assets.spec_theme()) == theme_named(
            "base16-ocean.dark"@,
        ),
{
    let theme = match shipped_theme(highlight_theme()) {
        Some(theme) => theme,
        None => first_theme(),
    };
    HighlightAssets { syntaxes: default_syntaxes(), theme }
}

/// The token that a code block's language is looked up by.
pub open spec fn lang_token(lang: Option<Seq<char>>) -> Seq<char> {
    match lang {
        Some(s) => trimmed(s),
        None => Seq::<char>::empty(),
    }
}

/// A syntax is known for the language of a code block.
pub open spec fn lang_known(lang: Option<Seq<char>>, assets: HighlightAssets) -> bool {
    lang_token(lang).len() > 0 && token_known(assets.spec_syntaxes(), lang_token(lang))
}

/// A highlighter for the language of a code block, where a syntax is known for
/// it.
pub fn syntax_for_lang<'a>(assets: &'a HighlightAssets, lang: Option<&str>) -> (h: Option<
    HighlightLines<'a>,
>)
    ensures
        h is Some == lang_known(opt_str(lang), *assets),
        h matches Some(x) ==> highlighter_state(x) == (
            assets.spec_theme(),
            assets.spec_syntaxes(),
            lang_token(opt_str(lang)),
            Seq::<Seq<char>>::empty(),
        ),
{
    match lang {
        Some(name) => {
            let token = trim(name);
            if token.as_str().is_empty() {
                None
            } else {
                highlighter_for(&assets.syntaxes, &assets.theme, token.as_str())
            }
        },
        None => None,
    }
}

/// `s` without the line feeds at its end.
pub open spec fn without_breaks(s: Seq<char>) -> Seq<char>
    decreases s.len(),
{
    if s.len() > 0 && s[s.len() - 1] == '\n' {
        without_breaks(s.take(s.len() - 1))
    } else {
        s
    }
}

fn trim_breaks(s: &str) -> (r: String)
    ensures
        r@ == without_breaks(s@),
{
    let v = chars_of(s);
    let mut k: usize = v.len();
    assert(s@.take(k as int) =~= s@);
    while k > 0 && v[k - 1] == '\n'
        invariant
            v@ == s@,
            k <= v@.len(),
            without_breaks(s@) == without_breaks(s@.take(k as int)),
        decreases k,
    {
        assert(s@.take(k as int).take(k - 1) =~= s@.take(k - 1));
        k -= 1;
    }
    assert(s@.subrange(0, k as int) =~= s@.take(k as int));
    string_from(&v, 0, k)
}

/// The lines of `s`, each with its line feed; the last one may have none.
pub open spec fn ended_lines(s: Seq<char>) -> Seq<Seq<char>> {
    let parts = pieces(s, Separator::Char('\n'));
    let n = parts.len() - 1;
    let ended = Seq::new(n as nat, |i: int| parts[i].push('\n'));
    if parts[n].len() == 0 {
        ended
    } else {
        ended.push(parts[n])
    }
}

/// Splits `s` into lines that keep their line feeds.
pub fn lines_with_endings(s: &str) -> (lines: Vec<String>)
    ensures
        texts(lines@) == ended_lines(s@),
{
    let parts = split(s, Separator::Char('\n'));
    let ghost all = pieces(s@, Separator::Char('\n'));
    let n: usize = parts.len() - 1;
    let mut lines: Vec<String> = Vec::new();
    let mut i: usize = 0;
    while i < n
        invariant
            texts(parts@) == all,
            n == parts@.len() - 1,
            i <= n,
            lines@.len() == i,
            forall|j: int| 0 <= j < i ==> (#[trigger] lines@[j])@ == all[j].push('\n'),
        decreases n - i,
    {
        let mut line = parts[i].clone();
        line.push('\n');
        assert(texts(parts@)[i as int] == parts@[i as int]@);
        lines.push(line);
        i += 1;
    }
    assert(texts(parts@)[n as int] == parts@[n as int]@);
    if !parts[n].as_str().is_empty() {
        lines.push(parts[n].clone());
    }
    assert(texts(lines@) =~= ended_lines(s@));
    lines
}

/// Code that is not highlighted.
pub open spec fn code_style() -> Style {
    Style { fg: Some(Color::Rgb(244, 228, 188)), bg: Some(code_bg()), ..plain() }
}

/// The margin beside code.
pub open spec fn gutter() -> (Seq<char>, Style) {
    (" "@, Style { bg: Some(code_bg()), ..plain() })
}

pub fn code_text_style() -> (s: Style)
    ensures
        s == code_style(),
{
    Style { fg: Some(Color::Rgb(244, 228, 188)), bg: Some(code_bg_color()), ..plain_style() }
}

/// The regions without line feeds at their ends; those that hold nothing else
/// are left out.
pub open spec fn drawn_regions(regions: Seq<(Seq<char>, Style)>) -> Seq<(Seq<char>, Style)>
    decreases regions.len(),
{
    if regions.len() == 0 {
        Seq::<(Seq<char>, Style)>::empty()
    } else {
        let n = regions.len() - 1;
        let before = drawn_regions(regions.take(n));
        let text = without_breaks(regions[n].0);
        if text.len() == 0 {
            before
        } else {
            before.push((text, regions[n].1))
        }
    }
}

/// A line of a highlighted code block, between two margins. A line without
/// regions is drawn as plain code.
pub open spec fn code_line(line: Seq<char>, regions: Seq<(Seq<char>, Style)>) -> Seq<
    (Seq<char>, Style),
> {
    let body = if regions.len() == 0 {
        seq![(without_breaks(line), code_style())]
    } else {
        drawn_regions(regions)
    };
    seq![gutter()] + body + seq![gutter()]
}

/// A line of a highlighted code block.
pub fn draw_code_line(line: &str, regions: &Vec<Region>) -> (out: Line)
    ensures
        line_view(out@) == code_line(line@, regions_view(regions@)),
{
    let mut out: Line = Vec::new();
    let margin = Style { bg: Some(code_bg_color()), ..plain_style() };
    push_span(&mut out, " ".to_owned(), margin);
    assert(line_view(out@) =~= seq![gutter()] + drawn_regions(regions_view(regions@).take(0)));
    if regions.len() == 0 {
        push_span(&mut out, trim_breaks(line), code_text_style());
    } else {
        let mut i: usize = 0;
        while i < regions.len()
            invariant
                i <= regions@.len(),
                line_view(out@) == seq![gutter()] + drawn_regions(
                    regions_view(regions@).take(i as int),
                ),
            decreases regions@.len() - i,
        {
            let ghost t = regions_view(regions@).take(i + 1);
            assert(t.take(t.len() - 1) =~= regions_view(regions@).take(i as int));
            let r = &regions[i];
            assert(t[i as int] == region_view(*r));
            let text = trim_breaks(r.text.as_str());
            if !text.as_str().is_empty() {
                let style = Style {
                    fg: Some(Color::Rgb(r.rgb.0, r.rgb.1, r.rgb.2)),
                    bg: Some(code_bg_color()),
                    bold: r.bold,
                    italic: r.italic,
                    underlined: r.underline,
                    ..plain_style()
                };
                push_span(&mut out, text, style);
            }
            assert(line_view(out@) =~= seq![gutter()] + drawn_regions(t));
            i += 1;
        }
        assert(regions_view(regions@).take(i as int) =~= regions_view(regions@));
    }
    push_span(&mut out, " ".to_owned(), margin);
    assert(line_view(out@) =~= code_line(line@, regions_view(regions@)));
    out
}

/// The lines of a highlighted code block, each highlighted after those before
/// it.
pub open spec fn highlighted_block(
    token: Seq<char>,
    lines: Seq<Seq<char>>,
    assets: HighlightAssets,
) -> Seq<Seq<(Seq<char>, Style)>> {
    Seq::new(
        lines.len(),
        |i: int|
            code_line(
                lines[i],
                highlighted_line(
                    assets.spec_theme(),
                    assets.spec_syntaxes(),
                    token,
                    lines.take(i + 1),
                ),
            ),
    )
}

/// The lines of a code block that is not highlighted: a blank on either side,
/// and nothing for the end of the last line.
pub open spec fn plain_block(source: Seq<char>) -> Seq<Seq<(Seq<char>, Style)>> {
    let parts = pieces(source, Separator::Char('\n'));
    let n = if source.len() > 0 && source[source.len() - 1] == '\n' {
        parts.len() - 1
    } else {
        parts.len() as int
    };
    Seq::new(n as nat, |i: int| seq![(" "@ + parts[i] + " "@, code_style())])
}

/// The lines of a code block: highlighted where a syntax is known for its
/// language.
pub open spec fn code_block(
    source: Seq<char>,
    lang: Option<Seq<char>>,
    assets: HighlightAssets,
) -> Seq<Seq<(Seq<char>, Style)>> {
    if source.len() == 0 {
        Seq::<Seq<(Seq<char>, Style)>>::empty()
    } else if lang_known(lang, assets) {
        highlighted_block(lang_token(lang), ended_lines(source), assets)
    } else {
        plain_block(source)
    }
}

fn draw_plain_block(source: &str) -> (out: Vec<Line>)
    ensures
        lines_view(out@) == plain_block(source@),
{
    let parts = split(source, Separator::Char('\n'));
    let ghost all = pieces(source@, Separator::Char('\n'));
    let chars = chars_of(source);
    let n: usize = if chars.len() > 0 && chars[chars.len() - 1] == '\n' {
        parts.len() - 1
    } else {
        parts.len()
    };
    let mut out: Vec<Line> = Vec::new();
    let mut i: usize = 0;
    while i < n
        invariant
            texts(parts@) == all,
            n <= parts@.len(),
            i <= n,
            out@.len() == i,
            forall|j: int|
                0 <= j < i ==> line_view((#[trigger] out@[j])@) == seq![
                    (" "@ + all[j] + " "@, code_style()),
                ],
        decreases n - i,
    {
        assert(texts(parts@)[i as int] == parts@[i as int]@);
        out.push(line_of(cat3(" ", parts[i].as_str(), " "), code_text_style()));
        i += 1;
    }
    assert(lines_view(out@) =~= plain_block(source@));
    out
}

fn draw_highlighted_block<'a>(
    highlighter: HighlightLines<'a>,
    source: &str,
    assets: &HighlightAssets,
) -> (out: Vec<Line>)
    requires
        highlighter_state(highlighter).0 == assets.spec_theme(),
        highlighter_state(highlighter).1 == assets.spec_syntaxes(),
        highlighter_state(highlighter).3.len() == 0,
    ensures
        lines_view(out@) == highlighted_block(
            highlighter_state(highlighter).2,
            ended_lines(source@),
            *assets,
        ),
{
    let mut h = highlighter;
    let ghost theme = assets.spec_theme();
    let ghost syntaxes = assets.spec_syntaxes();
    let ghost token = highlighter_state(highlighter).2;
    let lines = lines_with_endings(source);
    let ghost all = ended_lines(source@);
    let mut out: Vec<Line> = Vec::new();
    let mut i: usize = 0;
    assert(highlighter_state(h).3 =~= all.take(0));
    while i < lines.len()
        invariant
            texts(lines@) == all,
            i <= lines@.len(),
            syntaxes == assets.syntaxes,
            highlighter_state(h) == (theme, syntaxes, token, all.take(i as int)),
            out@.len() == i,
            forall|j: int|
                0 <= j < i ==> line_view((#[trigger] out@[j])@) == code_line(
                    all[j],
                    highlighted_line(theme, syntaxes, token, all.take(j + 1)),
                ),
        decreases lines@.len() - i,
    {
        assert(texts(lines@)[i as int] == lines@[i as int]@);
        assert(all.take(i as int).push(all[i as int]) =~= all.take(i + 1));
        let regions = highlight_next(&mut h, lines[i].as_str(), &assets.syntaxes);
        out.push(draw_code_line(lines[i].as_str(), &regions));
        i += 1;
    }
    assert(lines_view(out@) =~= highlighted_block(token, all, *assets));
    out
}

/// The lines of a code block.
pub fn draw_code_block(source: &str, lang: Option<&str>, assets: &HighlightAssets) -> (out: Vec<
    Line,
>)
    ensures
        lines_view(out@) == code_block(source@, opt_str(lang), *assets),
{
    if source.is_empty() {
        let out: Vec<Line> = Vec::new();
        assert(lines_view(out@) =~= code_block(source@, opt_str(lang), *assets));
        return out;
    }
    match syntax_for_lang(assets, lang) {
        Some(h) => draw_highlighted_block(h, source, assets),
        None => draw_plain_block(source),
    }
}

/// The lines of a text, one after the other, make up the text.
pub proof fn law_ended_lines_are_the_text(s: Seq<char>)
    ensures
        concatenated(ended_lines(s)) == s,
{
    let parts = pieces(s, Separator::Char('\n'));
    lemma_pieces_nonempty(s, Separator::Char('\n'));
    law_join_undoes_split(s, '\n');
    lemma_ended_joined(parts);
    let n = parts.len() - 1;
    let ended = Seq::new(n as nat, |i: int| parts[i].push('\n'));
    lemma_concatenated_push(ended, parts[n]);
    assert(concatenated(ended) + Seq::<char>::empty() =~= concatenated(ended));
    if parts[n].len() == 0 {
        assert(parts[n] =~= Seq::<char>::empty());
    }
}

proof fn lemma_concatenated_push(v: Seq<Seq<char>>, x: Seq<char>)
    ensures
        concatenated(v.push(x)) == concatenated(v) + x,
    decreases v.len(),
{
    if v.len() == 0 {
        reveal_with_fuel(concatenated, 2);
        assert(v.push(x).skip(1) =~= Seq::<Seq<char>>::empty());
        assert(concatenated(v.push(x)) =~= concatenated(v) + x);
    } else {
        lemma_concatenated_push(v.skip(1), x);
        assert(v.push(x).skip(1) =~= v.skip(1).push(x));
        assert(concatenated(v.push(x)) =~= concatenated(v) + x);
    }
}

proof fn lemma_ended_joined(parts: Seq<Seq<char>>)
    requires
        parts.len() > 0,
    ensures
        joined(parts, seq!['\n']) == concatenated(
            Seq::new((parts.len() - 1) as nat, |i: int| parts[i].push('\n')),
        ) + parts[parts.len() - 1],
    decreases parts.len(),
{
    let n = parts.len() - 1;
    let ended = Seq::new(n as nat, |i: int| parts[i].push('\n'));
    if n == 0 {
        assert(concatenated(ended) + parts[n] =~= parts[0]);
    } else {
        let t = parts.take(n);
        lemma_ended_joined(t);
        let before = Seq::new((n - 1) as nat, |i: int| t[i].push('\n'));
        assert(ended =~= before.push(parts[n - 1].push('\n')));
        lemma_concatenated_push(before, parts[n - 1].push('\n'));
        assert(joined(t, seq!['\n']) + seq!['\n'] =~= concatenated(before) + parts[n - 1].push(
            '\n',
        ));
    }
}

/// The lines of code that is not highlighted read the source: between a blank on
/// either side, they are its lines, and nothing is drawn for a final line feed.
pub proof fn law_plain_code_reads_its_source(
    source: Seq<char>,
    lang: Option<Seq<char>>,
    assets: HighlightAssets,
)
    requires
        source.len() > 0,
        lang is None || !lang_known(lang, assets),
    ensures
        ({
            let rows = code_block(source, lang, assets);
            let inner = Seq::new(
                rows.len(),
                |i: int| line_text(rows[i]).subrange(1, line_text(rows[i]).len() - 1),
            );
            &&& joined(inner, seq!['\n']) == (if source.last() == '\n' {
                source.drop_last()
            } else {
                source
            })
            &&& forall|i: int|
                0 <= i < rows.len() ==> line_text(#[trigger] rows[i]) == seq![' '] + inner[i]
                    + seq![' ']
            &&& forall|i: int, j: int|
                0 <= i < inner.len() && 0 <= j < inner[i].len() ==> #[trigger] inner[i][j] != '\n'
        }),
{
    reveal_strlit(" ");
    let sep = Separator::Char('\n');
    let parts = pieces(source, sep);
    let rows = code_block(source, lang, assets);
    lemma_pieces_nonempty(source, sep);
    law_join_undoes_split(source, '\n');
    assert(rows == plain_block(source));
    let inner = Seq::new(
        rows.len(),
        |i: int| line_text(rows[i]).subrange(1, line_text(rows[i]).len() - 1),
    );
    let none = Seq::<(Seq<char>, Style)>::empty();
    assert forall|i: int| 0 <= i < rows.len() implies line_text(#[trigger] rows[i]) == seq![' ']
        + parts[i] + seq![' '] && inner[i] == parts[i] by {
        lemma_line_text_push(none, rows[i][0]);
        assert(none.push(rows[i][0]) =~= rows[i]);
        assert(line_text(rows[i]) =~= seq![' '] + parts[i] + seq![' ']);
        assert(line_text(rows[i]).subrange(1, line_text(rows[i]).len() - 1) =~= parts[i]);
    }
    let n = parts.len() - 1;
    if source.last() == '\n' {
        assert(inner =~= parts.take(n));
        assert(parts[n].len() == 0);
        assert(source.take(source.len() - 1) =~= source.drop_last());
        assert(parts.take(n) =~= pieces(source.drop_last(), sep));
        law_join_undoes_split(source.drop_last(), '\n');
    } else {
        assert(inner =~= parts);
    }
    assert forall|i: int, j: int| 0 <= i < inner.len() && 0 <= j < inner[i].len() implies
        #[trigger] inner[i][j] != '\n' by {
        law_pieces_hold_no_separator(source, sep, i, j);
    }
}

/// Highlighted code has a line for each line of its source, drawn between two margins
/// from the highlighting of that line after the lines before it; where there is none,
/// the line itself is drawn.
pub proof fn law_highlighted_lines_follow_the_source(
    source: Seq<char>,
    lang: Seq<char>,
    assets: HighlightAssets,
    i: int,
)
    requires
        lang_known(Some(lang), assets),
        0 <= i < ended_lines(source).len(),
        source.len() > 0,
    ensures
        ({
            let lines = ended_lines(source);
            let rows = code_block(source, Some(lang), assets);
            let regions = highlighted_line(
                assets.spec_theme(),
                assets.spec_syntaxes(),
                trimmed(lang),
                lines.take(i + 1),
            );
            &&& rows.len() == lines.len()
            &&& concatenated(lines) == source
            &&& rows[i].len() >= 2
            &&& rows[i][0] == gutter()
            &&& rows[i].last() == gutter()
            &&& regions.len() == 0 ==> rows[i].len() == 3 && without_breaks(lines[i])
                == rows[i][1].0
            &&& regions.len() > 0 ==> rows[i].subrange(1, rows[i].len() - 1) == drawn_regions(
                regions,
            )
        }),
{
    law_ended_lines_are_the_text(source);
    let rows = code_block(source, Some(lang), assets);
    let lines = ended_lines(source);
    let regions = highlighted_line(
        assets.spec_theme(),
        assets.spec_syntaxes(),
        trimmed(lang),
        lines.take(i + 1),
    );
    assert(rows[i] == code_line(lines[i], regions));
    if regions.len() > 0 {
        assert(rows[i].subrange(1, rows[i].len() - 1) =~= drawn_regions(regions));
    }
}

/// What is drawn of highlighted regions are their texts in order and in their styles,
/// without line feeds at their ends; a region of line feeds alone is left out.
pub proof fn law_drawn_regions(regions: Seq<(Seq<char>, Style)>, text: Seq<char>, style: Style, n: nat)
    requires
        text.len() > 0 ==> text.last() != '\n',
    ensures
        drawn_regions(Seq::<(Seq<char>, Style)>::empty()).len() == 0,
        drawn_regions(regions.push((text + Seq::new(n, |i: int| '\n'), style))) == (
        if text.len() == 0 {
            drawn_regions(regions)
        } else {
            drawn_regions(regions).push((text, style))
        }),
{
    let all = regions.push((text + Seq::new(n, |i: int| '\n'), style));
    assert(all.take(all.len() - 1) =~= regions);
    lemma_breaks_are_dropped(text, n);
}

proof fn lemma_breaks_are_dropped(text: Seq<char>, n: nat)
    requires
        text.len() > 0 ==> text.last() != '\n',
    ensures
        without_breaks(text + Seq::new(n, |i: int| '\n')) == text,
    decreases n,
{
    let breaks = Seq::new(n, |i: int| '\n');
    if n == 0 {
        assert(text + breaks =~= text);
    } else {
        lemma_breaks_are_dropped(text, (n - 1) as nat);
        let s = text + breaks;
        assert(s[s.len() - 1] == '\n');
        assert(s.take(s.len() - 1) =~= text + Seq::new((n - 1) as nat, |i: int| '\n'));
    }
}

/// Code is highlighted by the name of its language, whatever white space is around it,
/// and never where no language is given.
pub proof fn law_language_is_looked_up(lang: Seq<char>, assets: HighlightAssets)
    ensures
        lang_known(Some(lang), assets) ==> token_known(assets.spec_syntaxes(), trimmed(lang)),
        trimmed(lang).len() > 0 && token_known(assets.spec_syntaxes(), trimmed(lang)) ==> lang_known(
            Some(lang),
            assets,
        ),
        !lang_known(None, assets),
{
}

} // verus!
