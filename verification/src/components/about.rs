use vstd::prelude::*;

use ratex_layout::{LayoutBox, LayoutOptions};
use ratex_parser::ParseNode;
use ratex_svg::SvgOptions;
use ratex_types::DisplayList;

verus! {

#[verifier::external_type_specification]
#[verifier::external_body]
pub struct ExParseNode(ParseNode);

#[verifier::external_type_specification]
#[verifier::external_body]
pub struct ExLayoutBox(LayoutBox);

#[verifier::external_type_specification]
#[verifier::external_body]
pub struct ExDisplayList(DisplayList);

#[verifier::external_type_specification]
#[verifier::external_body]
pub struct ExSvgOptions(SvgOptions);

/// What `ratex_parser::parse` makes of the LaTeX source `latex`: its nodes,
/// or the `Debug` text of its error. The parser reads its input and fixed
/// tables only, under fixed depth and expansion budgets.
pub uninterp spec fn latex_parse_result(latex: Seq<char>) -> Result<Seq<ParseNode>, Seq<char>>;

/// Whether the parser accepts `latex`.
pub open spec fn latex_parses(latex: Seq<char>) -> bool {
    latex_parse_result(latex) is Ok
}

/// The box `ratex_layout::layout` builds of `nodes` under
/// `LayoutOptions::default()`; the layout is a function of its arguments.
pub uninterp spec fn default_layout_of(nodes: Seq<ParseNode>) -> LayoutBox;

/// The drawing items `ratex_layout::to_display_list` makes of a box.
pub uninterp spec fn display_list_of_box(root: LayoutBox) -> DisplayList;

/// `ratex_svg::SvgOptions::default()` with its `embed_glyphs` field set to
/// `embed`.
pub uninterp spec fn svg_options_with(embed: bool) -> SvgOptions;

/// `svg` is a text that `ratex_svg::render_to_svg` may return for `list`
/// under `options`. A relation, not a function: glyphs that the KaTeX fonts
/// lack are drawn from the fonts of the machine.
pub uninterp spec fn is_rendering(list: DisplayList, options: SvgOptions, svg: Seq<char>) -> bool;

/// A parse outcome by its views.
pub open spec fn parse_view(parsed: Result<Vec<ParseNode>, String>) -> Result<Seq<ParseNode>, Seq<char>> {
    match parsed {
        Ok(nodes) => Ok(nodes@),
        Err(text) => Err(text@),
    }
}

/// `ratex_parser::parse`, its error given as its `Debug` text: the result is
/// `latex_parse_result` of the source.
#[verifier::external_body]
fn parse_latex(latex: &str) -> (parsed: Result<Vec<ParseNode>, String>)
    ensures
        parse_view(parsed) == latex_parse_result(latex@),
{
    match ratex_parser::parse(latex) {
        Ok(nodes) => Ok(nodes),
        Err(err) => Err(format!("{:?}", err)),
    }
}

/// `ratex_layout::layout` of `nodes` under `LayoutOptions::default()`: the
/// result is `default_layout_of` the nodes.
#[verifier::external_body]
fn layout_nodes(nodes: &Vec<ParseNode>) -> (root: LayoutBox)
    ensures
        root == default_layout_of(nodes@),
{
    ratex_layout::layout(nodes, &LayoutOptions::default())
}

/// `ratex_layout::to_display_list`: the result is `display_list_of_box` of
/// the box.
#[verifier::external_body]
fn display_list_of(root: &LayoutBox) -> (list: DisplayList)
    ensures
        list == display_list_of_box(*root),
{
    ratex_layout::to_display_list(root)
}

/// `ratex_svg::SvgOptions::default()` with `embed_glyphs` set to `embed`:
/// the result is `svg_options_with(embed)`.
#[verifier::external_body]
fn svg_options(embed: bool) -> (options: SvgOptions)
    ensures
        options == svg_options_with(embed),
{
    SvgOptions { embed_glyphs: embed, ..SvgOptions::default() }
}

/// The opening that `ratex_svg` writes at the head of every SVG document.
pub open spec fn svg_document_prefix() -> Seq<char> {
    "<svg xmlns=\"http://www.w3.org/2000/svg\" viewBox=\"0 0 "@
}

/// The closing tag that ends every SVG document `ratex_svg` writes.
pub open spec fn svg_document_suffix() -> Seq<char> {
    "</svg>"@
}

/// `s` is a whole SVG document as `ratex_svg` writes it: the opening
/// `<svg xmlns=".." viewBox="0 0 `, then the rest, then `</svg>`.
pub open spec fn is_svg_document(s: Seq<char>) -> bool {
    let p = svg_document_prefix();
    let q = svg_document_suffix();
    &&& s.len() >= p.len() + q.len()
    &&& s.take(p.len() as int) == p
    &&& s.skip(s.len() - q.len()) == q
}

/// `ratex_svg::render_to_svg`: a rendering of `list` under `options`
/// (`is_rendering`), which its source always wraps in the same opening and
/// closing tags (`wrap_svg`). The view box and the drawing between them are
/// not stated beyond that relation.
#[verifier::external_body]
fn render_svg(list: &DisplayList, options: &SvgOptions) -> (svg: String)
    ensures
        is_rendering(*list, *options, svg@),
        is_svg_document(svg@),
{
    ratex_svg::render_to_svg(list, options)
}

/// Why a formula could not be turned into an image.
#[derive(Debug)]
pub enum LatexError {
    /// The source is not LaTeX that the parser accepts; the text says why.
    Parse(String),
}

/// The message of a parse failure whose parser error reads `debug_text`.
pub open spec fn parse_error_message(debug_text: Seq<char>) -> Seq<char> {
    "LaTeX parse error: "@ + debug_text
}

/// The error reported for a formula that does not parse, given the text of
/// the parser's error.
pub fn parse_failure(debug_text: &str) -> (err: LatexError)
    ensures
        err matches LatexError::Parse(m) && m@ == parse_error_message(debug_text@),
{
    let mut message = String::from_str("LaTeX parse error: ");
    message.append(debug_text);
    LatexError::Parse(message)
}

/// The SVG texts that may show the parsed nodes `nodes`: a whole document
/// rendered, glyphs embedded, from the display list of their default layout.
pub open spec fn is_formula_svg(nodes: Seq<ParseNode>, doc: Seq<char>) -> bool {
    &&& is_svg_document(doc)
    &&& is_rendering(display_list_of_box(default_layout_of(nodes)), svg_options_with(true), doc)
}

/// The image of a formula that parses is a rendering, glyphs embedded, of
/// the default layout of every node the parser returns, and any whole SVG
/// document that is such a rendering is one: no node is left out or added.
pub proof fn lemma_formula_svg_draws_all_nodes(nodes: Seq<ParseNode>, doc: Seq<char>)
    ensures
        is_formula_svg(nodes, doc) <==> (is_svg_document(doc) && is_rendering(
            display_list_of_box(default_layout_of(nodes)),
            svg_options_with(true),
            doc,
        )),
{
}

/// Renders the LaTeX formula `latex` as a self-contained SVG document (its
/// glyphs embedded as outlines), given as UTF-8 bytes. Inline and display
/// formulas are laid out alike.
#[allow(unused_variables)]
pub fn compile_latex_to_svg(latex: &str, inline: bool) -> (svg: Result<Vec<u8>, LatexError>)
    ensures
        svg is Ok == latex_parses(latex@),
        svg matches Err(LatexError::Parse(m)) ==> latex_parse_result(latex@) matches Err(text)
            && m@ == parse_error_message(text),
        svg matches Ok(bytes) ==> latex_parse_result(latex@) matches Ok(nodes) && exists|
            doc: Seq<char>,
        | is_formula_svg(nodes, doc) && bytes@ == vstd::utf8::encode_utf8(doc),
{
    let parsed = match parse_latex(latex) {
        Ok(nodes) => nodes,
        Err(text) => {
            return Err(parse_failure(text.as_str()));
        },
    };
    let layout_box = layout_nodes(&parsed);
    let display_list = display_list_of(&layout_box);
    let svg_options = svg_options(true);
    let svg_string = render_svg(&display_list, &svg_options);
    let bytes = svg_string.as_str().as_bytes_vec();
    assert(is_formula_svg(parsed@, svg_string@));
    Ok(bytes)
}

/// The image shown in place of a formula that failed, with `message` in red.
pub open spec fn error_svg(message: Seq<char>) -> Seq<char> {
    "<svg xmlns=\"http://www.w3.org/2000/svg\"><text y=\"15\" fill=\"red\">Error: "@ + message
        + "</text></svg>"@
}

/// The image of a failure is never taken for the image of a formula: it
/// opens with `<svg xmlns=".."><text`, where a formula's image opens with
/// `<svg xmlns=".." viewBox=`.
pub proof fn lemma_error_image_is_no_formula(message: Seq<char>)
    ensures
        !is_svg_document(error_svg(message)),
{
    reveal_strlit("<svg xmlns=\"http://www.w3.org/2000/svg\" viewBox=\"0 0 ");
    reveal_strlit("<svg xmlns=\"http://www.w3.org/2000/svg\"><text y=\"15\" fill=\"red\">Error: ");
    let e = error_svg(message);
    let p = svg_document_prefix();
    if is_svg_document(e) {
        assert(e.take(p.len() as int)[39] == p[39]);
        assert(e[39] == '>');
        assert(p[39] == ' ');
    }
}

impl LatexError {
    /// The text of the error.
    pub open spec fn message(&self) -> Seq<char> {
        match self {
            LatexError::Parse(m) => m@,
        }
    }

    /// An SVG document that shows the error in red.
    pub fn to_error_svg(&self) -> (svg: String)
        ensures
            svg@ == error_svg(self.message()),
    {
        let mut svg = String::from_str(
            "<svg xmlns=\"http://www.w3.org/2000/svg\"><text y=\"15\" fill=\"red\">Error: ",
        );
        match self {
            LatexError::Parse(m) => svg.append(m.as_str()),
        }
        svg.append("</text></svg>");
        svg
    }
}

/// The UTF-8 bytes `bytes` are an image of the formula `latex` as the About
/// page shows it: its SVG when it parses, else the image of its parse error.
pub open spec fn is_math_image(latex: Seq<char>, bytes: Seq<u8>) -> bool {
    match latex_parse_result(latex) {
        Ok(nodes) => exists|doc: Seq<char>|
            is_formula_svg(nodes, doc) && bytes == vstd::utf8::encode_utf8(doc),
        Err(text) => bytes == vstd::utf8::encode_utf8(error_svg(parse_error_message(text))),
    }
}

/// What the About page shows of a formula that parses is a rendering of the
/// default layout of all of its parsed nodes, exactly the images that
/// `compile_latex_to_svg` may return for it; of a formula that does not
/// parse, the red image of its parse error message.
pub proof fn lemma_math_image_of_whole_formula(latex: Seq<char>, bytes: Seq<u8>)
    ensures
        latex_parse_result(latex) matches Ok(nodes) ==> (is_math_image(latex, bytes) <==> exists|
            doc: Seq<char>,
        |
            is_svg_document(doc) && is_rendering(
                display_list_of_box(default_layout_of(nodes)),
                svg_options_with(true),
                doc,
            ) && bytes == vstd::utf8::encode_utf8(doc)),
        latex_parse_result(latex) matches Err(text) ==> (is_math_image(latex, bytes) <==> bytes
            == vstd::utf8::encode_utf8(
            "<svg xmlns=\"http://www.w3.org/2000/svg\"><text y=\"15\" fill=\"red\">Error: "@
                + ("LaTeX parse error: "@ + text) + "</text></svg>"@,
        )),
{
}

/// The image of the formula `latex` as the About page shows it: its SVG, or,
/// when it does not parse, an SVG that shows the parse error in red.
pub fn math_svg(latex: &str, inline: bool) -> (bytes: Vec<u8>)
    ensures
        is_math_image(latex@, bytes@),
{
    match compile_latex_to_svg(latex, inline) {
        Ok(svg) => svg,
        Err(err) => {
            let svg = err.to_error_svg();
            let bytes = svg.as_str().as_bytes_vec();
            assert(bytes@ == vstd::utf8::encode_utf8(error_svg(err.message())));
            bytes
        },
    }
}

/// The images of the formulas keyed by the formulas given so far, later
/// entries over earlier ones.
pub open spec fn cache_map(entries: Seq<(String, Vec<u8>)>) -> Map<Seq<char>, Seq<u8>>
    decreases entries.len(),
{
    if entries.len() == 0 {
        Map::empty()
    } else {
        cache_map(entries.drop_last()).insert(entries.last().0@, entries.last().1@)
    }
}

proof fn lemma_cache_map_prefix(entries: Seq<(String, Vec<u8>)>, j: int, key: Seq<char>)
    requires
        0 <= j <= entries.len(),
        forall|k: int| j <= k < entries.len() ==> (#[trigger] entries[k]).0@ != key,
    ensures
        cache_map(entries).contains_key(key) == cache_map(entries.take(j)).contains_key(key),
        cache_map(entries).contains_key(key) ==> cache_map(entries)[key] == cache_map(
            entries.take(j),
        )[key],
    decreases entries.len() - j,
{
    if j < entries.len() {
        let shorter = entries.drop_last();
        assert forall|k: int| j <= k < shorter.len() implies (#[trigger] shorter[k]).0@ != key by {
            assert(shorter[k] == entries[k]);
        }
        lemma_cache_map_prefix(shorter, j, key);
        assert(shorter.take(j) =~= entries.take(j));
        assert(entries[entries.len() - 1].0@ != key);
    } else {
        assert(entries.take(j) =~= entries);
    }
}

/// The images of the formulas already rendered, so that each formula is
/// rendered once.
pub struct MathCache {
    entries: Vec<(String, Vec<u8>)>,
}

impl View for MathCache {
    type V = Map<Seq<char>, Seq<u8>>;

    closed spec fn view(&self) -> Map<Seq<char>, Seq<u8>> {
        cache_map(self.entries@)
    }
}

impl MathCache {
    pub fn new() -> (cache: Self)
        ensures
            cache@ == Map::<Seq<char>, Seq<u8>>::empty(),
    {
        MathCache { entries: Vec::new() }
    }

    /// The image of `latex`: the one kept for it if it was rendered before,
    /// else a fresh one, which is kept. The key is the formula alone.
    pub fn get_or_render(&mut self, latex: &str, inline: bool) -> (bytes: Vec<u8>)
        ensures
            old(self)@.contains_key(latex@) ==> bytes@ == old(self)@[latex@] && final(self)@
                == old(self)@,
            !old(self)@.contains_key(latex@) ==> is_math_image(latex@, bytes@) && final(self)@
                == old(self)@.insert(latex@, bytes@),
    {
        let key = String::from_str(latex);
        let mut j = self.entries.len();
        while j > 0
            invariant
                j <= self.entries@.len(),
                key@ == latex@,
                forall|k: int| j <= k < self.entries@.len() ==> (#[trigger] self.entries@[k]).0@ != latex@,
            decreases j,
        {
            if self.entries[j - 1].0 == key {
                proof {
                    let e = self.entries@;
                    lemma_cache_map_prefix(e, j as int, latex@);
                    assert(e.take(j as int).drop_last() =~= e.take(j - 1));
                    assert(e.take(j as int).last() == e[j - 1]);
                }
                let found = copy_bytes(&self.entries[j - 1].1);
                return found;
            }
            j = j - 1;
        }
        proof {
            lemma_cache_map_prefix(self.entries@, 0, latex@);
            assert(self.entries@.take(0) =~= Seq::<(String, Vec<u8>)>::empty());
        }
        let bytes = math_svg(latex, inline);
        let kept = copy_bytes(&bytes);
        let ghost before = self.entries@;
        self.entries.push((key, kept));
        assert(self.entries@.drop_last() =~= before);
        bytes
    }
}

fn copy_bytes(source: &Vec<u8>) -> (copy: Vec<u8>)
    ensures
        copy@ == source@,
{
    let mut copy: Vec<u8> = Vec::new();
    let mut i: usize = 0;
    while i < source.len()
        invariant
            i <= source@.len(),
            copy@ == source@.take(i as int),
        decreases source@.len() - i,
    {
        copy.push(source[i]);
        i = i + 1;
        assert(copy@ =~= source@.take(i as int));
    }
    assert(source@.take(i as int) =~= source@);
    copy
}

/// Asking the cache twice for one formula gives the same image, and every
/// image it keeps is an image of its formula.
pub proof fn lemma_cache_answers_alike(
    before: Map<Seq<char>, Seq<u8>>,
    after: Map<Seq<char>, Seq<u8>>,
    latex: Seq<char>,
    first: Seq<u8>,
)
    requires
        forall|k: Seq<char>| #[trigger] before.contains_key(k) ==> is_math_image(k, before[k]),
        before.contains_key(latex) ==> first == before[latex] && after == before,
        !before.contains_key(latex) ==> is_math_image(latex, first) && after == before.insert(
            latex,
            first,
        ),
    ensures
        after.contains_key(latex) && after[latex] == first,
        forall|k: Seq<char>| #[trigger] after.contains_key(k) ==> is_math_image(k, after[k]),
{
}

} // verus!
