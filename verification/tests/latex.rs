use tether_quart::components::about::{compile_latex_to_svg, math_svg, parse_failure, LatexError, MathCache};

const ERROR_PREFIX: &str = "<svg xmlns=\"http://www.w3.org/2000/svg\"><text y=\"15\" fill=\"red\">Error: ";

const SVG_PREFIX: &str = "<svg xmlns=\"http://www.w3.org/2000/svg\" viewBox=\"0 0 ";

#[test]
fn formula_becomes_svg() {
    let bytes = compile_latex_to_svg(r"\frac{dl}{dt} = V", false).expect("parses");
    let text = String::from_utf8(bytes).unwrap();
    assert!(text.starts_with(SVG_PREFIX));
    assert!(text.ends_with("</svg>"));
}

#[test]
fn inline_and_display_are_laid_out_alike() {
    let a = compile_latex_to_svg(r"\omega_{\theta}", true).unwrap();
    let b = compile_latex_to_svg(r"\omega_{\theta}", false).unwrap();
    assert_eq!(a, b);
}

#[test]
fn broken_formula_is_a_parse_error() {
    match compile_latex_to_svg(r"\frac{1}{", false) {
        Err(LatexError::Parse(m)) => assert!(m.starts_with("LaTeX parse error: ")),
        Ok(_) => panic!("an unbalanced brace must not parse"),
    }
}

#[test]
fn parse_failure_message() {
    match parse_failure("ParseError { message: \"x\" }") {
        LatexError::Parse(m) => assert_eq!(m, "LaTeX parse error: ParseError { message: \"x\" }"),
    }
}

#[test]
fn error_svg_shows_the_message() {
    let svg = LatexError::Parse("LaTeX parse error: oops".to_string()).to_error_svg();
    assert_eq!(
        svg,
        format!("{}LaTeX parse error: oops</text></svg>", ERROR_PREFIX)
    );
}

#[test]
fn math_svg_falls_back_to_the_error_image() {
    let bytes = math_svg(r"\frac{1}{", true);
    let text = String::from_utf8(bytes).unwrap();
    assert!(text.starts_with(&format!("{}LaTeX parse error: ", ERROR_PREFIX)));
    assert!(text.ends_with("</text></svg>"));
    let good = math_svg("x^2", true);
    assert_eq!(good, compile_latex_to_svg("x^2", true).unwrap());
}

#[test]
fn error_image_is_not_a_formula_image() {
    let bytes = math_svg(r"\sqrt{", false);
    let text = String::from_utf8(bytes).unwrap();
    assert!(!text.starts_with(SVG_PREFIX));
    let good = String::from_utf8(math_svg(r"\sqrt{2}", false)).unwrap();
    assert!(good.starts_with(SVG_PREFIX));
    assert!(good.ends_with("</svg>"));
}

#[test]
fn parse_error_carries_the_parser_text() {
    match compile_latex_to_svg(r"\frac{1}{", false) {
        Err(LatexError::Parse(m)) => {
            let text = &m["LaTeX parse error: ".len()..];
            assert!(text.starts_with("ParseError"));
            let image = String::from_utf8(math_svg(r"\frac{1}{", false)).unwrap();
            assert_eq!(image, format!("{}{}</text></svg>", ERROR_PREFIX, m));
        }
        Ok(_) => panic!("an unbalanced brace must not parse"),
    }
}

#[test]
fn different_formulas_give_different_images() {
    let a = compile_latex_to_svg("x^2", false).unwrap();
    let b = compile_latex_to_svg(r"\frac{F}{m}", false).unwrap();
    assert_ne!(a, b);
}

#[test]
fn cache_renders_each_formula_once() {
    let mut cache = MathCache::new();
    let first = cache.get_or_render("x^2", true);
    assert_eq!(first, math_svg("x^2", true));
    let second = cache.get_or_render("x^2", false);
    assert_eq!(first, second);
    let broken = cache.get_or_render(r"\sqrt{", true);
    assert!(String::from_utf8(broken.clone()).unwrap().starts_with(ERROR_PREFIX));
    assert_eq!(cache.get_or_render(r"\sqrt{", true), broken);
    assert_ne!(cache.get_or_render("y", true), first);
}
