use style_extractor::{
    element_style_map, extract_colors, extract_colors_from_css, extract_colors_from_style,
    extract_spacing, extract_spacing_from_css, extract_spacing_from_style, extract_styles,
    extract_typography, extract_typography_from_css, extract_typography_from_style,
    sample_category, StyleGuide,
};

fn s(v: &str) -> String {
    v.to_string()
}

fn strs(v: &[&str]) -> Vec<String> {
    v.iter().map(|x| x.to_string()).collect()
}

fn guide(html: &str) -> StyleGuide {
    extract_styles(html, "https://example.com").unwrap()
}

#[test]
fn background_fragment_keeps_colors_out_of_text_set() {
    let g = guide(r#"<div style="color: #f00; background: #00f">x</div>"#);
    assert_eq!(g.colors.primary_colors, strs(&["#f00", "#00f"]));
    assert_eq!(g.colors.background_colors, strs(&["#f00", "#00f"]));
    assert!(g.colors.text_colors.is_empty());
    assert!(g.colors.border_colors.is_empty());
}

#[test]
fn named_colors_are_not_color_literals() {
    let g = guide(r#"<div style="color: red; background: blue">x</div>"#);
    assert!(g.colors.primary_colors.is_empty());
    assert!(g.colors.text_colors.is_empty());
    assert!(g.colors.background_colors.is_empty());
}

#[test]
fn text_and_border_classification() {
    let (mut p, mut b, mut t, mut d) = (vec![], vec![], vec![], vec![]);
    extract_colors_from_style("color: #123456; border: 1px solid rgb(1, 2, 3)", &mut p, &mut b, &mut t, &mut d);
    assert_eq!(p, strs(&["#123456", "rgb(1, 2, 3)"]));
    assert_eq!(t, strs(&["#123456", "rgb(1, 2, 3)"]));
    assert_eq!(d, strs(&["#123456", "rgb(1, 2, 3)"]));
    assert!(b.is_empty());
}

#[test]
fn css_colors_are_classified_per_line() {
    let (mut p, mut b, mut t, mut d) = (vec![], vec![], vec![], vec![]);
    let css = ".a { background-color: #fff; }\n.b { color: HSLA(0, 0%, 0%, .5); }\r\n.c { border-color: #fff; }";
    extract_colors_from_css(css, &mut p, &mut b, &mut t, &mut d);
    assert_eq!(p, strs(&["#fff", "HSLA(0, 0%, 0%, .5)"]));
    assert_eq!(b, strs(&["#fff"]));
    assert_eq!(t, strs(&["HSLA(0, 0%, 0%, .5)", "#fff"]));
    assert_eq!(d, strs(&["#fff"]));
}

#[test]
fn hex_colors_take_three_four_six_or_eight_digits() {
    let (mut p, mut b, mut t, mut d) = (vec![], vec![], vec![], vec![]);
    extract_colors_from_style("#12345 #abcdef12 #ab #1234567 #FFF #fff", &mut p, &mut b, &mut t, &mut d);
    assert_eq!(p, strs(&["#1234", "#abcdef12", "#123456", "#FFF", "#fff"]));
}

#[test]
fn color_function_needs_arguments() {
    let (mut p, mut b, mut t, mut d) = (vec![], vec![], vec![], vec![]);
    extract_colors_from_style("rgb() rgba(0,0,0,0) hsl(1 2 3", &mut p, &mut b, &mut t, &mut d);
    assert_eq!(p, strs(&["rgba(0,0,0,0)"]));
}

#[test]
fn inline_spacing_scenario() {
    let g = guide(r#"<div style="margin: 10px; padding: 2em;">x</div>"#);
    assert_eq!(g.spacing.margins, strs(&["10px"]));
    assert_eq!(g.spacing.paddings, strs(&["2em"]));
    assert!(g.spacing.gaps.is_empty());
}

#[test]
fn inline_spacing_is_read_per_declaration() {
    let (mut m, mut p, mut g) = (vec![], vec![], vec![]);
    extract_spacing_from_style("margin: 1px 2.5rem; gap: 3%; padding: 4vh 5 px", &mut m, &mut p, &mut g);
    assert_eq!(m, strs(&["1px", "2.5rem"]));
    assert_eq!(g, strs(&["3%"]));
    assert_eq!(p, strs(&["4vh"]));
}

#[test]
fn css_spacing_is_read_per_line() {
    let (mut m, mut p, mut g) = (vec![], vec![], vec![]);
    extract_spacing_from_css(".a { margin: 1px; padding: 2px; }\n.b { gap: 3vw; }", &mut m, &mut p, &mut g);
    assert_eq!(m, strs(&["1px", "2px"]));
    assert_eq!(p, strs(&["1px", "2px"]));
    assert_eq!(g, strs(&["3vw"]));
}

#[test]
fn style_block_typography_scenario() {
    let g = guide("<style>.btn { font-size: 14px; font-weight: bold; }</style>");
    assert_eq!(g.typography.font_sizes, strs(&["14px"]));
    assert_eq!(g.typography.font_weights, strs(&["bold"]));
    assert!(g.typography.font_families.is_empty());
    assert!(g.typography.line_heights.is_empty());
}

#[test]
fn inline_typography_takes_first_declaration() {
    let (mut f, mut z, mut w, mut h) = (vec![], vec![], vec![], vec![]);
    extract_typography_from_style("font-family: Arial, sans-serif ; font-family: Times; line-height:1.5", &mut f, &mut z, &mut w, &mut h);
    assert_eq!(f, strs(&["Arial, sans-serif"]));
    assert_eq!(h, strs(&["1.5"]));
    assert!(z.is_empty());
    assert!(w.is_empty());
}

#[test]
fn css_typography_reads_every_line() {
    let (mut f, mut z, mut w, mut h) = (vec![], vec![], vec![], vec![]);
    extract_typography_from_css("h1 { font-size: 2em; }\nh2 { font-size: 1.5em; }\np { font-size:;font-size: 1em }", &mut f, &mut z, &mut w, &mut h);
    assert_eq!(z, strs(&["2em", "1.5em", "1em }"]));
}

#[test]
fn sets_are_capped_and_distinct() {
    let mut css = String::new();
    for i in 0..20 {
        css.push_str(&format!("color: #{:03}; margin: {}px; margin: {}px;\n", i + 100, i, i));
    }
    let styled = vec![(Some(s("color: #100")), None)];
    let c = extract_colors(&styled, &vec![css.clone()]);
    assert_eq!(c.primary_colors.len(), 10);
    assert_eq!(c.primary_colors[0], "#100");
    assert_eq!(c.primary_colors[9], "#109");
    let sp = extract_spacing(&vec![], &vec![css]);
    assert_eq!(sp.margins.len(), 15);
    assert_eq!(sp.margins[14], "14px");
}

#[test]
fn gap_and_font_caps_are_ten_and_fifteen() {
    let mut css = String::new();
    for i in 0..20 {
        css.push_str(&format!("gap: {}px\nfont-size: {}px\nfont-weight: {}\n", i, i, i));
    }
    let sp = extract_spacing(&vec![], &vec![css.clone()]);
    assert_eq!(sp.gaps.len(), 10);
    let t = extract_typography(&vec![], &vec![css]);
    assert_eq!(t.font_sizes.len(), 15);
    assert_eq!(t.font_weights.len(), 10);
}

#[test]
fn duplicates_are_kept_once_case_sensitively() {
    let styled = vec![(Some(s("color: #FFF")), None), (Some(s("color: #fff")), None), (Some(s("color: #fff")), None)];
    let c = extract_colors(&styled, &vec![]);
    assert_eq!(c.primary_colors, strs(&["#FFF", "#fff"]));
}

#[test]
fn extraction_is_repeatable() {
    let html = r#"<html><head><style>body { color: #333; margin: 0px; }</style></head>
        <body><button class="btn" style="padding: 4px">Go</button><p style="font-size: 12px">t</p></body></html>"#;
    let a = guide(html);
    let b = guide(html);
    assert_eq!(a.colors.primary_colors, b.colors.primary_colors);
    assert_eq!(a.spacing.margins, b.spacing.margins);
    assert_eq!(a.typography.font_sizes, b.typography.font_sizes);
    assert_eq!(a.components.len(), b.components.len());
    assert_eq!(a.url, "https://example.com");
}

#[test]
fn components_sample_three_and_skip_bare_elements() {
    let html = r#"<body>
        <button style="color: #fff; padding: 2px">a</button>
        <button>b</button>
        <button class="primary">c</button>
        <button class="late">d</button>
        <h2 style="margin:0">h</h2>
        <footer class="f"></footer>
        </body>"#;
    let g = guide(html);
    let names: Vec<&str> = g.components.iter().map(|c| c.name.as_str()).collect();
    assert_eq!(names, vec!["button-1", "button-3", "heading-1", "footer-1"]);
    assert_eq!(g.components[0].styles, vec![(s("color"), s("#fff")), (s("padding"), s("2px"))]);
    assert_eq!(g.components[1].styles, vec![(s("class"), s("primary"))]);
    assert_eq!(g.components[2].styles, vec![(s("margin"), s("0"))]);
}

#[test]
fn sample_category_from_given_elements() {
    let elems = vec![
        (None, None),
        (Some(s("a: 1; junk; a : 2")), Some(s("k"))),
        (Some(s("")), None),
        (Some(s("b: 3")), None),
    ];
    let r = sample_category("link", &elems);
    assert_eq!(r.len(), 1);
    assert_eq!(r[0].name, "link-2");
    assert_eq!(r[0].styles, vec![(s("a"), s("2")), (s("class"), s("k"))]);
}

#[test]
fn class_overrides_a_class_declaration() {
    let m = element_style_map(&Some(s("class: x; color: red")), &Some(s("y z")));
    assert_eq!(m, vec![(s("class"), s("y z")), (s("color"), s("red"))]);
}

#[test]
fn page_without_styles_gives_empty_guide() {
    let g = guide("<p>plain</p>");
    assert!(g.colors.primary_colors.is_empty());
    assert!(g.typography.font_families.is_empty());
    assert!(g.spacing.margins.is_empty());
    assert!(g.components.is_empty());
}
