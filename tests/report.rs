use style_extractor::{
    generate_markdown, render_markdown, ColorScheme, ComponentStyle, SpacingSystem, StyleGuide,
    Typography,
};

fn empty_guide(url: &str) -> StyleGuide {
    StyleGuide {
        url: url.to_string(),
        colors: ColorScheme {
            primary_colors: vec![],
            background_colors: vec![],
            text_colors: vec![],
            border_colors: vec![],
        },
        typography: Typography {
            font_families: vec![],
            font_sizes: vec![],
            font_weights: vec![],
            line_heights: vec![],
        },
        spacing: SpacingSystem { margins: vec![], paddings: vec![], gaps: vec![] },
        components: vec![],
    }
}

#[test]
fn empty_guide_renders_placeholders_only() {
    let md = render_markdown(&empty_guide("https://a.test"), "2024-01-02 03:04:05");
    let expected = "# Style Guide for https://a.test\n\nGenerated on: 2024-01-02 03:04:05\n\n\
## Color Scheme\n\n\
### Primary Colors\n- No primary colors detected\n\n\
### Background Colors\n- No background colors detected\n\n\
### Text Colors\n- No text colors detected\n\n\
### Border Colors\n- No border colors detected\n\n\
## Typography\n\n\
### Font Families\n- No font families detected\n\n\
### Font Sizes\n- No font sizes detected\n\n\
### Font Weights\n- No font weights detected\n\n\
### Line Heights\n- No line heights detected\n\n\
## Spacing System\n\n\
### Margins\n- No margins detected\n\n\
### Paddings\n- No paddings detected\n\n\
### Gaps\n- No gaps detected\n\n\
## Component Styles\n\nNo component styles detected\n";
    assert_eq!(md, expected);
    assert!(!md.contains("- `"));
}

#[test]
fn values_and_components_are_listed() {
    let mut g = empty_guide("u");
    g.colors.primary_colors = vec!["#fff".to_string(), "#000".to_string()];
    g.components = vec![ComponentStyle {
        name: "button-1".to_string(),
        styles: vec![("color".to_string(), "#fff".to_string())],
    }];
    let md = render_markdown(&g, "t");
    assert!(md.contains("### Primary Colors\n- `#fff`\n- `#000`\n\n### Background Colors\n- No background colors detected\n"));
    assert!(md.ends_with("## Component Styles\n\n### button-1\n- **color**: `#fff`\n\n"));
}

#[test]
fn generated_report_carries_a_timestamp() {
    let md = generate_markdown(&empty_guide("https://b.test"));
    assert!(md.starts_with("# Style Guide for https://b.test\n\nGenerated on: "));
    let line = md.lines().nth(2).unwrap();
    assert_eq!(line.len(), "Generated on: 2024-01-02 03:04:05".len());
    assert!(md.ends_with("No component styles detected\n"));
}

#[test]
fn empty_guide_report_lines() {
    let md = render_markdown(&empty_guide("https://c.test"), "2024-01-02 03:04:05");
    let lines: Vec<&str> = md.lines().collect();
    for what in [
        "primary colors", "background colors", "text colors", "border colors", "font families",
        "font sizes", "font weights", "line heights", "margins", "paddings", "gaps",
    ] {
        let placeholder = format!("- No {} detected", what);
        assert!(lines.contains(&placeholder.as_str()));
    }
    assert!(lines.contains(&"No component styles detected"));
    assert!(!lines.iter().any(|l| l.starts_with("- `") || l.starts_with("- **")));
    assert_eq!(lines.iter().filter(|l| l.starts_with("- ")).count(), 11);
    assert_eq!(lines.iter().filter(|l| l.starts_with("### ")).count(), 11);
}
