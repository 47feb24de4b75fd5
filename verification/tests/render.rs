use ptree::item::StringItem;
use ptree::output::{render_to_string, write_tree, write_tree_with, LimitedSink, StringSink};
use ptree::print_config::{IndentChars, PrintConfig};
use ptree::style::{Color, Style};

fn leaf(text: &str) -> StringItem {
    StringItem { text: text.to_string(), children: vec![] }
}

fn node(text: &str, children: Vec<StringItem>) -> StringItem {
    StringItem { text: text.to_string(), children }
}

fn render_with(item: &StringItem, config: &PrintConfig) -> String {
    let mut sink = StringSink::new();
    write_tree_with(item, &mut sink, config).unwrap();
    sink.into_string()
}

#[test]
fn small_item_output() {
    let deps = StringItem {
        text: "petgraph".to_string(),
        children: vec![
            StringItem {
                text: "quickcheck".to_string(),
                children: vec![
                    StringItem { text: "libc".to_string(), children: vec![] },
                    StringItem {
                        text: "rand".to_string(),
                        children: vec![StringItem {
                            text: "libc".to_string(),
                            children: vec![],
                        }],
                    },
                ],
            },
            StringItem { text: "fixedbitset".to_string(), children: vec![] },
        ],
    };

    let config = PrintConfig {
        indent: 4,
        leaf: Style::default(),
        branch: Style::default(),
        ..PrintConfig::default()
    };

    let mut cursor = StringSink::new();

    write_tree_with(&deps, &mut cursor, &config).unwrap();

    let data = cursor.into_string();
    let expected = "\
                    petgraph\n\
                    ├── quickcheck\n\
                    │   ├── libc\n\
                    │   └── rand\n\
                    │       └── libc\n\
                    └── fixedbitset\n\
                    ";
    assert_eq!(data, expected);
}

#[test]
fn single_node_output() {
    let root = leaf("A");
    let mut sink = StringSink::new();
    write_tree(&root, &mut sink).unwrap();
    assert_eq!(sink.into_string(), "A\n");
}

#[test]
fn two_children_output() {
    let root = node("A", vec![leaf("B"), leaf("C")]);
    let out = render_with(&root, &PrintConfig::default());
    assert_eq!(out, "A\n├── B\n└── C\n");
}

#[test]
fn single_chain_output() {
    let root = node("A", vec![node("B", vec![leaf("C")])]);
    let out = render_with(&root, &PrintConfig::default());
    assert_eq!(out, "A\n└── B\n    └── C\n");
}

#[test]
fn ascii_preset_output() {
    let root = node("A", vec![node("B", vec![leaf("C")]), leaf("D")]);
    let out = render_with(&root, &PrintConfig::ascii());
    assert_eq!(out, "A\n|-- B\n|   `-- C\n`-- D\n");
}

#[test]
fn indent_zero_removes_padding() {
    let root = node("A", vec![node("B", vec![leaf("C")]), leaf("D")]);
    let config = PrintConfig { indent: 0, ..PrintConfig::default() };
    let out = render_with(&root, &config);
    assert_eq!(out, "A\n├──B\n│└──C\n└──D\n");
}

#[test]
fn failing_sink_stops_output() {
    // The first line fits in ten bytes; the second line alone is twelve
    // bytes, so its write must fail and nothing after the first line may
    // have been written.
    let root = node("A", vec![leaf("B"), leaf("C")]);
    let mut sink = LimitedSink::new(10);
    let res = write_tree(&root, &mut sink);
    assert!(res.is_err());
    assert_eq!(sink.into_string(), "A\n");
}

#[test]
fn failing_sink_rejects_everything_at_zero() {
    let root = leaf("A");
    let mut sink = LimitedSink::new(0);
    let res = write_tree(&root, &mut sink);
    assert!(res.is_err());
    assert_eq!(sink.into_string(), "");
}

#[test]
fn paint_plain_returns_text_unchanged() {
    let style = Style::default();
    assert_eq!(style.paint("some text"), "some text");
}

#[test]
fn paint_bold_wraps_and_resets() {
    let style = Style { bold: true, ..Style::default() };
    assert_eq!(style.paint("A"), "\u{1b}[1mA\u{1b}[0m");
}

#[test]
fn paint_combined_attributes_reset_once() {
    let style = Style {
        bold: true,
        underline: true,
        foreground: Some(Color::Red),
        background: Some(Color::Yellow),
        ..Style::default()
    };
    assert_eq!(style.paint("x"), "\u{1b}[1m\u{1b}[4m\u{1b}[31m\u{1b}[43mx\u{1b}[0m");
}

#[test]
fn colored_preset_styles_branches_only() {
    let root = node("A", vec![leaf("B")]);
    let out = render_with(&root, &PrintConfig::colored());
    assert_eq!(out, "\u{1b}[1m\u{1b}[34mA\u{1b}[0m\n└── B\n");
}

#[test]
fn disabled_styling_gives_plain_output() {
    let root = node("A", vec![leaf("B"), leaf("C")]);
    let loud = PrintConfig {
        styled: false,
        leaf: Style { foreground: Some(Color::Green), italic: true, ..Style::default() },
        branch: Style { background: Some(Color::Black), bold: true, ..Style::default() },
        ..PrintConfig::default()
    };
    let out = render_with(&root, &loud);
    assert_eq!(out, render_with(&root, &PrintConfig::default()));
    assert_eq!(out, "A\n├── B\n└── C\n");
}

#[test]
fn rendering_twice_is_identical() {
    let root = node("A", vec![node("B", vec![leaf("C"), leaf("D")]), leaf("E")]);
    let config = PrintConfig::default();
    assert_eq!(render_with(&root, &config), render_with(&root, &config));
}

#[test]
fn clone_renders_identically() {
    let root = node("A", vec![node("B", vec![leaf("C")]), leaf("D")]);
    let copy = root.clone();
    let config = PrintConfig::default();
    assert_eq!(render_with(&root, &config), render_with(&copy, &config));
}

#[test]
fn paint_leaf_and_branch_accessors() {
    let config = PrintConfig {
        leaf: Style { bold: true, ..Style::default() },
        branch: Style { foreground: Some(Color::Cyan), ..Style::default() },
        ..PrintConfig::default()
    };
    assert_eq!(config.paint_leaf("l"), "\u{1b}[1ml\u{1b}[0m");
    assert_eq!(config.paint_branch("b"), "\u{1b}[36mb\u{1b}[0m");
}

#[test]
fn custom_glyphs_and_root_prefix() {
    let root = node("A", vec![leaf("B"), leaf("C")]);
    let config = PrintConfig {
        indent: 3,
        chars: IndentChars {
            down_and_right: "+-".to_string(),
            down_and_right_last: "--".to_string(),
            vertical: "|".to_string(),
            vertical_last: " ".to_string(),
            root: "# ".to_string(),
        },
        ..PrintConfig::default()
    };
    let out = render_with(&root, &config);
    assert_eq!(out, "# A\n+- B\n-- C\n");
}

#[test]
fn render_to_string_matches_sink_output() {
    let root = node("A", vec![node("B", vec![leaf("C")]), leaf("D")]);
    let config = PrintConfig::default();
    assert_eq!(render_to_string(&root, &config), render_with(&root, &config));
    assert_eq!(render_to_string(&root, &config), "A\n├── B\n│   └── C\n└── D\n");
}
