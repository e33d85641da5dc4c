use oxidact::css::{css_value, default_style_for_node, extract_bg_hex, hex_rgb, parse_background_color, style_to_css};
use oxidact::vnode::NodeType;

#[test]
fn css_value_adds_px_to_numbers() {
    assert_eq!(css_value("12"), "12px");
    assert_eq!(css_value(""), "px");
    assert_eq!(css_value("1.5"), "1.5");
    assert_eq!(css_value("#fff"), "#fff");
    assert_eq!(css_value("10%"), "10%");
}

#[test]
fn style_to_css_translates_each_entry() {
    let style = "bg: #121212; padding: 20; border-top-width: 2; border-top-color: red; flex: 1; shadow: 0 -2 12 rgba(2,6,23,0.30); unknown: x; nocolon; ; padding-vertical: 8";
    assert_eq!(
        style_to_css(style),
        "background:#121212;padding:20px;flex:1;box-shadow:0px -2px 12px rgba(2,6,23,0.30);padding-top:8px;padding-bottom:8px;border-top-style:solid;border-top-width:2px;border-top-color:red;"
    );
}

#[test]
fn style_to_css_raw_keys_keep_numbers() {
    assert_eq!(style_to_css("border: 1px solid #333; position: relative; font-weight: 600"), "border:1px solid #333;position:relative;font-weight:600;");
    assert_eq!(style_to_css("left: 0; radius: 10; padding-horizontal: 4"), "left:0px;border-radius:10px;padding-left:4px;padding-right:4px;");
}

#[test]
fn style_to_css_flex_other_than_one_is_dropped() {
    assert_eq!(style_to_css("flex: 2"), "");
    assert_eq!(style_to_css(""), "");
}

#[test]
fn style_to_css_last_border_top_wins() {
    assert_eq!(style_to_css("border-top-color: a; border-top-color: b"), "border-top-style:solid;border-top-color:b;");
}

#[test]
fn style_to_css_splits_at_the_first_colon() {
    assert_eq!(style_to_css("background: url(a:b)"), "background:url(a:b);");
    assert_eq!(style_to_css("color:"), "color:px;");
}

#[test]
fn default_styles() {
    assert_eq!(default_style_for_node(&NodeType::Text), "margin:0 0 10px 0;");
    assert_eq!(default_style_for_node(&NodeType::Pressable), "border:none;cursor:pointer;text-align:left;font:inherit;");
    assert_eq!(default_style_for_node(&NodeType::StackScreen), "display:flex;flex-direction:column;");
}

#[test]
fn extract_bg_takes_the_first_background_entry() {
    assert_eq!(extract_bg_hex("flex: 1; background: #121212; bg: #fff"), Some("#121212".to_string()));
    assert_eq!(extract_bg_hex("bg:  red  "), Some("red".to_string()));
    assert_eq!(extract_bg_hex("background : red"), None);
    assert_eq!(extract_bg_hex("color: red"), None);
}

#[test]
fn background_colours() {
    assert_eq!(parse_background_color("flex: 1; background: #121212"), Some((0x12, 0x12, 0x12)));
    assert_eq!(parse_background_color("bg: #abc"), Some((0xaa, 0xbb, 0xcc)));
    assert_eq!(parse_background_color("bg: #+f+f+f"), Some((15, 15, 15)));
    assert_eq!(parse_background_color("bg: #+f+f"), None);
    assert_eq!(parse_background_color("bg: #12345"), None);
    assert_eq!(parse_background_color("bg: #gg0000"), None);
    assert_eq!(parse_background_color("bg: 123456"), None);
    assert_eq!(parse_background_color("padding: 4"), None);
    assert_eq!(parse_background_color("bg: #ééé"), None);
}

#[test]
fn hex_rgb_reads_components() {
    assert_eq!(hex_rgb("FfA"), Some((0xff, 0xff, 0xaa)));
    assert_eq!(hex_rgb("007AFF"), Some((0x00, 0x7a, 0xff)));
    assert_eq!(hex_rgb("++0"), None);
}

#[test]
fn style_to_css_joins_entry_by_entry() {
    let a = "color: red; padding-horizontal: 4";
    let b = "flex: 1;shadow: 1 2 3";
    assert_eq!(style_to_css(&format!("{};{}", a, b)), style_to_css(a) + &style_to_css(b));
    assert_eq!(style_to_css(""), "");
    let with_border = "border-top-width: 2";
    assert_ne!(
        style_to_css(&format!("{};{}", with_border, a)),
        style_to_css(with_border) + &style_to_css(a)
    );
}
