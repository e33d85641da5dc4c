use vstd::prelude::*;
use vstd::string::*;
use vstd::utf8::{encode_utf8, is_char_boundary};
use crate::text::{lemma_split_join, strip_prefix, str_strip_prefix, all_ascii_digits, find_char, lemma_find_char, owned, push_replaced, replace_char, split, split_char, str_all_ascii_digits, str_eq, str_find_char, str_trim, strings_view, trim};
use crate::vnode::NodeType;

verus! {

/// A style value as CSS: a bare number gets the unit `px`.
pub open spec fn spec_css_value(v: Seq<char>) -> Seq<char> {
    if all_ascii_digits(v) {
        v + "px"@
    } else {
        v
    }
}

/// Turns a style value into CSS: when every character is an ASCII digit (the empty value
/// included) `px` is appended, otherwise the value is kept.
pub fn css_value(value: &str) -> (res: String)
    ensures
        res@ == spec_css_value(value@),
{
    if str_all_ascii_digits(value) {
        let mut s = owned(value);
        s.append("px");
        s
    } else {
        owned(value)
    }
}

/// The CSS property written for a style key that maps to one property, and whether the
/// value is written as given (`true`) or through `css_value` (`false`).
pub open spec fn css_property(key: Seq<char>) -> Option<(Seq<char>, bool)> {
    if key == "bg"@ || key == "background"@ {
        Some(("background"@, false))
    } else if key == "padding"@ {
        Some(("padding"@, false))
    } else if key == "padding-top"@ {
        Some(("padding-top"@, false))
    } else if key == "padding-bottom"@ {
        Some(("padding-bottom"@, false))
    } else if key == "padding-left"@ {
        Some(("padding-left"@, false))
    } else if key == "padding-right"@ {
        Some(("padding-right"@, false))
    } else if key == "margin"@ {
        Some(("margin"@, false))
    } else if key == "margin-top"@ {
        Some(("margin-top"@, false))
    } else if key == "margin-bottom"@ {
        Some(("margin-bottom"@, false))
    } else if key == "radius"@ || key == "border-radius"@ {
        Some(("border-radius"@, false))
    } else if key == "color"@ {
        Some(("color"@, false))
    } else if key == "font-size"@ {
        Some(("font-size"@, false))
    } else if key == "border"@ {
        Some(("border"@, true))
    } else if key == "border-top"@ {
        Some(("border-top"@, true))
    } else if key == "position"@ {
        Some(("position"@, true))
    } else if key == "left"@ {
        Some(("left"@, false))
    } else if key == "right"@ {
        Some(("right"@, false))
    } else if key == "top"@ {
        Some(("top"@, false))
    } else if key == "bottom"@ {
        Some(("bottom"@, false))
    } else if key == "width"@ {
        Some(("width"@, false))
    } else if key == "height"@ {
        Some(("height"@, false))
    } else if key == "flex-direction"@ {
        Some(("flex-direction"@, true))
    } else if key == "justify-content"@ {
        Some(("justify-content"@, true))
    } else if key == "align-items"@ {
        Some(("align-items"@, true))
    } else if key == "font-weight"@ {
        Some(("font-weight"@, true))
    } else {
        None
    }
}

fn property_for(key: &str) -> (res: Option<(&'static str, bool)>)
    ensures
        match res {
            Some((p, raw)) => css_property(key@) == Some((p@, raw)),
            None => css_property(key@) == None::<(Seq<char>, bool)>,
        },
{
    if str_eq(key, "bg") || str_eq(key, "background") {
        Some(("background", false))
    } else if str_eq(key, "padding") {
        Some(("padding", false))
    } else if str_eq(key, "padding-top") {
        Some(("padding-top", false))
    } else if str_eq(key, "padding-bottom") {
        Some(("padding-bottom", false))
    } else if str_eq(key, "padding-left") {
        Some(("padding-left", false))
    } else if str_eq(key, "padding-right") {
        Some(("padding-right", false))
    } else if str_eq(key, "margin") {
        Some(("margin", false))
    } else if str_eq(key, "margin-top") {
        Some(("margin-top", false))
    } else if str_eq(key, "margin-bottom") {
        Some(("margin-bottom", false))
    } else if str_eq(key, "radius") || str_eq(key, "border-radius") {
        Some(("border-radius", false))
    } else if str_eq(key, "color") {
        Some(("color", false))
    } else if str_eq(key, "font-size") {
        Some(("font-size", false))
    } else if str_eq(key, "border") {
        Some(("border", true))
    } else if str_eq(key, "border-top") {
        Some(("border-top", true))
    } else if str_eq(key, "position") {
        Some(("position", true))
    } else if str_eq(key, "left") {
        Some(("left", false))
    } else if str_eq(key, "right") {
        Some(("right", false))
    } else if str_eq(key, "top") {
        Some(("top", false))
    } else if str_eq(key, "bottom") {
        Some(("bottom", false))
    } else if str_eq(key, "width") {
        Some(("width", false))
    } else if str_eq(key, "height") {
        Some(("height", false))
    } else if str_eq(key, "flex-direction") {
        Some(("flex-direction", true))
    } else if str_eq(key, "justify-content") {
        Some(("justify-content", true))
    } else if str_eq(key, "align-items") {
        Some(("align-items", true))
    } else if str_eq(key, "font-weight") {
        Some(("font-weight", true))
    } else {
        None
    }
}

/// What has been produced after some style entries: the CSS text so far, the last
/// `border-top-width` seen and the last `border-top-color` seen.
pub type CssState = (Seq<char>, Option<Seq<char>>, Option<Seq<char>>);

/// One CSS declaration `property:value;`.
pub open spec fn decl(property: Seq<char>, value: Seq<char>) -> Seq<char> {
    property + ":"@ + value + ";"@
}

/// The effect of one `key: value` entry (`value` already trimmed, `css` its CSS form).
pub open spec fn css_decl(st: CssState, key: Seq<char>, value: Seq<char>, raw: Seq<char>) -> CssState {
    if key == "padding-vertical"@ {
        (st.0 + decl("padding-top"@, value) + decl("padding-bottom"@, value), st.1, st.2)
    } else if key == "padding-horizontal"@ {
        (st.0 + decl("padding-left"@, value) + decl("padding-right"@, value), st.1, st.2)
    } else if key == "border-top-width"@ {
        (st.0, Some(value), st.2)
    } else if key == "border-top-color"@ {
        (st.0, st.1, Some(raw))
    } else if key == "flex"@ {
        if raw == "1"@ {
            (st.0 + "flex:1;"@, st.1, st.2)
        } else {
            st
        }
    } else if key == "shadow"@ {
        (st.0 + "box-shadow:"@ + replace_char(raw, ' ', "px "@) + ";"@, st.1, st.2)
    } else {
        match css_property(key) {
            Some((p, true)) => (st.0 + decl(p, raw), st.1, st.2),
            Some((p, false)) => (st.0 + decl(p, value), st.1, st.2),
            None => st,
        }
    }
}

/// The effect of one piece of the style string (between two `;`): blank pieces and pieces
/// without `:` are skipped; otherwise the key before the first `:` and the value after it,
/// both trimmed, are applied.
pub open spec fn css_step(st: CssState, piece: Seq<char>) -> CssState {
    let item = trim(piece);
    if item.len() == 0 {
        st
    } else {
        match find_char(item, ':') {
            None => st,
            Some(i) => {
                let key = trim(item.take(i));
                let raw = trim(item.skip(i + 1));
                css_decl(st, key, spec_css_value(raw), raw)
            },
        }
    }
}

pub open spec fn css_fold(pieces: Seq<Seq<char>>) -> CssState
    decreases pieces.len(),
{
    if pieces.len() == 0 {
        (Seq::empty(), None, None)
    } else {
        css_step(css_fold(pieces.drop_last()), pieces.last())
    }
}

/// The CSS text for a style string: the entries in order, then the top border's style,
/// width and colour when either of the last two was given.
pub open spec fn spec_style_to_css(style_raw: Seq<char>) -> Seq<char> {
    let st = css_fold(split(style_raw, ';'));
    st.0 + (if st.1 is Some || st.2 is Some { "border-top-style:solid;"@ } else { Seq::empty() })
        + (match st.1 {
        Some(w) => decl("border-top-width"@, w),
        None => Seq::empty(),
    }) + (match st.2 {
        Some(c) => decl("border-top-color"@, c),
        None => Seq::empty(),
    })
}

/// A piece of a style string whose key is `border-top-width` or `border-top-color`: the two
/// entries that are gathered and written at the end rather than in place.
pub open spec fn border_top_piece(piece: Seq<char>) -> bool {
    let item = trim(piece);
    item.len() > 0 && match find_char(item, ':') {
        None => false,
        Some(i) => {
            let key = trim(item.take(i));
            key == "border-top-width"@ || key == "border-top-color"@
        },
    }
}

/// No entry of the style string is a top-border entry.
pub open spec fn no_border_top(s: Seq<char>) -> bool {
    forall|k: int| 0 <= k < split(s, ';').len() ==> !border_top_piece(#[trigger] split(s, ';')[k])
}

proof fn lemma_decl_appends(st: CssState, key: Seq<char>, value: Seq<char>, raw: Seq<char>)
    requires
        key != "border-top-width"@,
        key != "border-top-color"@,
    ensures
        css_decl(st, key, value, raw) == (st.0 + css_decl((Seq::empty(), None, None), key, value, raw).0, st.1, st.2),
{
    let e = Seq::<char>::empty();
    if key == "padding-vertical"@ {
        assert(st.0 + decl("padding-top"@, value) + decl("padding-bottom"@, value) =~= st.0 + (e + decl(
            "padding-top"@,
            value,
        ) + decl("padding-bottom"@, value)));
    } else if key == "padding-horizontal"@ {
        assert(st.0 + decl("padding-left"@, value) + decl("padding-right"@, value) =~= st.0 + (e + decl(
            "padding-left"@,
            value,
        ) + decl("padding-right"@, value)));
    } else if key == "flex"@ {
        assert(st.0 + "flex:1;"@ =~= st.0 + (e + "flex:1;"@));
        assert(st.0 =~= st.0 + e);
    } else if key == "shadow"@ {
        assert(st.0 + "box-shadow:"@ + replace_char(raw, ' ', "px "@) + ";"@ =~= st.0 + (e + "box-shadow:"@
            + replace_char(raw, ' ', "px "@) + ";"@));
    } else {
        match css_property(key) {
            Some((p, true)) => {
                assert(st.0 + decl(p, raw) =~= st.0 + (e + decl(p, raw)));
            },
            Some((p, false)) => {
                assert(st.0 + decl(p, value) =~= st.0 + (e + decl(p, value)));
            },
            None => {
                assert(st.0 =~= st.0 + e);
            },
        }
    }
}

proof fn lemma_step_appends(st: CssState, piece: Seq<char>)
    requires
        !border_top_piece(piece),
    ensures
        css_step(st, piece) == (st.0 + css_step((Seq::empty(), None, None), piece).0, st.1, st.2),
{
    let item = trim(piece);
    let e = Seq::<char>::empty();
    if item.len() == 0 {
        assert(st.0 =~= st.0 + e);
    } else {
        match find_char(item, ':') {
            None => {
                assert(st.0 =~= st.0 + e);
            },
            Some(i) => {
                let key = trim(item.take(i));
                let raw = trim(item.skip(i + 1));
                lemma_decl_appends(st, key, spec_css_value(raw), raw);
            },
        }
    }
}

proof fn lemma_fold_concat(p: Seq<Seq<char>>, q: Seq<Seq<char>>)
    requires
        forall|k: int| 0 <= k < q.len() ==> !border_top_piece(#[trigger] q[k]),
    ensures
        css_fold(q).1 is None,
        css_fold(q).2 is None,
        css_fold(p + q) == (css_fold(p).0 + css_fold(q).0, css_fold(p).1, css_fold(p).2),
    decreases q.len(),
{
    if q.len() == 0 {
        assert(p + q =~= p);
        assert(css_fold(p).0 + css_fold(q).0 =~= css_fold(p).0);
    } else {
        let q0 = q.drop_last();
        let x = q.last();
        assert(forall|k: int| 0 <= k < q0.len() ==> q0[k] == q[k]);
        lemma_fold_concat(p, q0);
        assert((p + q).drop_last() =~= p + q0);
        assert((p + q).last() == x);
        assert(!border_top_piece(q[q.len() - 1]));
        let pp = css_fold(p);
        let qq = css_fold(q0);
        lemma_step_appends((pp.0 + qq.0, pp.1, pp.2), x);
        lemma_step_appends(qq, x);
        let o = css_step((Seq::empty(), None, None), x).0;
        assert(pp.0 + qq.0 + o =~= pp.0 + (qq.0 + o));
    }
}

/// Style strings joined with `;` translate to the joined translations, when neither holds a
/// top-border entry (those are written at the end); the empty style translates to nothing.
pub proof fn law_style_to_css_joins(a: Seq<char>, b: Seq<char>)
    requires
        no_border_top(a),
        no_border_top(b),
    ensures
        spec_style_to_css(a + seq![';'] + b) == spec_style_to_css(a) + spec_style_to_css(b),
        spec_style_to_css(Seq::empty()) == Seq::<char>::empty(),
{
    lemma_split_join(a, b, ';');
    let pa = split(a, ';');
    let pb = split(b, ';');
    lemma_fold_concat(Seq::empty(), pa);
    lemma_fold_concat(pa, pb);
    assert(Seq::<Seq<char>>::empty() + pa =~= pa);
    let fa = css_fold(pa);
    let fb = css_fold(pb);
    assert(spec_style_to_css(a) =~= fa.0);
    assert(spec_style_to_css(b) =~= fb.0);
    assert(spec_style_to_css(a + seq![';'] + b) =~= fa.0 + fb.0);
    let e = Seq::<char>::empty();
    assert(split(e, ';') =~= seq![e]);
    assert(trim(e) =~= e);
    assert(seq![e].drop_last() =~= Seq::<Seq<char>>::empty());
    assert(spec_style_to_css(e) =~= e);
}

pub open spec fn opt_view(o: Option<String>) -> Option<Seq<char>> {
    match o {
        Some(s) => Some(s@),
        None => None,
    }
}

fn push_decl(css: &mut String, property: &str, value: &str)
    ensures
        final(css)@ == old(css)@ + decl(property@, value@),
{
    css.append(property);
    css.append(":");
    css.append(value);
    css.append(";");
    assert(css@ =~= old(css)@ + decl(property@, value@));
}

fn apply_decl(
    css: &mut String,
    top_width: &mut Option<String>,
    top_color: &mut Option<String>,
    key: &str,
    raw: &str,
)
    ensures
        (final(css)@, opt_view(*final(top_width)), opt_view(*final(top_color))) == css_decl(
            (old(css)@, opt_view(*old(top_width)), opt_view(*old(top_color))),
            key@,
            spec_css_value(raw@),
            raw@,
        ),
{
    let value = css_value(raw);
    if str_eq(key, "padding-vertical") {
        push_decl(css, "padding-top", value.as_str());
        push_decl(css, "padding-bottom", value.as_str());
    } else if str_eq(key, "padding-horizontal") {
        push_decl(css, "padding-left", value.as_str());
        push_decl(css, "padding-right", value.as_str());
    } else if str_eq(key, "border-top-width") {
        *top_width = Some(value);
    } else if str_eq(key, "border-top-color") {
        *top_color = Some(owned(raw));
    } else if str_eq(key, "flex") {
        if str_eq(raw, "1") {
            css.append("flex:1;");
        }
    } else if str_eq(key, "shadow") {
        css.append("box-shadow:");
        push_replaced(css, raw, ' ', "px ");
        css.append(";");
    } else {
        match property_for(key) {
            Some((p, true)) => push_decl(css, p, raw),
            Some((p, false)) => push_decl(css, p, value.as_str()),
            None => {},
        }
    }
}

/// Translates a style string (`key: value` entries separated by `;`) into CSS text.
pub fn style_to_css(style_raw: &str) -> (res: String)
    ensures
        res@ == spec_style_to_css(style_raw@),
{
    let pieces = split_char(style_raw, ';');
    let ghost pv = strings_view(pieces@);
    let mut css = String::new();
    let mut top_width: Option<String> = None;
    let mut top_color: Option<String> = None;
    let n = pieces.len();
    let mut k: usize = 0;
    while k < n
        invariant
            n == pieces@.len(),
            pv == strings_view(pieces@),
            k <= n,
            (css@, opt_view(top_width), opt_view(top_color)) == css_fold(pv.take(k as int)),
        decreases n - k,
    {
        assert(pv.take(k + 1).drop_last() =~= pv.take(k as int));
        assert(pv.take(k + 1).last() == pieces@[k as int]@);
        let item = str_trim(pieces[k].as_str());
        let len = item.unicode_len();
        if len > 0 {
            match str_find_char(item, ':') {
                Some(i) => {
                    proof {
                        lemma_find_char(item@, ':');
                    }
                    let key = str_trim(item.substring_char(0, i));
                    let raw = str_trim(item.substring_char(i + 1, len));
                    apply_decl(&mut css, &mut top_width, &mut top_color, key, raw);
                },
                None => {},
            }
        }
        k = k + 1;
    }
    assert(pv.take(n as int) =~= pv);
    if top_width.is_some() || top_color.is_some() {
        css.append("border-top-style:solid;");
    }
    if let Some(w) = &top_width {
        push_decl(&mut css, "border-top-width", w.as_str());
    }
    if let Some(c) = &top_color {
        push_decl(&mut css, "border-top-color", c.as_str());
    }
    css
}

} // verus!

verus! {

/// The CSS every element of a kind starts with, before its own style.
pub open spec fn spec_default_style(tag: NodeType) -> Seq<char> {
    match tag {
        NodeType::SafeAreaView => "display:flex;flex-direction:column;min-height:560px;border-radius:14px;"@,
        NodeType::View => "display:flex;flex-direction:column;"@,
        NodeType::NavigationContainer => "display:flex;flex-direction:column;"@,
        NodeType::StackNavigator => "display:flex;flex-direction:column;"@,
        NodeType::StackScreen => "display:flex;flex-direction:column;"@,
        NodeType::Text => "margin:0 0 10px 0;"@,
        NodeType::Pressable => "border:none;cursor:pointer;text-align:left;font:inherit;"@,
        NodeType::TextInput => "display:block;background:#0f172a;color:#e2e8f0;outline:none;box-sizing:border-box;width:100%;"@,
    }
}

pub fn default_style_for_node(tag: &NodeType) -> (res: String)
    ensures
        res@ == spec_default_style(*tag),
{
    match tag {
        NodeType::SafeAreaView => owned("display:flex;flex-direction:column;min-height:560px;border-radius:14px;"),
        NodeType::View => owned("display:flex;flex-direction:column;"),
        NodeType::NavigationContainer => owned("display:flex;flex-direction:column;"),
        NodeType::StackNavigator => owned("display:flex;flex-direction:column;"),
        NodeType::StackScreen => owned("display:flex;flex-direction:column;"),
        NodeType::Text => owned("margin:0 0 10px 0;"),
        NodeType::Pressable => owned("border:none;cursor:pointer;text-align:left;font:inherit;"),
        NodeType::TextInput => owned("display:block;background:#0f172a;color:#e2e8f0;outline:none;box-sizing:border-box;width:100%;"),
    }
}

/// What follows `bg:` or `background:` at the start of a (trimmed) style entry.
pub open spec fn bg_of(entry: Seq<char>) -> Option<Seq<char>> {
    match strip_prefix(entry, "bg:"@) {
        Some(r) => Some(r),
        None => strip_prefix(entry, "background:"@),
    }
}

/// The trimmed value of the first entry that gives the background.
pub open spec fn bg_in(pieces: Seq<Seq<char>>) -> Option<Seq<char>>
    decreases pieces.len(),
{
    if pieces.len() == 0 {
        None
    } else {
        match bg_of(trim(pieces[0])) {
            Some(v) => Some(trim(v)),
            None => bg_in(pieces.drop_first()),
        }
    }
}

/// The background value a style string gives, if it gives one.
pub open spec fn spec_extract_bg(style: Seq<char>) -> Option<Seq<char>> {
    bg_in(split(style, ';'))
}

fn entry_bg<'a>(entry: &'a str) -> (res: Option<&'a str>)
    ensures
        match res {
            Some(r) => bg_of(entry@) == Some(r@),
            None => bg_of(entry@) == None::<Seq<char>>,
        },
{
    match str_strip_prefix(entry, "bg:") {
        Some(r) => Some(r),
        None => str_strip_prefix(entry, "background:"),
    }
}

/// The value of the first `bg:` or `background:` entry of a style string, trimmed.
pub fn extract_bg_hex(style: &str) -> (res: Option<String>)
    ensures
        opt_view(res) == spec_extract_bg(style@),
{
    let pieces = split_char(style, ';');
    let ghost pv = strings_view(pieces@);
    let n = pieces.len();
    let mut k: usize = 0;
    assert(pv.skip(0) =~= pv);
    while k < n
        invariant
            n == pieces@.len(),
            pv == strings_view(pieces@),
            k <= n,
            pv == split(style@, ';'),
            bg_in(pv) == bg_in(pv.skip(k as int)),
        decreases n - k,
    {
        assert(pv.skip(k as int)[0] == pieces@[k as int]@);
        assert(pv.skip(k as int).drop_first() =~= pv.skip(k + 1));
        let entry = str_trim(pieces[k].as_str());
        if let Some(v) = entry_bg(entry) {
            let t = str_trim(v);
            assert(pv.skip(k as int).len() > 0);
            assert(bg_in(pv.skip(k as int)) == Some(trim(v@)));
            return Some(owned(t));
        }
        k = k + 1;
    }
    None
}

/// The value of a hexadecimal digit.
pub open spec fn hex_digit(c: char) -> Option<u8> {
    if '0' <= c <= '9' {
        Some((c as u32 - '0' as u32) as u8)
    } else if 'a' <= c <= 'f' {
        Some((c as u32 - 'a' as u32 + 10) as u8)
    } else if 'A' <= c <= 'F' {
        Some((c as u32 - 'A' as u32 + 10) as u8)
    } else {
        None
    }
}

/// A two-character string read as a base-16 `u8`, as `u8::from_str_radix(_, 16)` reads it:
/// an optional leading `+` followed by digits.
pub open spec fn hex_pair(a: char, b: char) -> Option<u8> {
    if a == '+' {
        hex_digit(b)
    } else {
        match (hex_digit(a), hex_digit(b)) {
            (Some(x), Some(y)) => Some((x * 16 + y) as u8),
            _ => None,
        }
    }
}

/// Every character is ASCII (one byte in UTF-8).
pub open spec fn all_ascii(s: Seq<char>) -> bool {
    forall|i: int| 0 <= i < s.len() ==> (#[trigger] s[i]) <= '\u{7f}'
}

/// The colour written as `#rgb` or `#rrggbb` (after the `#`), each component read as a
/// base-16 byte; any other length, or a character that is no digit, gives none.
pub open spec fn spec_hex_rgb(hex: Seq<char>) -> Option<(u8, u8, u8)> {
    if !all_ascii(hex) {
        None
    } else if hex.len() == 3 {
        match (hex_pair(hex[0], hex[0]), hex_pair(hex[1], hex[1]), hex_pair(hex[2], hex[2])) {
            (Some(r), Some(g), Some(b)) => Some((r, g, b)),
            _ => None,
        }
    } else if hex.len() == 6 {
        match (hex_pair(hex[0], hex[1]), hex_pair(hex[2], hex[3]), hex_pair(hex[4], hex[5])) {
            (Some(r), Some(g), Some(b)) => Some((r, g, b)),
            _ => None,
        }
    } else {
        None
    }
}

/// The hexadecimal part of the background value, when it starts with `#`.
pub open spec fn bg_hex(style: Seq<char>) -> Option<Seq<char>> {
    match spec_extract_bg(style) {
        Some(v) => strip_prefix(v, "#"@),
        None => None,
    }
}

/// The background colour a style string gives, if any.
pub open spec fn spec_background_rgb(style: Seq<char>) -> Option<(u8, u8, u8)> {
    match bg_hex(style) {
        Some(h) => spec_hex_rgb(h),
        None => None,
    }
}

/// Cutting the hexadecimal part into components at byte positions (as slicing a `str`
/// does) would fall inside a character, which panics: three bytes cut at 1 and 2, six
/// bytes cut at 2 and 4.
pub open spec fn hex_cut_splits_char(hex: Seq<char>) -> bool {
    let b = encode_utf8(hex);
    ||| b.len() == 3 && !(is_char_boundary(b, 1) && is_char_boundary(b, 2))
    ||| b.len() == 6 && !(is_char_boundary(b, 2) && is_char_boundary(b, 4))
}

/// Whether reading the background colour of `style` would cut a character in two (the
/// inputs `parse_background_color` does not take).
pub fn background_hex_splits_char(style: &str) -> (res: bool)
    ensures
        res == match bg_hex(style@) {
            Some(h) => hex_cut_splits_char(h),
            None => false,
        },
{
    match extract_bg_hex(style) {
        Some(v) => match str_strip_prefix(v.as_str(), "#") {
            Some(h) => {
                let n = h.as_bytes().len();
                if n == 3 {
                    !(h.is_char_boundary(1) && h.is_char_boundary(2))
                } else if n == 6 {
                    !(h.is_char_boundary(2) && h.is_char_boundary(4))
                } else {
                    false
                }
            },
            None => false,
        },
        None => false,
    }
}

pub(crate) fn digit_value(c: char) -> (res: Option<u8>)
    ensures
        res == hex_digit(c),
{
    if '0' <= c && c <= '9' {
        Some((c as u32 - '0' as u32) as u8)
    } else if 'a' <= c && c <= 'f' {
        Some((c as u32 - 'a' as u32 + 10) as u8)
    } else if 'A' <= c && c <= 'F' {
        Some((c as u32 - 'A' as u32 + 10) as u8)
    } else {
        None
    }
}

fn pair_value(a: char, b: char) -> (res: Option<u8>)
    ensures
        res == hex_pair(a, b),
{
    if a == '+' {
        digit_value(b)
    } else {
        match (digit_value(a), digit_value(b)) {
            (Some(x), Some(y)) => Some(x * 16 + y),
            _ => None,
        }
    }
}

/// Reads `#rgb` / `#rrggbb` digits (without the `#`).
pub fn hex_rgb(hex: &str) -> (res: Option<(u8, u8, u8)>)
    ensures
        res == spec_hex_rgb(hex@),
{
    let n = hex.unicode_len();
    let mut i: usize = 0;
    while i < n
        invariant
            n == hex@.len(),
            i <= n,
            forall|j: int| 0 <= j < i ==> (#[trigger] hex@[j]) <= '\u{7f}',
        decreases n - i,
    {
        if hex.get_char(i) > '\u{7f}' {
            return None;
        }
        i = i + 1;
    }
    if n == 3 {
        let (a, b, c) = (hex.get_char(0), hex.get_char(1), hex.get_char(2));
        match (pair_value(a, a), pair_value(b, b), pair_value(c, c)) {
            (Some(r), Some(g), Some(b)) => Some((r, g, b)),
            _ => None,
        }
    } else if n == 6 {
        let r = pair_value(hex.get_char(0), hex.get_char(1));
        let g = pair_value(hex.get_char(2), hex.get_char(3));
        let b = pair_value(hex.get_char(4), hex.get_char(5));
        match (r, g, b) {
            (Some(r), Some(g), Some(b)) => Some((r, g, b)),
            _ => None,
        }
    } else {
        None
    }
}

/// The background colour of a style string: the first `bg:` / `background:` entry whose
/// value is `#rgb` or `#rrggbb` in hexadecimal. `None` stands for "use the default colour".
pub fn parse_background_color(style: &str) -> (res: Option<(u8, u8, u8)>)
    requires
        match bg_hex(style@) {
            Some(h) => !hex_cut_splits_char(h),
            None => true,
        },
    ensures
        res == spec_background_rgb(style@),
{
    match extract_bg_hex(style) {
        Some(v) => match str_strip_prefix(v.as_str(), "#") {
            Some(h) => hex_rgb(h),
            None => None,
        },
        None => None,
    }
}

} // verus!

verus! {

/// `#rgb` is short for `#rrggbb`.
pub proof fn law_short_hex_doubles_digits(a: char, b: char, c: char)
    ensures
        spec_hex_rgb(seq![a, b, c]) == spec_hex_rgb(seq![a, a, b, b, c, c]),
{
    let s3 = seq![a, b, c];
    let s6 = seq![a, a, b, b, c, c];
    assert(all_ascii(s3) == all_ascii(s6)) by {
        if all_ascii(s3) {
            assert forall|i: int| 0 <= i < s6.len() implies (#[trigger] s6[i]) <= '\u{7f}' by {
                assert(s6[i] == s3[i / 2]);
            }
        }
        if all_ascii(s6) {
            assert forall|i: int| 0 <= i < s3.len() implies (#[trigger] s3[i]) <= '\u{7f}' by {
                assert(s3[i] == s6[2 * i]);
            }
        }
    }
}

} // verus!

verus! {

/// A style key that names a CSS property the translator knows is written under that same
/// property; only the short forms `bg` and `radius` stand for another name.
pub proof fn law_known_key_keeps_its_name(key: Seq<char>)
    requires
        css_property(key) is Some,
        key != "bg"@,
        key != "radius"@,
    ensures
        css_property(key)->Some_0.0 == key,
{
}

/// An entry whose key names a known CSS property (other than `bg` and `radius`) adds
/// exactly `key:value;` to the CSS, the value as written or through `css_value`.
pub proof fn law_known_entry_writes_its_key(st: CssState, key: Seq<char>, value: Seq<char>, raw: Seq<char>)
    requires
        css_property(key) is Some,
        key != "bg"@,
        key != "radius"@,
    ensures
        css_decl(st, key, value, raw).0 == st.0 + key + ":"@ + (if css_property(key)->Some_0.1 {
            raw
        } else {
            value
        }) + ";"@,
        css_decl(st, key, value, raw).1 == st.1,
        css_decl(st, key, value, raw).2 == st.2,
{
    reveal_strlit("padding-vertical");
    reveal_strlit("padding-horizontal");
    reveal_strlit("border-top-width");
    reveal_strlit("border-top-color");
    reveal_strlit("flex");
    reveal_strlit("shadow");
    reveal_strlit("padding");
    reveal_strlit("padding-top");
    reveal_strlit("padding-bottom");
    reveal_strlit("padding-left");
    reveal_strlit("padding-right");
    reveal_strlit("margin");
    reveal_strlit("margin-top");
    reveal_strlit("margin-bottom");
    reveal_strlit("border-radius");
    reveal_strlit("color");
    reveal_strlit("font-size");
    reveal_strlit("border");
    reveal_strlit("border-top");
    reveal_strlit("position");
    reveal_strlit("left");
    reveal_strlit("right");
    reveal_strlit("top");
    reveal_strlit("bottom");
    reveal_strlit("width");
    reveal_strlit("height");
    reveal_strlit("flex-direction");
    reveal_strlit("justify-content");
    reveal_strlit("align-items");
    reveal_strlit("font-weight");
    reveal_strlit("background");
    let x = if css_property(key)->Some_0.1 { raw } else { value };
    assert(css_property(key)->Some_0.0 == key);
    assert(key.len() != 16 && key.len() != 18);
    if key.len() == 4 {
        assert(key == "left"@);
        assert(key[0] != "flex"@[0]);
    }
    if key.len() == 6 {
        assert(key[0] != "shadow"@[0]);
    }
    assert(key != "padding-vertical"@ && key != "padding-horizontal"@ && key != "border-top-width"@
        && key != "border-top-color"@ && key != "flex"@ && key != "shadow"@);
    assert(decl(key, x) == key + ":"@ + x + ";"@);
    assert(st.0 + decl(key, x) =~= st.0 + key + ":"@ + x + ";"@);
}

/// The short style keys mean what their long forms mean: `bg` is `background` and
/// `radius` is `border-radius`.
pub proof fn law_short_keys_are_aliases()
    ensures
        css_property("bg"@) == css_property("background"@),
        css_property("radius"@) == css_property("border-radius"@),
        css_property("background"@) == Some(("background"@, false)),
        css_property("border-radius"@) == Some(("border-radius"@, false)),
{
    reveal_strlit("bg");
    reveal_strlit("background");
    reveal_strlit("radius");
    reveal_strlit("border-radius");
    reveal_strlit("padding");
    reveal_strlit("padding-top");
    reveal_strlit("padding-bottom");
    reveal_strlit("padding-left");
    reveal_strlit("padding-right");
    reveal_strlit("margin");
    reveal_strlit("margin-top");
    reveal_strlit("margin-bottom");
    assert("radius"@[0] != "margin"@[0]);
    assert("border-radius"@[0] != "padding-right"@[0]);
    assert("border-radius"@[0] != "margin-bottom"@[0]);
}

} // verus!

