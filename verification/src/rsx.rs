use vstd::prelude::*;
use vstd::string::*;
use crate::lex::{
    opt_verdicts, verdicts_view, at, char_at, is_slash, parse_block, parse_ident, parse_string, read_block, read_ident, read_string,
    skip_spaces, skip_ws, slash_at, string_start, string_start_at,
};
use crate::text::{owned, str_eq};
use crate::vnode::NodeType;

verus! {

/// Why markup could not be read.
#[derive(Debug, PartialEq, Eq)]
pub enum RsxError {
    /// Something other than what the grammar allows at that point.
    Syntax,
    /// An attribute value that is neither a string nor a braced expression.
    AttributeValue,
    /// A closing tag that names another element than the one it closes.
    ClosingTag,
    /// Text after the element.
    Trailing,
    /// A braced part that is not one Rust expression.
    Expression,
}

impl RsxError {
    pub fn message(&self) -> (res: String)
        ensures
            res@ == spec_rsx_message(*self),
    {
        match self {
            RsxError::Syntax => owned("sintaxe RSX invalida"),
            RsxError::AttributeValue => owned("atributo RSX deve ser string literal ou expressao entre chaves"),
            RsxError::ClosingTag => owned("tag de fechamento diferente da tag de abertura"),
            RsxError::Trailing => owned("texto inesperado depois do elemento"),
            RsxError::Expression => owned("expressao Rust invalida entre chaves"),
        }
    }
}

pub open spec fn spec_rsx_message(e: RsxError) -> Seq<char> {
    match e {
        RsxError::Syntax => "sintaxe RSX invalida"@,
        RsxError::AttributeValue => "atributo RSX deve ser string literal ou expressao entre chaves"@,
        RsxError::ClosingTag => "tag de fechamento diferente da tag de abertura"@,
        RsxError::Trailing => "texto inesperado depois do elemento"@,
        RsxError::Expression => "expressao Rust invalida entre chaves"@,
    }
}

} // verus!

verus! {

// ---------------------------------------------------------------------------
// The markup tree
// ---------------------------------------------------------------------------

/// An attribute value: a string literal or the text of a braced expression.
#[derive(Debug)]
pub enum AttrValue {
    Literal(String),
    Expr(String),
}

/// Something inside an element: an element, a string literal, or a braced expression.
#[derive(Debug)]
pub enum RsxItem {
    Element(RsxElement),
    Text(String),
    Expr(String),
}

/// An element: its tag, its attributes in order, its children in order.
#[derive(Debug)]
pub struct RsxElement {
    pub tag: String,
    pub attributes: Vec<(String, AttrValue)>,
    pub children: Vec<RsxItem>,
}

pub enum AttrValueView {
    Literal(Seq<char>),
    Expr(Seq<char>),
}

#[verifier::ext_equal]
pub struct RsxElementView {
    pub tag: Seq<char>,
    pub attributes: Seq<(Seq<char>, AttrValueView)>,
    pub children: Seq<RsxItemView>,
}

pub enum RsxItemView {
    Element(RsxElementView),
    Text(Seq<char>),
    Expr(Seq<char>),
}

pub open spec fn attr_value_view(v: AttrValue) -> AttrValueView {
    match v {
        AttrValue::Literal(s) => AttrValueView::Literal(s@),
        AttrValue::Expr(s) => AttrValueView::Expr(s@),
    }
}

pub open spec fn rsx_attrs_view(a: Seq<(String, AttrValue)>) -> Seq<(Seq<char>, AttrValueView)> {
    a.map_values(|p: (String, AttrValue)| (p.0@, attr_value_view(p.1)))
}

pub open spec fn rsx_element_view(e: RsxElement) -> RsxElementView
    decreases e,
{
    RsxElementView { tag: e.tag@, attributes: rsx_attrs_view(e.attributes@), children: rsx_items_view(e.children@) }
}

pub open spec fn rsx_item_view(i: RsxItem) -> RsxItemView
    decreases i,
{
    match i {
        RsxItem::Element(e) => RsxItemView::Element(rsx_element_view(e)),
        RsxItem::Text(t) => RsxItemView::Text(t@),
        RsxItem::Expr(x) => RsxItemView::Expr(x@),
    }
}

pub open spec fn rsx_items_view(s: Seq<RsxItem>) -> Seq<RsxItemView>
    decreases s,
{
    if s.len() == 0 {
        Seq::empty()
    } else {
        rsx_items_view(s.drop_last()).push(rsx_item_view(s.last()))
    }
}

impl View for RsxElement {
    type V = RsxElementView;

    open spec fn view(&self) -> RsxElementView {
        rsx_element_view(*self)
    }
}

// ---------------------------------------------------------------------------
// The grammar
// ---------------------------------------------------------------------------

/// An attribute value at `i`: a string literal or a braced expression.
pub open spec fn parse_attr_value(s: Seq<char>, i: int, vd: Option<Seq<(Seq<char>, bool)>>) -> Result<(AttrValueView, int), RsxError> {
    if string_start(s, i) {
        match parse_string(s, i) {
            Ok((v, e)) => Ok((AttrValueView::Literal(v), e)),
            Err(err) => Err(err),
        }
    } else if at(s, i) == Some('{') {
        match parse_block(s, i, vd) {
            Ok((v, e)) => Ok((AttrValueView::Expr(v), e)),
            Err(err) => Err(err),
        }
    } else {
        Err(RsxError::AttributeValue)
    }
}

/// The attributes `name = value` from `j` up to the `>` or `/` that ends the opening tag:
/// the attributes and the position of that character.
pub open spec fn parse_attrs(s: Seq<char>, j: int, vd: Option<Seq<(Seq<char>, bool)>>) -> Result<(Seq<(Seq<char>, AttrValueView)>, int), RsxError>
    decreases s.len() - j,
{
    let q = skip_ws(s, j);
    if at(s, q) == Some('>') || is_slash(s, q) {
        Ok((Seq::empty(), q))
    } else {
        match parse_ident(s, q) {
            Err(err) => Err(err),
            Ok((name, q2)) => {
                let q3 = skip_ws(s, q2);
                if at(s, q3) != Some('=') {
                    Err(RsxError::Syntax)
                } else {
                    match parse_attr_value(s, skip_ws(s, q3 + 1), vd) {
                        Err(err) => Err(err),
                        Ok((v, q5)) => if j < q5 <= s.len() {
                            match parse_attrs(s, q5, vd) {
                                Ok((rest, r)) => Ok((seq![(name, v)] + rest, r)),
                                Err(err) => Err(err),
                            }
                        } else {
                            Err(RsxError::Syntax)
                        },
                    }
                }
            },
        }
    }
}

/// An element at `i` (after optional whitespace): `<Tag attrs/>` or
/// `<Tag attrs> children </Tag>`; the element and the position after it.
pub open spec fn parse_element(s: Seq<char>, i: int, vd: Option<Seq<(Seq<char>, bool)>>) -> Result<(RsxElementView, int), RsxError>
    decreases s.len() - i, 0int,
{
    let p = skip_ws(s, i);
    if at(s, p) != Some('<') {
        Err(RsxError::Syntax)
    } else {
        match parse_ident(s, skip_ws(s, p + 1)) {
            Err(err) => Err(err),
            Ok((tag, p2)) => match parse_attrs(s, p2, vd) {
                Err(err) => Err(err),
                Ok((attrs, q)) => if is_slash(s, q) {
                    let q1 = skip_ws(s, q + 1);
                    if at(s, q1) == Some('>') {
                        Ok((RsxElementView { tag, attributes: attrs, children: Seq::empty() }, q1 + 1))
                    } else {
                        Err(RsxError::Syntax)
                    }
                } else if i < q + 1 <= s.len() {
                    match parse_children(s, q + 1, vd) {
                        Err(err) => Err(err),
                        Ok((kids, c)) => parse_closing(s, c, RsxElementView { tag, attributes: attrs, children: kids }),
                    }
                } else {
                    Err(RsxError::Syntax)
                },
            },
        }
    }
}

/// The closing tag `</Tag>` at `c` of the element `el`: it must name the same tag.
pub open spec fn parse_closing(s: Seq<char>, c: int, el: RsxElementView) -> Result<(RsxElementView, int), RsxError> {
    let c0 = skip_ws(s, c);
    let c1 = skip_ws(s, c0 + 1);
    if at(s, c0) != Some('<') || !is_slash(s, c1) {
        Err(RsxError::Syntax)
    } else {
        match parse_ident(s, skip_ws(s, c1 + 1)) {
            Err(err) => Err(err),
            Ok((close, c2)) => {
                let c3 = skip_ws(s, c2);
                if at(s, c3) != Some('>') {
                    Err(RsxError::Syntax)
                } else if close != el.tag {
                    Err(RsxError::ClosingTag)
                } else {
                    Ok((el, c3 + 1))
                }
            },
        }
    }
}

/// The children from `j`: string literals, braced expressions and elements, up to `</`
/// or anything else that starts no child; the children and the position where they stop.
pub open spec fn parse_children(s: Seq<char>, j: int, vd: Option<Seq<(Seq<char>, bool)>>) -> Result<(Seq<RsxItemView>, int), RsxError>
    decreases s.len() - j, 1int,
{
    let q = skip_ws(s, j);
    if at(s, q) == Some('<') && is_slash(s, skip_ws(s, q + 1)) {
        Ok((Seq::empty(), q))
    } else if string_start(s, q) {
        match parse_string(s, q) {
            Err(err) => Err(err),
            Ok((t, e)) => if j < e <= s.len() {
                match parse_children(s, e, vd) {
                    Ok((rest, r)) => Ok((seq![RsxItemView::Text(t)] + rest, r)),
                    Err(err) => Err(err),
                }
            } else {
                Err(RsxError::Syntax)
            },
        }
    } else if at(s, q) == Some('{') {
        match parse_block(s, q, vd) {
            Err(err) => Err(err),
            Ok((x, e)) => if j < e <= s.len() {
                match parse_children(s, e, vd) {
                    Ok((rest, r)) => Ok((seq![RsxItemView::Expr(x)] + rest, r)),
                    Err(err) => Err(err),
                }
            } else {
                Err(RsxError::Syntax)
            },
        }
    } else if at(s, q) == Some('<') {
        if j <= q <= s.len() {
            match parse_element(s, q, vd) {
                Err(err) => Err(err),
                Ok((el, e)) => if j < e <= s.len() {
                    match parse_children(s, e, vd) {
                        Ok((rest, r)) => Ok((seq![RsxItemView::Element(el)] + rest, r)),
                        Err(err) => Err(err),
                    }
                } else {
                    Err(RsxError::Syntax)
                },
            }
        } else {
            Err(RsxError::Syntax)
        }
    } else {
        Ok((Seq::empty(), q))
    }
}

/// The markup is one element, with nothing but whitespace after it; each braced expression
/// is judged by `judge(vd, _)`.
pub open spec fn spec_parse_rsx_judged(s: Seq<char>, vd: Option<Seq<(Seq<char>, bool)>>) -> Result<RsxElementView, RsxError> {
    match parse_element(s, 0, vd) {
        Ok((el, e)) => if skip_ws(s, e) == s.len() {
            Ok(el)
        } else {
            Err(RsxError::Trailing)
        },
        Err(err) => Err(err),
    }
}

/// The markup as the macro reads it: braced expressions are judged by syn.
pub open spec fn spec_parse_rsx(s: Seq<char>) -> Result<RsxElementView, RsxError> {
    spec_parse_rsx_judged(s, None)
}

} // verus!

verus! {

// ---------------------------------------------------------------------------
// Reading the markup
// ---------------------------------------------------------------------------

} // verus!

verus! {

pub proof fn lemma_items_view(s: Seq<RsxItem>)
    ensures
        rsx_items_view(s).len() == s.len(),
        forall|i: int| 0 <= i < s.len() ==> #[trigger] rsx_items_view(s)[i] == rsx_item_view(s[i]),
    decreases s.len(),
{
    if s.len() > 0 {
        lemma_items_view(s.drop_last());
    }
}

fn read_attr_value(s: &Vec<char>, i: usize, verdicts: Option<&Vec<(String, bool)>>) -> (res: Result<(AttrValue, usize), RsxError>)
    requires
        i <= s@.len(),
    ensures
        match res {
            Ok((v, e)) => parse_attr_value(s@, i as int, opt_verdicts(verdicts)) == Ok::<(AttrValueView, int), RsxError>((attr_value_view(v), e as int))
                && i < e <= s@.len(),
            Err(err) => parse_attr_value(s@, i as int, opt_verdicts(verdicts)) == Err::<(AttrValueView, int), RsxError>(err),
        },
{
    let c = char_at(s, i);
    if string_start_at(s, i) {
        match read_string(s, i) {
            Ok((v, e)) => Ok((AttrValue::Literal(v), e)),
            Err(err) => Err(err),
        }
    } else if c == Some('{') {
        match read_block(s, i, verdicts) {
            Ok((v, e)) => Ok((AttrValue::Expr(v), e)),
            Err(err) => Err(err),
        }
    } else {
        Err(RsxError::AttributeValue)
    }
}

fn read_attrs(s: &Vec<char>, j: usize, verdicts: Option<&Vec<(String, bool)>>) -> (res: Result<(Vec<(String, AttrValue)>, usize), RsxError>)
    requires
        j <= s@.len(),
    ensures
        match res {
            Ok((a, q)) => parse_attrs(s@, j as int, opt_verdicts(verdicts)) == Ok::<(Seq<(Seq<char>, AttrValueView)>, int), RsxError>((rsx_attrs_view(a@), q as int))
                && j <= q < s@.len(),
            Err(err) => parse_attrs(s@, j as int, opt_verdicts(verdicts)) == Err::<(Seq<(Seq<char>, AttrValueView)>, int), RsxError>(err),
        },
    decreases s@.len() - j,
{
    let len = s.len();
    let q = skip_spaces(s, j);
    let c = char_at(s, q);
    if c == Some('>') || slash_at(s, q) {
        let a: Vec<(String, AttrValue)> = Vec::new();
        assert(rsx_attrs_view(a@) =~= Seq::empty());
        return Ok((a, q));
    }
    let (name, q2) = match read_ident(s, q) {
        Ok(r) => r,
        Err(err) => return Err(err),
    };
    let q3 = skip_spaces(s, q2);
    if char_at(s, q3) != Some('=') {
        return Err(RsxError::Syntax);
    }
    let q4 = skip_spaces(s, q3 + 1);
    let (v, q5) = match read_attr_value(s, q4, verdicts) {
        Ok(r) => r,
        Err(err) => return Err(err),
    };
    let ghost head = (name@, attr_value_view(v));
    match read_attrs(s, q5, verdicts) {
        Ok((mut rest, r)) => {
            let ghost old_rest = rest@;
            rest.insert(0, (name, v));
            assert(rsx_attrs_view(rest@) =~= seq![head] + rsx_attrs_view(old_rest));
            Ok((rest, r))
        },
        Err(err) => Err(err),
    }
}

fn read_closing(s: &Vec<char>, c: usize, el: RsxElement) -> (res: Result<(RsxElement, usize), RsxError>)
    requires
        c <= s@.len(),
    ensures
        match res {
            Ok((e, p)) => parse_closing(s@, c as int, el@) == Ok::<(RsxElementView, int), RsxError>((e@, p as int))
                && c < p <= s@.len(),
            Err(err) => parse_closing(s@, c as int, el@) == Err::<(RsxElementView, int), RsxError>(err),
        },
{
    let len = s.len();
    let c0 = skip_spaces(s, c);
    if char_at(s, c0) != Some('<') {
        return Err(RsxError::Syntax);
    }
    let c1 = skip_spaces(s, c0 + 1);
    if !slash_at(s, c1) {
        return Err(RsxError::Syntax);
    }
    let (close, c2) = match read_ident(s, skip_spaces(s, c1 + 1)) {
        Ok(r) => r,
        Err(err) => return Err(err),
    };
    let c3 = skip_spaces(s, c2);
    if char_at(s, c3) != Some('>') {
        return Err(RsxError::Syntax);
    }
    if !str_eq(close.as_str(), el.tag.as_str()) {
        return Err(RsxError::ClosingTag);
    }
    Ok((el, c3 + 1))
}

fn read_element(s: &Vec<char>, i: usize, verdicts: Option<&Vec<(String, bool)>>) -> (res: Result<(RsxElement, usize), RsxError>)
    requires
        i <= s@.len(),
    ensures
        match res {
            Ok((e, p)) => parse_element(s@, i as int, opt_verdicts(verdicts)) == Ok::<(RsxElementView, int), RsxError>((e@, p as int))
                && i < p <= s@.len(),
            Err(err) => parse_element(s@, i as int, opt_verdicts(verdicts)) == Err::<(RsxElementView, int), RsxError>(err),
        },
    decreases s@.len() - i, 0int,
{
    let len = s.len();
    let p = skip_spaces(s, i);
    if char_at(s, p) != Some('<') {
        return Err(RsxError::Syntax);
    }
    let (tag, p2) = match read_ident(s, skip_spaces(s, p + 1)) {
        Ok(r) => r,
        Err(err) => return Err(err),
    };
    let (attributes, q) = match read_attrs(s, p2, verdicts) {
        Ok(r) => r,
        Err(err) => return Err(err),
    };
    if slash_at(s, q) {
        let q1 = skip_spaces(s, q + 1);
        if char_at(s, q1) == Some('>') {
            let el = RsxElement { tag, attributes, children: Vec::new() };
            assert(rsx_items_view(el.children@) =~= Seq::empty());
            assert(el@ =~= RsxElementView { tag: tag@, attributes: rsx_attrs_view(attributes@), children: Seq::empty() });
            return Ok((el, q1 + 1));
        } else {
            return Err(RsxError::Syntax);
        }
    }
    match read_children(s, q + 1, verdicts) {
        Err(err) => Err(err),
        Ok((children, c)) => {
            let el = RsxElement { tag, attributes, children };
            assert(el@ =~= RsxElementView { tag: tag@, attributes: rsx_attrs_view(attributes@), children: rsx_items_view(children@) });
            read_closing(s, c, el)
        },
    }
}

fn read_children(s: &Vec<char>, j: usize, verdicts: Option<&Vec<(String, bool)>>) -> (res: Result<(Vec<RsxItem>, usize), RsxError>)
    requires
        j <= s@.len(),
    ensures
        match res {
            Ok((v, q)) => parse_children(s@, j as int, opt_verdicts(verdicts)) == Ok::<(Seq<RsxItemView>, int), RsxError>((rsx_items_view(v@), q as int))
                && j <= q <= s@.len(),
            Err(err) => parse_children(s@, j as int, opt_verdicts(verdicts)) == Err::<(Seq<RsxItemView>, int), RsxError>(err),
        },
    decreases s@.len() - j, 1int,
{
    let len = s.len();
    let q = skip_spaces(s, j);
    let c = char_at(s, q);
    if c == Some('<') && slash_at(s, skip_spaces(s, q + 1)) {
        let v: Vec<RsxItem> = Vec::new();
        assert(rsx_items_view(v@) =~= Seq::empty());
        return Ok((v, q));
    }
    let (item, e) = if string_start_at(s, q) {
        match read_string(s, q) {
            Ok((t, e)) => (RsxItem::Text(t), e),
            Err(err) => return Err(err),
        }
    } else if c == Some('{') {
        match read_block(s, q, verdicts) {
            Ok((x, e)) => (RsxItem::Expr(x), e),
            Err(err) => return Err(err),
        }
    } else if c == Some('<') {
        match read_element(s, q, verdicts) {
            Ok((el, e)) => (RsxItem::Element(el), e),
            Err(err) => return Err(err),
        }
    } else {
        let v: Vec<RsxItem> = Vec::new();
        assert(rsx_items_view(v@) =~= Seq::empty());
        return Ok((v, q));
    };
    let ghost head = rsx_item_view(item);
    match read_children(s, e, verdicts) {
        Ok((mut rest, r)) => {
            let ghost old_rest = rest@;
            rest.insert(0, item);
            proof {
                lemma_items_view(old_rest);
                lemma_items_view(rest@);
            }
            assert(rsx_items_view(rest@) =~= seq![head] + rsx_items_view(old_rest));
            Ok((rest, r))
        },
        Err(err) => Err(err),
    }
}

/// Reads markup: one element `<Tag name="value" other={expr}> children </Tag>` or
/// `<Tag ... />`, whose children are string literals, braced expressions and elements,
/// with whitespace and comments between the parts and nothing else after the element. The
/// text is read by Rust's lexical rules (identifiers, raw identifiers, string literals with
/// their escapes, raw strings and suffixes, comments), with line ends written as `\n`.
/// A braced expression must be one Rust expression, as syn reads it.
pub fn parse_rsx(src: &str) -> (res: Result<RsxElement, RsxError>)
    ensures
        match res {
            Ok(e) => spec_parse_rsx(src@) == Ok::<RsxElementView, RsxError>(e@),
            Err(err) => spec_parse_rsx(src@) == Err::<RsxElementView, RsxError>(err),
        },
{
    parse_chars(src, None)
}

/// Reads markup as `parse_rsx` does, but a braced expression is accepted as the given
/// verdicts say: the first entry listed under its text counts, and a text not listed is no
/// expression.
pub fn parse_rsx_judged(src: &str, verdicts: &Vec<(String, bool)>) -> (res: Result<RsxElement, RsxError>)
    ensures
        match res {
            Ok(e) => spec_parse_rsx_judged(src@, Some(verdicts_view(verdicts@))) == Ok::<RsxElementView, RsxError>(e@),
            Err(err) => spec_parse_rsx_judged(src@, Some(verdicts_view(verdicts@))) == Err::<RsxElementView, RsxError>(err),
        },
{
    parse_chars(src, Some(verdicts))
}

fn parse_chars(src: &str, verdicts: Option<&Vec<(String, bool)>>) -> (res: Result<RsxElement, RsxError>)
    ensures
        match res {
            Ok(e) => spec_parse_rsx_judged(src@, opt_verdicts(verdicts)) == Ok::<RsxElementView, RsxError>(e@),
            Err(err) => spec_parse_rsx_judged(src@, opt_verdicts(verdicts)) == Err::<RsxElementView, RsxError>(err),
        },
{
    let n = src.unicode_len();
    let mut s: Vec<char> = Vec::new();
    let mut k: usize = 0;
    while k < n
        invariant
            n == src@.len(),
            k <= n,
            s@ == src@.take(k as int),
        decreases n - k,
    {
        s.push(src.get_char(k));
        assert(s@ =~= src@.take(k + 1));
        k = k + 1;
    }
    assert(s@ =~= src@);
    match read_element(&s, 0, verdicts) {
        Ok((el, e)) => if skip_spaces(&s, e) == s.len() {
            Ok(el)
        } else {
            Err(RsxError::Trailing)
        },
        Err(err) => Err(err),
    }
}

} // verus!

verus! {

// ---------------------------------------------------------------------------
// From markup to nodes
// ---------------------------------------------------------------------------

/// The node kind a tag names; tags that name no kind are views.
pub open spec fn spec_map_tag(tag: Seq<char>) -> NodeType {
    if tag == "Text"@ {
        NodeType::Text
    } else if tag == "TextInput"@ {
        NodeType::TextInput
    } else if tag == "Pressable"@ {
        NodeType::Pressable
    } else if tag == "SafeAreaView"@ {
        NodeType::SafeAreaView
    } else if tag == "NavigationContainer"@ {
        NodeType::NavigationContainer
    } else if tag == "StackNavigator"@ {
        NodeType::StackNavigator
    } else if tag == "StackScreen"@ {
        NodeType::StackScreen
    } else {
        NodeType::View
    }
}

pub fn map_tag(tag: &str) -> (res: NodeType)
    ensures
        res == spec_map_tag(tag@),
{
    if str_eq(tag, "Text") {
        NodeType::Text
    } else if str_eq(tag, "TextInput") {
        NodeType::TextInput
    } else if str_eq(tag, "Pressable") {
        NodeType::Pressable
    } else if str_eq(tag, "SafeAreaView") {
        NodeType::SafeAreaView
    } else if str_eq(tag, "NavigationContainer") {
        NodeType::NavigationContainer
    } else if str_eq(tag, "StackNavigator") {
        NodeType::StackNavigator
    } else if str_eq(tag, "StackScreen") {
        NodeType::StackScreen
    } else {
        NodeType::View
    }
}

/// The style an element's attributes give, when it is written literally: the first
/// `style` attribute's value, the empty style without one; `None` for an expression.
pub open spec fn style_of(a: Seq<(Seq<char>, AttrValueView)>) -> Option<Seq<char>>
    decreases a.len(),
{
    if a.len() == 0 {
        Some(Seq::empty())
    } else if a[0].0 == "style"@ {
        match a[0].1 {
            AttrValueView::Literal(x) => Some(x),
            AttrValueView::Expr(_) => None,
        }
    } else {
        style_of(a.drop_first())
    }
}

/// The attributes other than `style`, set in order; `None` when one is an expression.
pub open spec fn literal_attrs(a: Seq<(Seq<char>, AttrValueView)>) -> Option<Seq<(Seq<char>, Seq<char>)>>
    decreases a.len(),
{
    if a.len() == 0 {
        Some(Seq::empty())
    } else {
        match literal_attrs(a.drop_last()) {
            None => None,
            Some(acc) => if a.last().0 == "style"@ {
                Some(acc)
            } else {
                match a.last().1 {
                    AttrValueView::Literal(x) => Some(crate::vnode::attrs_set(acc, a.last().0, x)),
                    AttrValueView::Expr(_) => None,
                }
            },
        }
    }
}

/// The node an element stands for when it holds no expression: its kind, its style, its
/// other attributes set in order, and its children (a string child is a `Text` node).
pub open spec fn rsx_node(e: RsxElementView) -> Option<crate::vnode::NodeView>
    decreases e,
{
    match (style_of(e.attributes), literal_attrs(e.attributes), rsx_nodes(e.children)) {
        (Some(st), Some(at), Some(ch)) => Some(crate::vnode::NodeView {
            tag: spec_map_tag(e.tag),
            children: ch,
            text_content: None,
            style_raw: st,
            attributes: at,
        }),
        _ => None,
    }
}

pub open spec fn rsx_nodes(s: Seq<RsxItemView>) -> Option<Seq<crate::vnode::NodeView>>
    decreases s,
{
    if s.len() == 0 {
        Some(Seq::empty())
    } else {
        match (rsx_nodes(s.drop_last()), rsx_item_node(s.last())) {
            (Some(a), Some(b)) => Some(a.push(b)),
            _ => None,
        }
    }
}

pub open spec fn rsx_item_node(i: RsxItemView) -> Option<crate::vnode::NodeView>
    decreases i,
{
    match i {
        RsxItemView::Element(e) => rsx_node(e),
        RsxItemView::Text(t) => Some(crate::vnode::text_view(t)),
        RsxItemView::Expr(_) => None,
    }
}

fn literal_style(a: &Vec<(String, AttrValue)>) -> (res: Option<String>)
    ensures
        crate::css::opt_view(res) == style_of(rsx_attrs_view(a@)),
{
    let ghost v = rsx_attrs_view(a@);
    let n = a.len();
    let mut k: usize = 0;
    assert(v.skip(0) =~= v);
    while k < n
        invariant
            n == a@.len(),
            v == rsx_attrs_view(a@),
            k <= n,
            style_of(v) == style_of(v.skip(k as int)),
        decreases n - k,
    {
        assert(v.skip(k as int)[0] == v[k as int]);
        assert(v.skip(k as int).drop_first() =~= v.skip(k + 1));
        if str_eq(a[k].0.as_str(), "style") {
            return match &a[k].1 {
                AttrValue::Literal(x) => Some(owned(x.as_str())),
                AttrValue::Expr(_) => None,
            };
        }
        k = k + 1;
    }
    assert(v.skip(n as int) =~= Seq::empty());
    Some(String::new())
}

/// The node that literal markup builds: `None` when an attribute or a child is a braced
/// expression, whose value only the program that holds the markup has.
pub fn rsx_to_vnode(el: &RsxElement) -> (res: Option<crate::vnode::VNode>)
    ensures
        match res {
            Some(n) => rsx_node(el@) == Some(n@),
            None => rsx_node(el@) == None::<crate::vnode::NodeView>,
        },
    decreases el,
{
    let ghost av = rsx_attrs_view(el.attributes@);
    let ghost iv = rsx_items_view(el.children@);
    proof {
        lemma_items_view(el.children@);
    }
    let style = match literal_style(&el.attributes) {
        Some(st) => st,
        None => return None,
    };
    let mut node = crate::vnode::VNode::new(map_tag(el.tag.as_str()));
    node.style_raw = style;
    let n = el.attributes.len();
    let mut k: usize = 0;
    assert(av.take(0) =~= Seq::empty());
    while k < n
        invariant
            n == el.attributes@.len(),
            av == rsx_attrs_view(el.attributes@),
            k <= n,
            node.text_content.is_none(),
            node.tag == spec_map_tag(el.tag@),
            node.style_raw@ == style_of(av)->Some_0,
            style_of(av) is Some,
            literal_attrs(av.take(k as int)) == Some(node@.attributes),
        decreases n - k,
    {
        assert(av.take(k + 1).drop_last() =~= av.take(k as int));
        assert(av.take(k + 1).last() == av[k as int]);
        if !str_eq(el.attributes[k].0.as_str(), "style") {
            match &el.attributes[k].1 {
                AttrValue::Literal(x) => node.set_attr(el.attributes[k].0.as_str(), x.as_str()),
                AttrValue::Expr(_) => {
                    proof {
                        lemma_literal_attrs_none(av, (k + 1) as int);
                    }
                    assert(av.take(n as int) =~= av);
                    return None;
                },
            }
        }
        k = k + 1;
    }
    assert(av.take(n as int) =~= av);
    let m = el.children.len();
    let mut kids: Vec<crate::vnode::VNode> = Vec::new();
    let mut j: usize = 0;
    assert(iv.take(0) =~= Seq::empty());
    while j < m
        invariant
            m == el.children@.len(),
            iv == rsx_items_view(el.children@),
            iv.len() == m,
            forall|q: int| 0 <= q < m ==> #[trigger] iv[q] == rsx_item_view(el.children@[q]),
            j <= m,
            rsx_nodes(iv.take(j as int)) == Some(crate::vnode::children_view(kids@)),
        decreases m - j,
    {
        assert(iv.take(j + 1).drop_last() =~= iv.take(j as int));
        assert(iv.take(j + 1).last() == iv[j as int]);
        let child = match &el.children[j] {
            RsxItem::Element(e) => {
                proof {
                    assert(decreases_to!(el => el.children@[j as int]));
                }
                match rsx_to_vnode(e) {
                    Some(c) => c,
                    None => {
                        proof {
                            assert(el.children@[j as int] == RsxItem::Element(*e));
                            assert(rsx_item_node(iv[j as int]) is None);
                            assert(rsx_nodes(iv.take(j + 1)) is None);
                            lemma_rsx_nodes_none(iv, (j + 1) as int);
                        }
                        assert(iv.take(m as int) =~= iv);
                        return None;
                    },
                }
            },
            RsxItem::Text(t) => crate::vnode::text_node(t.as_str()),
            RsxItem::Expr(_) => {
                proof {
                    assert(rsx_item_node(iv[j as int]) is None);
                    assert(rsx_nodes(iv.take(j + 1)) is None);
                    lemma_rsx_nodes_none(iv, (j + 1) as int);
                }
                assert(iv.take(m as int) =~= iv);
                return None;
            },
        };
        let ghost before = kids@;
        kids.push(child);
        assert(kids@.drop_last() =~= before);
        j = j + 1;
    }
    assert(iv.take(m as int) =~= iv);
    node.children = kids;
    let ghost st = node.style_raw@;
    assert(node@ =~= crate::vnode::NodeView {
        tag: spec_map_tag(el.tag@),
        children: crate::vnode::children_view(node.children@),
        text_content: None,
        style_raw: st,
        attributes: node@.attributes,
    });
    Some(node)
}

/// Once an attribute that is an expression has been met, no later prefix has literal
/// attributes.
proof fn lemma_literal_attrs_none(a: Seq<(Seq<char>, AttrValueView)>, k: int)
    requires
        0 <= k <= a.len(),
        literal_attrs(a.take(k)) is None,
    ensures
        literal_attrs(a) is None,
    decreases a.len() - k,
{
    if k < a.len() {
        assert(a.take(k + 1).drop_last() =~= a.take(k));
        lemma_literal_attrs_none(a, k + 1);
    } else {
        assert(a.take(k) =~= a);
    }
}

proof fn lemma_rsx_nodes_none(s: Seq<RsxItemView>, k: int)
    requires
        0 <= k <= s.len(),
        rsx_nodes(s.take(k)) is None,
    ensures
        rsx_nodes(s) is None,
    decreases s.len() - k,
{
    if k < s.len() {
        assert(s.take(k + 1).drop_last() =~= s.take(k));
        lemma_rsx_nodes_none(s, k + 1);
    } else {
        assert(s.take(k) =~= s);
    }
}

} // verus!

verus! {

// ---------------------------------------------------------------------------
// The code that markup stands for
// ---------------------------------------------------------------------------

/// What markup expands to: code that builds a node. A slot is an `AttrValue`: a string
/// literal, or the source text of an expression whose value the code takes.
#[derive(Debug)]
pub enum RsxCode {
    /// `VNode::new(kind)`, whose `style_raw` is the `style` slot turned into a string (the
    /// empty string without one), then `set_attr` of each attribute in order, then the
    /// children in order.
    Node { kind: NodeType, style: Option<AttrValue>, attrs: Vec<(String, AttrValue)>, children: Vec<RsxCode> },
    /// A `Text` node whose text is the literal.
    Text(String),
    /// The node an expression evaluates to.
    Expr(String),
}

pub enum RsxCodeView {
    Node {
        kind: NodeType,
        style: Option<AttrValueView>,
        attrs: Seq<(Seq<char>, AttrValueView)>,
        children: Seq<RsxCodeView>,
    },
    Text(Seq<char>),
    Expr(Seq<char>),
}

pub open spec fn opt_value_view(v: Option<AttrValue>) -> Option<AttrValueView> {
    match v {
        Some(x) => Some(attr_value_view(x)),
        None => None,
    }
}

pub open spec fn rsx_code_view(c: RsxCode) -> RsxCodeView
    decreases c,
{
    match c {
        RsxCode::Node { kind, style, attrs, children } => RsxCodeView::Node {
            kind,
            style: opt_value_view(style),
            attrs: rsx_attrs_view(attrs@),
            children: rsx_codes_view(children@),
        },
        RsxCode::Text(t) => RsxCodeView::Text(t@),
        RsxCode::Expr(x) => RsxCodeView::Expr(x@),
    }
}

pub open spec fn rsx_codes_view(s: Seq<RsxCode>) -> Seq<RsxCodeView>
    decreases s,
{
    if s.len() == 0 {
        Seq::empty()
    } else {
        rsx_codes_view(s.drop_last()).push(rsx_code_view(s.last()))
    }
}

impl View for RsxCode {
    type V = RsxCodeView;

    open spec fn view(&self) -> RsxCodeView {
        rsx_code_view(*self)
    }
}

/// The value of the first `style` attribute.
pub open spec fn first_style(a: Seq<(Seq<char>, AttrValueView)>) -> Option<AttrValueView>
    decreases a.len(),
{
    if a.len() == 0 {
        None
    } else if a[0].0 == "style"@ {
        Some(a[0].1)
    } else {
        first_style(a.drop_first())
    }
}

/// The attributes other than `style`, in order.
pub open spec fn non_style(a: Seq<(Seq<char>, AttrValueView)>) -> Seq<(Seq<char>, AttrValueView)>
    decreases a.len(),
{
    if a.len() == 0 {
        Seq::empty()
    } else if a.last().0 == "style"@ {
        non_style(a.drop_last())
    } else {
        non_style(a.drop_last()).push(a.last())
    }
}

/// The code an element expands to: the node kind its tag names, its first `style`
/// attribute, its other attributes, and the code of its children.
pub open spec fn gen_element(e: RsxElementView) -> RsxCodeView
    decreases e,
{
    RsxCodeView::Node {
        kind: spec_map_tag(e.tag),
        style: first_style(e.attributes),
        attrs: non_style(e.attributes),
        children: gen_items(e.children),
    }
}

pub open spec fn gen_items(s: Seq<RsxItemView>) -> Seq<RsxCodeView>
    decreases s,
{
    if s.len() == 0 {
        Seq::empty()
    } else {
        gen_items(s.drop_last()).push(gen_item(s.last()))
    }
}

/// The code an item expands to: an element's code, a `Text` node for a string literal, the
/// expression itself for a braced expression.
pub open spec fn gen_item(i: RsxItemView) -> RsxCodeView
    decreases i,
{
    match i {
        RsxItemView::Element(e) => gen_element(e),
        RsxItemView::Text(t) => RsxCodeView::Text(t),
        RsxItemView::Expr(x) => RsxCodeView::Expr(x),
    }
}

pub proof fn lemma_codes_view(s: Seq<RsxCode>)
    ensures
        rsx_codes_view(s).len() == s.len(),
        forall|i: int| 0 <= i < s.len() ==> #[trigger] rsx_codes_view(s)[i] == rsx_code_view(s[i]),
    decreases s.len(),
{
    if s.len() > 0 {
        lemma_codes_view(s.drop_last());
    }
}

pub proof fn lemma_gen_items(s: Seq<RsxItemView>)
    ensures
        gen_items(s).len() == s.len(),
        forall|i: int| 0 <= i < s.len() ==> #[trigger] gen_items(s)[i] == gen_item(s[i]),
    decreases s.len(),
{
    if s.len() > 0 {
        lemma_gen_items(s.drop_last());
    }
}

fn copy_value(v: &AttrValue) -> (res: AttrValue)
    ensures
        attr_value_view(res) == attr_value_view(*v),
{
    match v {
        AttrValue::Literal(x) => AttrValue::Literal(owned(x.as_str())),
        AttrValue::Expr(x) => AttrValue::Expr(owned(x.as_str())),
    }
}

fn style_slot(a: &Vec<(String, AttrValue)>) -> (res: Option<AttrValue>)
    ensures
        opt_value_view(res) == first_style(rsx_attrs_view(a@)),
{
    let ghost v = rsx_attrs_view(a@);
    let n = a.len();
    let mut k: usize = 0;
    assert(v.skip(0) =~= v);
    while k < n
        invariant
            n == a@.len(),
            v == rsx_attrs_view(a@),
            k <= n,
            first_style(v) == first_style(v.skip(k as int)),
        decreases n - k,
    {
        assert(v.skip(k as int)[0] == v[k as int]);
        assert(v.skip(k as int).drop_first() =~= v.skip(k + 1));
        if str_eq(a[k].0.as_str(), "style") {
            return Some(copy_value(&a[k].1));
        }
        k = k + 1;
    }
    assert(v.skip(n as int) =~= Seq::empty());
    None
}

fn other_attrs(a: &Vec<(String, AttrValue)>) -> (res: Vec<(String, AttrValue)>)
    ensures
        rsx_attrs_view(res@) == non_style(rsx_attrs_view(a@)),
{
    let ghost v = rsx_attrs_view(a@);
    let n = a.len();
    let mut out: Vec<(String, AttrValue)> = Vec::new();
    let mut k: usize = 0;
    assert(v.take(0) =~= Seq::empty());
    assert(rsx_attrs_view(out@) =~= Seq::empty());
    while k < n
        invariant
            n == a@.len(),
            v == rsx_attrs_view(a@),
            k <= n,
            rsx_attrs_view(out@) == non_style(v.take(k as int)),
        decreases n - k,
    {
        assert(v.take(k + 1).drop_last() =~= v.take(k as int));
        assert(v.take(k + 1).last() == v[k as int]);
        if !str_eq(a[k].0.as_str(), "style") {
            let ghost before = out@;
            out.push((owned(a[k].0.as_str()), copy_value(&a[k].1)));
            assert(rsx_attrs_view(out@) =~= rsx_attrs_view(before).push(v[k as int]));
        }
        k = k + 1;
    }
    assert(v.take(n as int) =~= v);
    out
}

#[verifier::spinoff_prover]
fn element_code(el: &RsxElement) -> (res: RsxCode)
    ensures
        res@ == gen_element(el@),
    decreases el,
{
    let ghost iv = rsx_items_view(el.children@);
    proof {
        lemma_items_view(el.children@);
    }
    let m = el.children.len();
    let mut kids: Vec<RsxCode> = Vec::new();
    let mut j: usize = 0;
    assert(iv.take(0) =~= Seq::empty());
    assert(rsx_codes_view(kids@) =~= Seq::empty());
    while j < m
        invariant
            m == el.children@.len(),
            iv == rsx_items_view(el.children@),
            iv.len() == m,
            forall|q: int| 0 <= q < m ==> #[trigger] iv[q] == rsx_item_view(el.children@[q]),
            j <= m,
            rsx_codes_view(kids@) == gen_items(iv.take(j as int)),
        decreases m - j,
    {
        assert(iv.take(j + 1).drop_last() =~= iv.take(j as int));
        assert(iv.take(j + 1).last() == iv[j as int]);
        let c = match &el.children[j] {
            RsxItem::Element(e) => {
                proof {
                    assert(el.children@[j as int] == RsxItem::Element(*e));
                    assert(decreases_to!(el => el.children@[j as int]));
                }
                element_code(e)
            },
            RsxItem::Text(t) => {
                assert(el.children@[j as int] == RsxItem::Text(*t));
                RsxCode::Text(owned(t.as_str()))
            },
            RsxItem::Expr(x) => {
                assert(el.children@[j as int] == RsxItem::Expr(*x));
                RsxCode::Expr(owned(x.as_str()))
            },
        };
        assert(c@ == gen_item(iv[j as int]));
        let ghost before = kids@;
        kids.push(c);
        assert(kids@.drop_last() =~= before);
        assert(rsx_codes_view(kids@) == rsx_codes_view(before).push(c@));
        j = j + 1;
    }
    assert(iv.take(m as int) =~= iv);
    RsxCode::Node {
        kind: map_tag(el.tag.as_str()),
        style: style_slot(&el.attributes),
        attrs: other_attrs(&el.attributes),
        children: kids,
    }
}

/// The code an item of markup expands to.
pub fn generate_node(item: &RsxItem) -> (res: RsxCode)
    ensures
        res@ == gen_item(rsx_item_view(*item)),
{
    match item {
        RsxItem::Element(el) => element_code(el),
        RsxItem::Text(t) => RsxCode::Text(owned(t.as_str())),
        RsxItem::Expr(x) => RsxCode::Expr(owned(x.as_str())),
    }
}

/// The code that markup expands to: read, then generated.
pub open spec fn spec_rsx(src: Seq<char>) -> Result<RsxCodeView, RsxError> {
    match spec_parse_rsx(src) {
        Ok(e) => Ok(gen_element(e)),
        Err(err) => Err(err),
    }
}

/// Reads markup and gives the code it expands to.
pub fn rsx(src: &str) -> (res: Result<RsxCode, RsxError>)
    ensures
        match res {
            Ok(c) => spec_rsx(src@) == Ok::<RsxCodeView, RsxError>(c@),
            Err(err) => spec_rsx(src@) == Err::<RsxCodeView, RsxError>(err),
        },
{
    match parse_rsx(src) {
        Ok(e) => {
            let item = RsxItem::Element(e);
            Ok(generate_node(&item))
        },
        Err(err) => Err(err),
    }
}

} // verus!

verus! {

// ---------------------------------------------------------------------------
// Running the code
// ---------------------------------------------------------------------------

/// The text a slot gives: a literal's value, or the value given for the expression's
/// source text (`(expr).to_string()`).
pub open spec fn slot_text(v: AttrValueView, values: Seq<(Seq<char>, Seq<char>)>) -> Option<Seq<char>> {
    match v {
        AttrValueView::Literal(x) => Some(x),
        AttrValueView::Expr(x) => crate::vnode::attr_lookup(values, x),
    }
}

/// The attributes set in order, each to the text of its slot.
pub open spec fn code_attrs(
    a: Seq<(Seq<char>, AttrValueView)>,
    values: Seq<(Seq<char>, Seq<char>)>,
) -> Option<Seq<(Seq<char>, Seq<char>)>>
    decreases a.len(),
{
    if a.len() == 0 {
        Some(Seq::empty())
    } else {
        match (code_attrs(a.drop_last(), values), slot_text(a.last().1, values)) {
            (Some(acc), Some(x)) => Some(crate::vnode::attrs_set(acc, a.last().0, x)),
            _ => None,
        }
    }
}

/// The node given for an expression's source text: the first one listed under it.
pub open spec fn node_lookup(nodes: Seq<(Seq<char>, crate::vnode::NodeView)>, x: Seq<char>) -> Option<crate::vnode::NodeView>
    decreases nodes.len(),
{
    if nodes.len() == 0 {
        None
    } else if nodes[0].0 == x {
        Some(nodes[0].1)
    } else {
        node_lookup(nodes.drop_first(), x)
    }
}

/// The node that code builds when each expression takes the value given for its source
/// text: `values` for attribute expressions, `nodes` for child expressions. `None` when an
/// expression has no value given.
pub open spec fn code_node(
    c: RsxCodeView,
    values: Seq<(Seq<char>, Seq<char>)>,
    nodes: Seq<(Seq<char>, crate::vnode::NodeView)>,
) -> Option<crate::vnode::NodeView>
    decreases c,
{
    match c {
        RsxCodeView::Node { kind, style, attrs, children } => {
            let st = match style {
                None => Some(Seq::<char>::empty()),
                Some(v) => slot_text(v, values),
            };
            match (st, code_attrs(attrs, values), code_nodes(children, values, nodes)) {
                (Some(st), Some(at), Some(ch)) => Some(crate::vnode::NodeView {
                    tag: kind,
                    children: ch,
                    text_content: None,
                    style_raw: st,
                    attributes: at,
                }),
                _ => None,
            }
        },
        RsxCodeView::Text(t) => Some(crate::vnode::text_view(t)),
        RsxCodeView::Expr(x) => node_lookup(nodes, x),
    }
}

pub open spec fn code_nodes(
    s: Seq<RsxCodeView>,
    values: Seq<(Seq<char>, Seq<char>)>,
    nodes: Seq<(Seq<char>, crate::vnode::NodeView)>,
) -> Option<Seq<crate::vnode::NodeView>>
    decreases s,
{
    if s.len() == 0 {
        Some(Seq::empty())
    } else {
        match (code_nodes(s.drop_last(), values, nodes), code_node(s.last(), values, nodes)) {
            (Some(a), Some(b)) => Some(a.push(b)),
            _ => None,
        }
    }
}

pub open spec fn node_values_view(n: Seq<(String, crate::vnode::VNode)>) -> Seq<(Seq<char>, crate::vnode::NodeView)> {
    n.map_values(|p: (String, crate::vnode::VNode)| (p.0@, p.1@))
}

pub open spec fn opt_node_view(o: Option<crate::vnode::VNode>) -> Option<crate::vnode::NodeView> {
    match o {
        Some(n) => Some(n@),
        None => None,
    }
}

fn lookup_value(values: &Vec<(String, String)>, x: &str) -> (res: Option<String>)
    ensures
        crate::css::opt_view(res) == crate::vnode::attr_lookup(crate::vnode::attrs_view(values@), x@),
{
    let ghost a = crate::vnode::attrs_view(values@);
    let n = values.len();
    let mut i: usize = 0;
    while i < n
        invariant
            n == values@.len(),
            a == crate::vnode::attrs_view(values@),
            i <= n,
            forall|j: int| 0 <= j < i ==> a[j].0 != x@,
        decreases n - i,
    {
        if str_eq(values[i].0.as_str(), x) {
            proof {
                crate::vnode::lemma_key_index_unique(a, x@, i as int);
            }
            return Some(owned(values[i].1.as_str()));
        }
        i = i + 1;
    }
    proof {
        crate::vnode::lemma_key_index_none(a, x@);
    }
    None
}

fn lookup_node(nodes: &Vec<(String, crate::vnode::VNode)>, x: &str) -> (res: Option<crate::vnode::VNode>)
    ensures
        opt_node_view(res) == node_lookup(node_values_view(nodes@), x@),
{
    let ghost v = node_values_view(nodes@);
    let n = nodes.len();
    let mut k: usize = 0;
    assert(v.skip(0) =~= v);
    while k < n
        invariant
            n == nodes@.len(),
            v == node_values_view(nodes@),
            k <= n,
            node_lookup(v, x@) == node_lookup(v.skip(k as int), x@),
        decreases n - k,
    {
        assert(v.skip(k as int)[0] == v[k as int]);
        assert(v.skip(k as int).drop_first() =~= v.skip(k + 1));
        if str_eq(nodes[k].0.as_str(), x) {
            return Some(nodes[k].1.clone());
        }
        k = k + 1;
    }
    assert(v.skip(n as int) =~= Seq::empty());
    None
}

fn slot_value(v: &AttrValue, values: &Vec<(String, String)>) -> (res: Option<String>)
    ensures
        crate::css::opt_view(res) == slot_text(attr_value_view(*v), crate::vnode::attrs_view(values@)),
{
    match v {
        AttrValue::Literal(x) => Some(owned(x.as_str())),
        AttrValue::Expr(x) => lookup_value(values, x.as_str()),
    }
}

proof fn lemma_code_attrs_none(a: Seq<(Seq<char>, AttrValueView)>, values: Seq<(Seq<char>, Seq<char>)>, k: int)
    requires
        0 <= k <= a.len(),
        code_attrs(a.take(k), values) is None,
    ensures
        code_attrs(a, values) is None,
    decreases a.len() - k,
{
    if k < a.len() {
        assert(a.take(k + 1).drop_last() =~= a.take(k));
        lemma_code_attrs_none(a, values, k + 1);
    } else {
        assert(a.take(k) =~= a);
    }
}

proof fn lemma_code_nodes_none(
    s: Seq<RsxCodeView>,
    values: Seq<(Seq<char>, Seq<char>)>,
    nodes: Seq<(Seq<char>, crate::vnode::NodeView)>,
    k: int,
)
    requires
        0 <= k <= s.len(),
        code_nodes(s.take(k), values, nodes) is None,
    ensures
        code_nodes(s, values, nodes) is None,
    decreases s.len() - k,
{
    if k < s.len() {
        assert(s.take(k + 1).drop_last() =~= s.take(k));
        lemma_code_nodes_none(s, values, nodes, k + 1);
    } else {
        assert(s.take(k) =~= s);
    }
}

#[verifier::spinoff_prover]
fn build_fields(
    kind: NodeType,
    style: &Option<AttrValue>,
    attrs: &Vec<(String, AttrValue)>,
    children: &Vec<RsxCode>,
    values: &Vec<(String, String)>,
    nodes: &Vec<(String, crate::vnode::VNode)>,
) -> (res: Option<crate::vnode::VNode>)
    ensures
        opt_node_view(res) == code_node(
            RsxCodeView::Node {
                kind,
                style: opt_value_view(*style),
                attrs: rsx_attrs_view(attrs@),
                children: rsx_codes_view(children@),
            },
            crate::vnode::attrs_view(values@),
            node_values_view(nodes@),
        ),
    decreases children,
{
    let ghost vals = crate::vnode::attrs_view(values@);
    let ghost nds = node_values_view(nodes@);
    let ghost av = rsx_attrs_view(attrs@);
    let ghost cv = rsx_codes_view(children@);
    proof {
        lemma_codes_view(children@);
    }
    let st = match style {
        None => String::new(),
        Some(v) => match slot_value(v, values) {
            Some(x) => x,
            None => return None,
        },
    };
    let mut node = crate::vnode::VNode::new(kind);
    node.style_raw = st;
    let n = attrs.len();
    let mut k: usize = 0;
    assert(av.take(0) =~= Seq::empty());
    while k < n
        invariant
            n == attrs@.len(),
            av == rsx_attrs_view(attrs@),
            vals == crate::vnode::attrs_view(values@),
            k <= n,
            node.text_content.is_none(),
            node.tag == kind,
            node.style_raw@ == st@,
            code_attrs(av.take(k as int), vals) == Some(node@.attributes),
        decreases n - k,
    {
        assert(av.take(k + 1).drop_last() =~= av.take(k as int));
        assert(av.take(k + 1).last() == av[k as int]);
        match slot_value(&attrs[k].1, values) {
            Some(x) => node.set_attr(attrs[k].0.as_str(), x.as_str()),
            None => {
                proof {
                    lemma_code_attrs_none(av, vals, (k + 1) as int);
                }
                assert(av.take(n as int) =~= av);
                return None;
            },
        }
        k = k + 1;
    }
    assert(av.take(n as int) =~= av);
    let m = children.len();
    let mut kids: Vec<crate::vnode::VNode> = Vec::new();
    let mut j: usize = 0;
    assert(cv.take(0) =~= Seq::empty());
    while j < m
        invariant
            m == children@.len(),
            cv == rsx_codes_view(children@),
            cv.len() == m,
            forall|q: int| 0 <= q < m ==> #[trigger] cv[q] == rsx_code_view(children@[q]),
            vals == crate::vnode::attrs_view(values@),
            nds == node_values_view(nodes@),
            j <= m,
            code_nodes(cv.take(j as int), vals, nds) == Some(crate::vnode::children_view(kids@)),
        decreases m - j,
    {
        assert(cv.take(j + 1).drop_last() =~= cv.take(j as int));
        assert(cv.take(j + 1).last() == cv[j as int]);
        let built = match &children[j] {
            RsxCode::Node { kind: ck, style: cs, attrs: ca, children: cc } => {
                proof {
                    assert(children@[j as int] == RsxCode::Node { kind: *ck, style: *cs, attrs: *ca, children: *cc });
                    assert(decreases_to!(children => children@[j as int]));
                }
                let b = build_fields(*ck, cs, ca, cc, values, nodes);
                assert(cv[j as int] == rsx_code_view(children@[j as int]));
                b
            },
            RsxCode::Text(t) => {
                assert(children@[j as int] == RsxCode::Text(*t));
                assert(cv[j as int] == rsx_code_view(children@[j as int]));
                Some(crate::vnode::text_node(t.as_str()))
            },
            RsxCode::Expr(x) => {
                assert(children@[j as int] == RsxCode::Expr(*x));
                assert(cv[j as int] == rsx_code_view(children@[j as int]));
                lookup_node(nodes, x.as_str())
            },
        };
        assert(opt_node_view(built) == code_node(cv[j as int], vals, nds));
        match built {
            Some(c) => {
                let ghost before = kids@;
                kids.push(c);
                assert(kids@.drop_last() =~= before);
                assert(kids@.last() == c);
                assert(crate::vnode::children_view(kids@) == crate::vnode::children_view(before).push(c@));
                assert(code_nodes(cv.take(j + 1), vals, nds) == Some(crate::vnode::children_view(before).push(c@)));
            },
            None => {
                proof {
                    assert(code_nodes(cv.take(j + 1), vals, nds) is None);
                    lemma_code_nodes_none(cv, vals, nds, (j + 1) as int);
                }
                assert(cv.take(m as int) =~= cv);
                return None;
            },
        }
        j = j + 1;
    }
    assert(cv.take(m as int) =~= cv);
    node.children = kids;
    let ghost sr = node.style_raw@;
    assert(node@ =~= crate::vnode::NodeView {
        tag: kind,
        children: crate::vnode::children_view(node.children@),
        text_content: None,
        style_raw: sr,
        attributes: node@.attributes,
    });
    Some(node)
}

/// Runs the code that markup expands to: the node it builds when each expression takes the
/// value given for its source text, `values` for attributes and `nodes` for children (the
/// first listed under a text counts); `None` when an expression has no value given.
pub fn build_code(
    code: &RsxCode,
    values: &Vec<(String, String)>,
    nodes: &Vec<(String, crate::vnode::VNode)>,
) -> (res: Option<crate::vnode::VNode>)
    ensures
        opt_node_view(res) == code_node(code@, crate::vnode::attrs_view(values@), node_values_view(nodes@)),
{
    match code {
        RsxCode::Node { kind, style, attrs, children } => build_fields(*kind, style, attrs, children, values, nodes),
        RsxCode::Text(t) => Some(crate::vnode::text_node(t.as_str())),
        RsxCode::Expr(x) => lookup_node(nodes, x.as_str()),
    }
}

proof fn lemma_literal_style(a: Seq<(Seq<char>, AttrValueView)>, values: Seq<(Seq<char>, Seq<char>)>)
    requires
        style_of(a) is Some,
    ensures
        (match first_style(a) {
            None => Some(Seq::<char>::empty()),
            Some(v) => slot_text(v, values),
        }) == style_of(a),
    decreases a.len(),
{
    if a.len() > 0 && a[0].0 != "style"@ {
        lemma_literal_style(a.drop_first(), values);
    }
}

proof fn lemma_literal_attrs(a: Seq<(Seq<char>, AttrValueView)>, values: Seq<(Seq<char>, Seq<char>)>)
    requires
        literal_attrs(a) is Some,
    ensures
        code_attrs(non_style(a), values) == literal_attrs(a),
    decreases a.len(),
{
    if a.len() > 0 {
        lemma_literal_attrs(a.drop_last(), values);
        if a.last().0 != "style"@ {
            let r = non_style(a.drop_last()).push(a.last());
            assert(r.drop_last() =~= non_style(a.drop_last()));
        }
    }
}

proof fn lemma_literal_node(
    e: RsxElementView,
    values: Seq<(Seq<char>, Seq<char>)>,
    nodes: Seq<(Seq<char>, crate::vnode::NodeView)>,
)
    requires
        rsx_node(e) is Some,
    ensures
        code_node(gen_element(e), values, nodes) == rsx_node(e),
    decreases e,
{
    lemma_literal_style(e.attributes, values);
    lemma_literal_attrs(e.attributes, values);
    lemma_literal_nodes(e.children, values, nodes);
}

proof fn lemma_literal_nodes(
    s: Seq<RsxItemView>,
    values: Seq<(Seq<char>, Seq<char>)>,
    nodes: Seq<(Seq<char>, crate::vnode::NodeView)>,
)
    requires
        rsx_nodes(s) is Some,
    ensures
        code_nodes(gen_items(s), values, nodes) == rsx_nodes(s),
    decreases s,
{
    if s.len() > 0 {
        lemma_literal_nodes(s.drop_last(), values, nodes);
        let g = gen_items(s);
        assert(g.drop_last() =~= gen_items(s.drop_last()));
        assert(g.last() == gen_item(s.last()));
        assert(rsx_item_node(s.last()) is Some);
        match s.last() {
            RsxItemView::Element(e) => {
                assert(rsx_node(e) is Some);
                lemma_literal_node(e, values, nodes);
            },
            _ => {},
        }
        assert(code_node(g.last(), values, nodes) == rsx_item_node(s.last()));
        lemma_gen_items(s);
        assert(g.len() > 0);
    }
}

/// Markup without braced expressions builds one node whatever values expressions are given:
/// the node its code builds is the node `rsx_to_vnode` builds.
pub proof fn law_literal_markup_ignores_values(
    e: RsxElementView,
    values: Seq<(Seq<char>, Seq<char>)>,
    nodes: Seq<(Seq<char>, crate::vnode::NodeView)>,
)
    requires
        rsx_node(e) is Some,
    ensures
        code_node(gen_element(e), values, nodes) == rsx_node(e),
{
    lemma_literal_node(e, values, nodes);
}

} // verus!

verus! {

/// The tag that names a node kind (the name the outline prints for it) builds a node of
/// that kind.
pub proof fn law_kind_name_maps_back(t: NodeType)
    ensures
        spec_map_tag(crate::tree::node_type_name(t)) == t,
{
    reveal_strlit("View");
    reveal_strlit("Text");
    reveal_strlit("TextInput");
    reveal_strlit("Pressable");
    reveal_strlit("SafeAreaView");
    reveal_strlit("NavigationContainer");
    reveal_strlit("StackNavigator");
    reveal_strlit("StackScreen");
    let n = crate::tree::node_type_name(t);
    let l1 = "Text"@.len();
    let l2 = "TextInput"@.len();
    let l3 = "Pressable"@.len();
    let l4 = "SafeAreaView"@.len();
    let l5 = "NavigationContainer"@.len();
    let l6 = "StackNavigator"@.len();
    let l7 = "StackScreen"@.len();
    assert(l1 == 4 && l2 == 9 && l3 == 9 && l4 == 12 && l5 == 19 && l6 == 14 && l7 == 11);
    match t {
        NodeType::View => {
            assert(n[0] != "Text"@[0]);
        },
        NodeType::Pressable => {
            assert(n[0] != "TextInput"@[0]);
        },
        _ => {},
    }
}

} // verus!
