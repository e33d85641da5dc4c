use vstd::prelude::*;
use vstd::string::*;
use crate::css::{opt_view, spec_extract_bg, extract_bg_hex};
use crate::text::{decimal, owned, push_decimal, str_eq, str_strip_prefix, strip_prefix};
use crate::vnode::{attr_lookup, attrs_set, keys_unique, law_attr_after_set, law_set_attr_keeps_keys_unique, law_set_attr_keeps_other_keys, key_index, lemma_key_index, lemma_key_index_none, lemma_key_index_unique};

verus! {

/// A link shown above the web preview.
pub struct WebPreviewTab<'a> {
    pub label: &'a str,
    pub href: &'a str,
    pub active: bool,
    pub active_color: &'a str,
}

/// What the web preview shows besides the tree itself.
pub struct WebPreviewOptions<'a> {
    pub tabs: &'a [WebPreviewTab<'a>],
    pub show_tree: bool,
}

/// The inline style of a tab link: the tab's colour when it is the active one, a neutral
/// grey otherwise.
pub open spec fn spec_tab_link_style(active: bool, active_color: Seq<char>) -> Seq<char> {
    "text-decoration:none;color:#fff;background:"@ + (if active { active_color } else { "#1f2937"@ })
        + ";padding:8px 12px;border-radius:999px;font-weight:600;font-size:13px;"@
}

pub fn tab_link_style(tab: &WebPreviewTab) -> (res: String)
    ensures
        res@ == spec_tab_link_style(tab.active, tab.active_color@),
{
    let bg = if tab.active { tab.active_color } else { "#1f2937" };
    let mut s = owned("text-decoration:none;color:#fff;background:");
    s.append(bg);
    s.append(";padding:8px 12px;border-radius:999px;font-weight:600;font-size:13px;");
    s
}

/// The page style used when the renderer cannot start: the background the root style
/// gives (else `#111111`), light monospace text.
pub open spec fn spec_fallback_body_style(style_raw: Seq<char>) -> Seq<char> {
    "margin:0;background:"@ + (match spec_extract_bg(style_raw) {
        Some(bg) => bg,
        None => "#111111"@,
    }) + ";color:#e5e7eb;font-family:monospace;"@
}

pub fn fallback_body_style(style_raw: &str) -> (res: String)
    ensures
        res@ == spec_fallback_body_style(style_raw@),
{
    let bg = match extract_bg_hex(style_raw) {
        Some(b) => b,
        None => owned("#111111"),
    };
    let mut s = owned("margin:0;background:");
    s.append(bg.as_str());
    s.append(";color:#e5e7eb;font-family:monospace;");
    s
}

/// What a click action asks for.
#[derive(Debug, PartialEq, Eq)]
pub enum WebAction {
    /// Go to the page whose query string is given.
    Navigate(String),
    /// Report the login form.
    Login,
    /// Report the sign-up form.
    Signup,
    /// Nothing to do.
    Ignore,
}

pub enum WebActionView {
    Navigate(Seq<char>),
    Login,
    Signup,
    Ignore,
}

impl View for WebAction {
    type V = WebActionView;

    open spec fn view(&self) -> WebActionView {
        match self {
            WebAction::Navigate(t) => WebActionView::Navigate(t@),
            WebAction::Login => WebActionView::Login,
            WebAction::Signup => WebActionView::Signup,
            WebAction::Ignore => WebActionView::Ignore,
        }
    }
}

/// `navigate:<screen>` goes to `?screen=<screen>`; `handle_login` and `handle_signup`
/// report their forms; anything else is ignored.
pub open spec fn spec_web_action(action: Seq<char>) -> WebActionView {
    match strip_prefix(action, "navigate:"@) {
        Some(screen) => WebActionView::Navigate("?screen="@ + screen),
        None => if action == "handle_login"@ {
            WebActionView::Login
        } else if action == "handle_signup"@ {
            WebActionView::Signup
        } else {
            WebActionView::Ignore
        },
    }
}

pub fn web_action(action: &str) -> (res: WebAction)
    ensures
        res@ == spec_web_action(action@),
{
    match str_strip_prefix(action, "navigate:") {
        Some(screen) => {
            let mut t = owned("?screen=");
            t.append(screen);
            WebAction::Navigate(t)
        },
        None => if str_eq(action, "handle_login") {
            WebAction::Login
        } else if str_eq(action, "handle_signup") {
            WebAction::Signup
        } else {
            WebAction::Ignore
        },
    }
}

/// The console line for a login: the e-mail and how many characters the password has.
pub open spec fn spec_login_message(email: Seq<char>, password: Seq<char>) -> Seq<char> {
    "handle_login => email="@ + email + ", senha_chars="@ + decimal(password.len())
}

pub fn login_message(email: &str, password: &str) -> (res: String)
    ensures
        res@ == spec_login_message(email@, password@),
{
    let mut s = owned("handle_login => email=");
    s.append(email);
    s.append(", senha_chars=");
    push_decimal(&mut s, password.unicode_len());
    s
}

/// The console line for a sign-up: name, e-mail and the password's length in characters.
pub open spec fn spec_signup_message(name: Seq<char>, email: Seq<char>, password: Seq<char>) -> Seq<char> {
    "handle_signup => nome="@ + name + ", email="@ + email + ", senha_chars="@ + decimal(password.len())
}

pub fn signup_message(name: &str, email: &str, password: &str) -> (res: String)
    ensures
        res@ == spec_signup_message(name@, email@, password@),
{
    let mut s = owned("handle_signup => nome=");
    s.append(name);
    s.append(", email=");
    s.append(email);
    s.append(", senha_chars=");
    push_decimal(&mut s, password.unicode_len());
    s
}

/// The console line for an edit of a text field that names a change handler: the handler,
/// then the field's key and its new value.
pub open spec fn spec_change_message(handler: Seq<char>, key: Seq<char>, value: Seq<char>) -> Seq<char> {
    handler + " => "@ + key + "="@ + value
}

pub fn change_message(handler: &str, key: &str, value: &str) -> (res: String)
    ensures
        res@ == spec_change_message(handler@, key@, value@),
{
    let mut s = owned(handler);
    s.append(" => ");
    s.append(key);
    s.append("=");
    s.append(value);
    s
}

/// The current values of the page's text fields, by key.
pub struct WebInputValues {
    entries: Vec<(String, String)>,
}

impl View for WebInputValues {
    type V = Seq<(Seq<char>, Seq<char>)>;

    closed spec fn view(&self) -> Seq<(Seq<char>, Seq<char>)> {
        crate::vnode::attrs_view(self.entries@)
    }
}

impl WebInputValues {
    /// No key is stored twice.
    #[verifier::type_invariant]
    spec fn keys_distinct(self) -> bool {
        crate::vnode::keys_unique(crate::vnode::attrs_view(self.entries@))
    }

    /// No values yet.
    pub fn new() -> (res: Self)
        ensures
            res@ == Seq::<(Seq<char>, Seq<char>)>::empty(),
    {
        let res = WebInputValues { entries: Vec::new() };
        assert(crate::vnode::attrs_view(res.entries@) =~= Seq::empty());
        res
    }
}

/// The value last stored under `key`, if any.
pub fn web_input_value(values: &WebInputValues, key: &str) -> (res: Option<String>)
    ensures
        opt_view(res) == attr_lookup(values@, key@),
{
    let ghost a = values@;
    let n = values.entries.len();
    let mut i: usize = 0;
    while i < n
        invariant
            n == values.entries@.len(),
            a == values@,
            a == crate::vnode::attrs_view(values.entries@),
            i <= n,
            forall|j: int| 0 <= j < i ==> a[j].0 != key@,
        decreases n - i,
    {
        if str_eq(values.entries[i].0.as_str(), key) {
            proof {
                lemma_key_index_unique(a, key@, i as int);
            }
            return Some(owned(values.entries[i].1.as_str()));
        }
        i = i + 1;
    }
    proof {
        lemma_key_index_none(a, key@);
    }
    None
}

/// Stores `value` under `key`, replacing what was there.
pub fn set_web_input_value(values: &mut WebInputValues, key: &str, value: &str)
    ensures
        final(values)@ == attrs_set(old(values)@, key@, value@),
{
    proof {
        use_type_invariant(&*values);
    }
    let ghost a = values@;
    proof {
        law_set_attr_keeps_keys_unique(a, key@, value@);
    }
    let mut entries: Vec<(String, String)> = Vec::new();
    std::mem::swap(&mut entries, &mut values.entries);
    assert(a == crate::vnode::attrs_view(entries@));
    let n = entries.len();
    let mut i: usize = 0;
    let mut found = false;
    while i < n
        invariant_except_break
            !found,
        invariant
            n == entries@.len(),
            !found ==> a == crate::vnode::attrs_view(entries@),
            i <= n,
            !found ==> forall|j: int| 0 <= j < i ==> a[j].0 != key@,
        ensures
            found ==> crate::vnode::attrs_view(entries@) == attrs_set(a, key@, value@),
            !found ==> a == crate::vnode::attrs_view(entries@) && forall|j: int| 0 <= j < a.len() ==> a[j].0 != key@,
        decreases n - i,
    {
        if str_eq(entries[i].0.as_str(), key) {
            proof {
                lemma_key_index_unique(a, key@, i as int);
            }
            entries.set(i, (owned(key), owned(value)));
            assert(crate::vnode::attrs_view(entries@) =~= a.update(i as int, (key@, value@)));
            found = true;
            break;
        }
        i = i + 1;
    }
    if !found {
        proof {
            lemma_key_index_none(a, key@);
        }
        entries.push((owned(key), owned(value)));
        assert(crate::vnode::attrs_view(entries@) =~= a.push((key@, value@)));
    }
    values.entries = entries;
}

/// Forgets every stored value.
pub fn clear_web_input_values(values: &mut WebInputValues)
    ensures
        final(values)@ == Seq::<(Seq<char>, Seq<char>)>::empty(),
{
    values.entries = Vec::new();
    assert(crate::vnode::attrs_view(values.entries@) =~= Seq::empty());
}

/// One call that changes a store of text-field values.
pub enum InputEvent {
    /// `set_web_input_value` with a key and a value.
    Store(Seq<char>, Seq<char>),
    /// `clear_web_input_values`.
    Wipe,
}

/// The store after a history of calls made on a new store, oldest first.
pub open spec fn replay(events: Seq<InputEvent>) -> Seq<(Seq<char>, Seq<char>)>
    decreases events.len(),
{
    if events.len() == 0 {
        Seq::empty()
    } else {
        match events.last() {
            InputEvent::Store(k, v) => attrs_set(replay(events.drop_last()), k, v),
            InputEvent::Wipe => Seq::empty(),
        }
    }
}

/// What the latest call on `key` decides: the value of the latest set of `key`, unless a
/// clear came after it; nothing when neither came.
pub open spec fn latest_value(events: Seq<InputEvent>, key: Seq<char>) -> Option<Seq<char>>
    decreases events.len(),
{
    if events.len() == 0 {
        None
    } else {
        match events.last() {
            InputEvent::Store(k, v) => if k == key {
                Some(v)
            } else {
                latest_value(events.drop_last(), key)
            },
            InputEvent::Wipe => None,
        }
    }
}

/// Whatever the history of sets and clears on a new store, reading a key gives what the
/// latest set or clear that concerns it decides (`WebInputValues::new`,
/// `set_web_input_value` and `clear_web_input_values` state the steps of `replay`).
pub proof fn law_latest_call_decides(events: Seq<InputEvent>, key: Seq<char>)
    ensures
        attr_lookup(replay(events), key) == latest_value(events, key),
    decreases events.len(),
{
    if events.len() == 0 {
        lemma_key_index(Seq::<(Seq<char>, Seq<char>)>::empty(), key);
    } else {
        law_latest_call_decides(events.drop_last(), key);
        match events.last() {
            InputEvent::Store(k, v) => {
                if k == key {
                    law_attr_after_set(replay(events.drop_last()), k, v);
                } else {
                    law_set_attr_keeps_other_keys(replay(events.drop_last()), k, v, key);
                }
            },
            InputEvent::Wipe => {
                lemma_key_index(Seq::<(Seq<char>, Seq<char>)>::empty(), key);
            },
        }
    }
}

/// After clearing, no key has a value.
pub proof fn law_cleared_values_read_nothing(key: Seq<char>)
    ensures
        attr_lookup(Seq::<(Seq<char>, Seq<char>)>::empty(), key) == None::<Seq<char>>,
{
    lemma_key_index(Seq::<(Seq<char>, Seq<char>)>::empty(), key);
}

} // verus!
