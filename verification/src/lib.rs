pub mod app;
pub mod cli;
pub mod components;
pub mod css;
pub mod dom;
pub mod lex;
pub mod navigation;
pub mod render;
pub mod screens;
pub mod styles;
pub mod text;
pub mod tree;
pub mod vnode;
pub mod wasm_internal;
pub mod web;

use vstd::prelude::*;
use vstd::string::*;

pub use navigation::Screen;

verus! {

/// What the login form holds: attempts so far, e-mail and password.
#[derive(Debug, Clone)]
pub struct LoginForm {
    pub tentativas: i32,
    pub email: String,
    pub senha: String,
}

/// What the sign-up form holds: attempts so far, name, e-mail and password.
#[derive(Debug, Clone)]
pub struct CadastroForm {
    pub tentativas: i32,
    pub nome: String,
    pub email: String,
    pub senha: String,
}

impl Default for LoginForm {
    fn default() -> (res: Self)
        ensures
            res.tentativas == 0,
            res.email@ == Seq::<char>::empty(),
            res.senha@ == Seq::<char>::empty(),
    {
        LoginForm { tentativas: 0, email: String::new(), senha: String::new() }
    }
}

impl Default for CadastroForm {
    fn default() -> (res: Self)
        ensures
            res.tentativas == 0,
            res.nome@ == Seq::<char>::empty(),
            res.email@ == Seq::<char>::empty(),
            res.senha@ == Seq::<char>::empty(),
    {
        CadastroForm { tentativas: 0, nome: String::new(), email: String::new(), senha: String::new() }
    }
}

/// A stored field value, or the empty string when the field was never filled.
pub open spec fn field_value(values: Seq<(Seq<char>, Seq<char>)>, key: Seq<char>) -> Seq<char> {
    match vnode::attr_lookup(values, key) {
        Some(v) => v,
        None => Seq::empty(),
    }
}

fn read_field(values: &web::WebInputValues, key: &str) -> (res: String)
    ensures
        res@ == field_value(values@, key@),
{
    match web::web_input_value(values, key) {
        Some(v) => v,
        None => String::new(),
    }
}

/// The login form as the page's fields hold it.
pub fn get_login_form(values: &web::WebInputValues, tentativas: i32) -> (res: LoginForm)
    ensures
        res.tentativas == tentativas,
        res.email@ == field_value(values@, "login_email"@),
        res.senha@ == field_value(values@, "login_password"@),
{
    LoginForm {
        tentativas,
        email: read_field(values, "login_email"),
        senha: read_field(values, "login_password"),
    }
}

/// The sign-up form as the page's fields hold it.
pub fn get_cadastro_form(values: &web::WebInputValues, tentativas: i32) -> (res: CadastroForm)
    ensures
        res.tentativas == tentativas,
        res.nome@ == field_value(values@, "signup_name"@),
        res.email@ == field_value(values@, "signup_email"@),
        res.senha@ == field_value(values@, "signup_password"@),
{
    CadastroForm {
        tentativas,
        nome: read_field(values, "signup_name"),
        email: read_field(values, "signup_email"),
        senha: read_field(values, "signup_password"),
    }
}

/// The whole app with `screen` as the active route.
pub fn build_app(screen: Screen) -> (res: vnode::VNode)
    ensures
        res@ == navigation::spec_stack_navigator(screen),
{
    app::build_app(screen)
}

} // verus!

pub mod rsx;
