use vstd::prelude::*;

verus! {

/// Styles shared by the authentication screens.
pub struct AuthStyles;

pub const AUTH: AuthStyles = AuthStyles;

/// Styles of the login screen.
pub struct LoginStyles;

pub const LOGIN: LoginStyles = LoginStyles;

/// Styles of the sign-up screen.
pub struct CadastroStyles;

pub const CADASTRO: CadastroStyles = CadastroStyles;

impl AuthStyles {
    pub fn content(&self) -> (res: &'static str)
        ensures
            res@ == "padding: 20; justify-content: center; padding-bottom: 96"@,
    {
        "padding: 20; justify-content: center; padding-bottom: 96"
    }
}

impl LoginStyles {
    pub fn container(&self) -> (res: &'static str)
        ensures
            res@ == "flex: 1; background: #121212; position: relative"@,
    {
        "flex: 1; background: #121212; position: relative"
    }

    pub fn title(&self) -> (res: &'static str)
        ensures
            res@ == "font-size: 24; color: #FFFFFF"@,
    {
        "font-size: 24; color: #FFFFFF"
    }

    pub fn subtitle(&self) -> (res: &'static str)
        ensures
            res@ == "color: #94a3b8; margin-top: 8"@,
    {
        "color: #94a3b8; margin-top: 8"
    }

    pub fn email_input(&self) -> (res: &'static str)
        ensures
            res@ == "border: 1px solid #333; margin-top: 16; padding: 12; radius: 10; color: #e2e8f0"@,
    {
        "border: 1px solid #333; margin-top: 16; padding: 12; radius: 10; color: #e2e8f0"
    }

    pub fn password_input(&self) -> (res: &'static str)
        ensures
            res@ == "border: 1px solid #333; margin-top: 10; padding: 12; radius: 10; color: #e2e8f0"@,
    {
        "border: 1px solid #333; margin-top: 10; padding: 12; radius: 10; color: #e2e8f0"
    }

    pub fn submit_button(&self) -> (res: &'static str)
        ensures
            res@ == "background: #007AFF; border-radius: 8; margin-top: 20; padding: 12"@,
    {
        "background: #007AFF; border-radius: 8; margin-top: 20; padding: 12"
    }

    pub fn submit_label(&self) -> (res: &'static str)
        ensures
            res@ == "color: #ffffff"@,
    {
        "color: #ffffff"
    }
}

impl CadastroStyles {
    pub fn container(&self) -> (res: &'static str)
        ensures
            res@ == "flex: 1; background: #0b1220; position: relative"@,
    {
        "flex: 1; background: #0b1220; position: relative"
    }

    pub fn title(&self) -> (res: &'static str)
        ensures
            res@ == "font-size: 24; color: #FFFFFF"@,
    {
        "font-size: 24; color: #FFFFFF"
    }

    pub fn subtitle(&self) -> (res: &'static str)
        ensures
            res@ == "color: #94a3b8; margin-top: 8"@,
    {
        "color: #94a3b8; margin-top: 8"
    }

    pub fn name_input(&self) -> (res: &'static str)
        ensures
            res@ == "border: 1px solid #334155; margin-top: 16; padding: 12; radius: 10; color: #e2e8f0"@,
    {
        "border: 1px solid #334155; margin-top: 16; padding: 12; radius: 10; color: #e2e8f0"
    }

    pub fn email_input(&self) -> (res: &'static str)
        ensures
            res@ == "border: 1px solid #334155; margin-top: 10; padding: 12; radius: 10; color: #e2e8f0"@,
    {
        "border: 1px solid #334155; margin-top: 10; padding: 12; radius: 10; color: #e2e8f0"
    }

    pub fn password_input(&self) -> (res: &'static str)
        ensures
            res@ == "border: 1px solid #334155; margin-top: 10; padding: 12; radius: 10; color: #e2e8f0"@,
    {
        "border: 1px solid #334155; margin-top: 10; padding: 12; radius: 10; color: #e2e8f0"
    }

    pub fn submit_button(&self) -> (res: &'static str)
        ensures
            res@ == "background: #0ea5e9; border-radius: 8; margin-top: 20; padding: 12"@,
    {
        "background: #0ea5e9; border-radius: 8; margin-top: 20; padding: 12"
    }

    pub fn submit_label(&self) -> (res: &'static str)
        ensures
            res@ == "color: #ffffff"@,
    {
        "color: #ffffff"
    }
}

} // verus!
