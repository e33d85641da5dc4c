use oxidact::cli::{create_screen, handle_new, insert_in_enum, parse_command, CliCommand, CliError};

fn args(v: &[&str]) -> Vec<String> {
    v.iter().map(|s| s.to_string()).collect()
}

const NAV: &str = "use x;\n\npub enum Screen {\n    Login,\n    Cadastro,\n}\n";

#[test]
fn commands() {
    assert_eq!(parse_command(&args(&["oxidact"])), CliCommand::Help);
    assert_eq!(parse_command(&args(&["oxidact", "doctor"])), CliCommand::Doctor);
    assert_eq!(parse_command(&args(&["oxidact", "new", "screen", "X"])), CliCommand::New);
    assert_eq!(parse_command(&args(&["oxidact", "web"])), CliCommand::Web);
    assert_eq!(parse_command(&args(&["oxidact", "build"])), CliCommand::Unknown("build".to_string()));
}

#[test]
fn new_screen_arguments() {
    assert_eq!(handle_new(&args(&["oxidact", "new", "screen"])), Err(CliError::Usage));
    assert_eq!(handle_new(&args(&["oxidact", "new", "page", "X"])), Err(CliError::UnknownSubcommand));
    assert_eq!(handle_new(&args(&["oxidact", "new", "screen", "  Perfil "])), Ok("Perfil".to_string()));
    assert_eq!(handle_new(&args(&["oxidact", "new", "screen", "   "])), Err(CliError::EmptyName));
    assert_eq!(create_screen("\tAjustes\n"), Ok("Ajustes".to_string()));
}

#[test]
fn error_messages() {
    assert_eq!(CliError::Usage.message(), "Uso: oxidact new screen <Nome>");
    assert_eq!(CliError::UnknownSubcommand.message(), "Subcomando desconhecido");
    assert_eq!(CliError::EmptyName.message(), "Nome da screen nao pode ser vazio");
    assert_eq!(CliError::EnumNotFound("Tela".to_string()).message(), "Enum 'Tela' nao encontrada");
    assert_eq!(CliError::EnumEndNotFound.message(), "Nao foi possivel localizar fim da enum");
    assert_eq!(CliError::VariantExists.message(), "Variant ja existe na enum");
}

#[test]
fn insert_before_the_last_brace() {
    let out = insert_in_enum(NAV, "Screen", "Perfil").unwrap();
    assert_eq!(out, "use x;\n\npub enum Screen {\n    Login,\n    Cadastro,\n    Perfil,\n}\n");
    assert_eq!(insert_in_enum(&out, "Screen", "Perfil"), Err(CliError::VariantExists));
}

#[test]
fn insert_uses_the_last_brace_of_the_file() {
    let src = "enum Screen {\n    A,\n}\nfn f() {\n}\n";
    assert_eq!(insert_in_enum(src, "Screen", "B").unwrap(), "enum Screen {\n    A,\n}\nfn f() {\n    B,\n}\n");
}

#[test]
fn insert_errors() {
    assert_eq!(insert_in_enum(NAV, "Tela", "Perfil"), Err(CliError::EnumNotFound("Tela".to_string())));
    assert_eq!(insert_in_enum("enum Screen", "Screen", "Perfil"), Err(CliError::EnumEndNotFound));
    assert_eq!(insert_in_enum(NAV, "Screen", "Login"), Err(CliError::VariantExists));
    assert_eq!(insert_in_enum(NAV, "Screen", "x"), Err(CliError::VariantExists));
}
