use vstd::prelude::*;
use vstd::string::*;
use crate::text::{owned, str_eq, str_trim, trim};

verus! {

/// What the command line asks for.
#[derive(Debug, PartialEq, Eq)]
pub enum CliCommand {
    /// No command given: show the help.
    Help,
    Doctor,
    New,
    Web,
    /// A command that does not exist.
    Unknown(String),
}

/// Reads the command from the arguments (the first one is the program).
pub fn parse_command(args: &Vec<String>) -> (res: CliCommand)
    ensures
        args@.len() < 2 ==> res == CliCommand::Help,
        args@.len() >= 2 ==> (if args@[1]@ == "doctor"@ {
            res == CliCommand::Doctor
        } else if args@[1]@ == "new"@ {
            res == CliCommand::New
        } else if args@[1]@ == "web"@ {
            res == CliCommand::Web
        } else {
            res matches CliCommand::Unknown(c) && c@ == args@[1]@
        }),
{
    if args.len() < 2 {
        return CliCommand::Help;
    }
    let command = args[1].as_str();
    if str_eq(command, "doctor") {
        CliCommand::Doctor
    } else if str_eq(command, "new") {
        CliCommand::New
    } else if str_eq(command, "web") {
        CliCommand::Web
    } else {
        CliCommand::Unknown(owned(command))
    }
}

/// Why a command of the command line failed.
#[derive(Debug, PartialEq, Eq)]
pub enum CliError {
    /// `new` without enough arguments.
    Usage,
    /// `new` with a subcommand other than `screen`.
    UnknownSubcommand,
    /// A screen name that is blank.
    EmptyName,
    /// No `enum <name>` in the file.
    EnumNotFound(String),
    /// No `}` after the enum's start.
    EnumEndNotFound,
    /// The new variant's text already occurs in the file.
    VariantExists,
}

pub enum CliErrorView {
    Usage,
    UnknownSubcommand,
    EmptyName,
    EnumNotFound(Seq<char>),
    EnumEndNotFound,
    VariantExists,
}

impl View for CliError {
    type V = CliErrorView;

    open spec fn view(&self) -> CliErrorView {
        match self {
            CliError::Usage => CliErrorView::Usage,
            CliError::UnknownSubcommand => CliErrorView::UnknownSubcommand,
            CliError::EmptyName => CliErrorView::EmptyName,
            CliError::EnumNotFound(n) => CliErrorView::EnumNotFound(n@),
            CliError::EnumEndNotFound => CliErrorView::EnumEndNotFound,
            CliError::VariantExists => CliErrorView::VariantExists,
        }
    }
}

pub open spec fn spec_cli_message(e: CliErrorView) -> Seq<char> {
    match e {
        CliErrorView::Usage => "Uso: oxidact new screen <Nome>"@,
        CliErrorView::UnknownSubcommand => "Subcomando desconhecido"@,
        CliErrorView::EmptyName => "Nome da screen nao pode ser vazio"@,
        CliErrorView::EnumNotFound(n) => "Enum '"@ + n + "' nao encontrada"@,
        CliErrorView::EnumEndNotFound => "Nao foi possivel localizar fim da enum"@,
        CliErrorView::VariantExists => "Variant ja existe na enum"@,
    }
}

impl CliError {
    /// The message shown for the error.
    pub fn message(&self) -> (res: String)
        ensures
            res@ == spec_cli_message(self@),
    {
        match self {
            CliError::Usage => owned("Uso: oxidact new screen <Nome>"),
            CliError::UnknownSubcommand => owned("Subcomando desconhecido"),
            CliError::EmptyName => owned("Nome da screen nao pode ser vazio"),
            CliError::EnumNotFound(n) => {
                let mut s = owned("Enum '");
                s.append(n.as_str());
                s.append("' nao encontrada");
                s
            },
            CliError::EnumEndNotFound => owned("Nao foi possivel localizar fim da enum"),
            CliError::VariantExists => owned("Variant ja existe na enum"),
        }
    }
}

pub open spec fn result_view(r: Result<String, CliError>) -> Result<Seq<char>, CliErrorView> {
    match r {
        Ok(s) => Ok(s@),
        Err(e) => Err(e@),
    }
}

/// The screen name after trimming; a blank name is refused.
pub open spec fn spec_create_screen(name: Seq<char>) -> Result<Seq<char>, CliErrorView> {
    if trim(name).len() == 0 {
        Err(CliErrorView::EmptyName)
    } else {
        Ok(trim(name))
    }
}

/// Checks a new screen's name and gives the enum variant it becomes (the name trimmed).
pub fn create_screen(name: &str) -> (res: Result<String, CliError>)
    ensures
        result_view(res) == spec_create_screen(name@),
{
    let variant = str_trim(name);
    if variant.unicode_len() == 0 {
        return Err(CliError::EmptyName);
    }
    Ok(owned(variant))
}

/// `new screen <Name>`: needs four arguments and the subcommand `screen`; gives the
/// variant for the name.
pub open spec fn spec_handle_new(args: Seq<Seq<char>>) -> Result<Seq<char>, CliErrorView> {
    if args.len() < 4 {
        Err(CliErrorView::Usage)
    } else if args[2] == "screen"@ {
        spec_create_screen(args[3])
    } else {
        Err(CliErrorView::UnknownSubcommand)
    }
}

pub fn handle_new(args: &Vec<String>) -> (res: Result<String, CliError>)
    ensures
        result_view(res) == spec_handle_new(crate::text::strings_view(args@)),
{
    let ghost a = crate::text::strings_view(args@);
    if args.len() < 4 {
        return Err(CliError::Usage);
    }
    assert(a[2] == args@[2]@ && a[3] == args@[3]@);
    if str_eq(args[2].as_str(), "screen") {
        create_screen(args[3].as_str())
    } else {
        Err(CliError::UnknownSubcommand)
    }
}

/// `p` occurs in `s` at position `i`.
pub open spec fn occurs_at(s: Seq<char>, p: Seq<char>, i: int) -> bool {
    0 <= i && i + p.len() <= s.len() && s.subrange(i, i + p.len()) == p
}

/// The first position at or after `i` where `p` occurs in `s`.
pub open spec fn find_from(s: Seq<char>, p: Seq<char>, i: int) -> Option<int>
    decreases s.len() + 1 - i,
{
    if i < 0 || i + p.len() > s.len() {
        None
    } else if occurs_at(s, p, i) {
        Some(i)
    } else {
        find_from(s, p, i + 1)
    }
}

/// The first position where `p` occurs in `s`, as `str::find` gives it.
pub open spec fn find_str(s: Seq<char>, p: Seq<char>) -> Option<int> {
    find_from(s, p, 0)
}

/// `p` occurs in `s`, as `str::contains` tells.
pub open spec fn contains_str(s: Seq<char>, p: Seq<char>) -> bool {
    find_str(s, p) is Some
}

pub proof fn lemma_find_from(s: Seq<char>, p: Seq<char>, i: int)
    requires
        0 <= i,
    ensures
        match find_from(s, p, i) {
            Some(k) => i <= k && occurs_at(s, p, k) && forall|j: int| i <= j < k ==> !occurs_at(s, p, j),
            None => forall|j: int| i <= j ==> !occurs_at(s, p, j),
        },
    decreases s.len() + 1 - i,
{
    if i + p.len() <= s.len() && !occurs_at(s, p, i) {
        lemma_find_from(s, p, i + 1);
    }
}

/// The last position of `c` in `s`, as `str::rfind` gives it.
pub open spec fn rfind_char(s: Seq<char>, c: char) -> Option<int>
    decreases s.len(),
{
    if s.len() == 0 {
        None
    } else if s.last() == c {
        Some(s.len() - 1)
    } else {
        rfind_char(s.drop_last(), c)
    }
}

pub proof fn lemma_rfind_char(s: Seq<char>, c: char)
    ensures
        match rfind_char(s, c) {
            Some(k) => 0 <= k < s.len() && s[k] == c,
            None => true,
        },
    decreases s.len(),
{
    if s.len() > 0 && s.last() != c {
        lemma_rfind_char(s.drop_last(), c);
    }
}

fn occurs_here(s: &str, p: &str, i: usize) -> (res: bool)
    requires
        i + p@.len() <= s@.len(),
    ensures
        res == occurs_at(s@, p@, i as int),
{
    let m = p.unicode_len();
    let n = s.unicode_len();
    let mut k: usize = 0;
    while k < m
        invariant
            m == p@.len(),
            n == s@.len(),
            i + m <= s@.len(),
            k <= m,
            forall|q: int| 0 <= q < k ==> s@[i + q] == p@[q],
        decreases m - k,
    {
        if s.get_char(i + k) != p.get_char(k) {
            assert(s@.subrange(i as int, i + m)[k as int] != p@[k as int]);
            return false;
        }
        k = k + 1;
    }
    assert(s@.subrange(i as int, i + m) =~= p@);
    true
}

/// The first position of `p` in `s`.
pub fn str_find(s: &str, p: &str) -> (res: Option<usize>)
    ensures
        match res {
            Some(k) => find_str(s@, p@) == Some(k as int),
            None => find_str(s@, p@) == None::<int>,
        },
{
    let n = s.unicode_len();
    let m = p.unicode_len();
    proof {
        lemma_find_from(s@, p@, 0);
    }
    if m > n {
        return None;
    }
    if m == 0 {
        assert(s@.subrange(0, 0) =~= p@);
        assert(occurs_at(s@, p@, 0));
        return Some(0);
    }
    let mut i: usize = 0;
    while i <= n - m
        invariant
            n == s@.len(),
            m == p@.len(),
            m <= n,
            m >= 1,
            i <= n - m + 1,
            find_str(s@, p@) == find_from(s@, p@, i as int),
        decreases n - m + 1 - i,
    {
        if occurs_here(s, p, i) {
            return Some(i);
        }
        i = i + 1;
    }
    None
}

fn str_rfind_char(s: &str, c: char) -> (res: Option<usize>)
    ensures
        match res {
            Some(k) => rfind_char(s@, c) == Some(k as int),
            None => rfind_char(s@, c) == None::<int>,
        },
{
    let n = s.unicode_len();
    let mut k: usize = n;
    assert(s@.take(n as int) =~= s@);
    while k > 0
        invariant
            n == s@.len(),
            k <= n,
            rfind_char(s@, c) == rfind_char(s@.take(k as int), c),
        decreases k,
    {
        assert(s@.take(k as int).drop_last() =~= s@.take(k - 1));
        if s.get_char(k - 1) == c {
            return Some(k - 1);
        }
        k = k - 1;
    }
    None
}

/// The file text after adding `variant` to `enum <enum_name>`: the line `    <variant>,`
/// goes right before the last `}` that follows the first `enum <enum_name>`. It is
/// refused when that text is missing, when no `}` follows, or when the variant's text
/// already occurs anywhere in the file.
pub open spec fn spec_insert_in_enum(content: Seq<char>, enum_name: Seq<char>, variant: Seq<char>) -> Result<Seq<char>, CliErrorView> {
    match find_str(content, "enum "@ + enum_name) {
        None => Err(CliErrorView::EnumNotFound(enum_name)),
        Some(start) => match rfind_char(content.skip(start), '}') {
            None => Err(CliErrorView::EnumEndNotFound),
            Some(rel) => if contains_str(content, variant) {
                Err(CliErrorView::VariantExists)
            } else {
                Ok(content.take(start + rel) + "    "@ + variant + ",\n"@ + content.skip(start + rel))
            },
        },
    }
}

pub fn insert_in_enum(content: &str, enum_name: &str, new_variant: &str) -> (res: Result<String, CliError>)
    ensures
        result_view(res) == spec_insert_in_enum(content@, enum_name@, new_variant@),
{
    let mut pattern = owned("enum ");
    pattern.append(enum_name);
    let start = match str_find(content, pattern.as_str()) {
        Some(s) => s,
        None => return Err(CliError::EnumNotFound(owned(enum_name))),
    };
    proof {
        lemma_find_from(content@, pattern@, 0);
    }
    let n = content.unicode_len();
    let body = content.substring_char(start, n);
    assert(body@ =~= content@.skip(start as int));
    let rel = match str_rfind_char(body, '}') {
        Some(r) => r,
        None => return Err(CliError::EnumEndNotFound),
    };
    proof {
        lemma_rfind_char(body@, '}');
    }
    let pos = start + rel;
    if str_find(content, new_variant).is_some() {
        return Err(CliError::VariantExists);
    }
    let mut out = owned(content.substring_char(0, pos));
    out.append("    ");
    out.append(new_variant);
    out.append(",\n");
    out.append(content.substring_char(pos, n));
    assert(out@ =~= content@.take(pos as int) + "    "@ + new_variant@ + ",\n"@ + content@.skip(pos as int));
    Ok(out)
}

} // verus!

verus! {

/// Once a variant has been added, adding the same variant again is refused.
pub proof fn law_insert_in_enum_twice_refused(content: Seq<char>, enum_name: Seq<char>, variant: Seq<char>)
    requires
        spec_insert_in_enum(content, enum_name, variant) is Ok,
    ensures
        spec_insert_in_enum(spec_insert_in_enum(content, enum_name, variant)->Ok_0, enum_name, variant) is Err,
{
    let start = find_str(content, "enum "@ + enum_name)->Some_0;
    let rel = rfind_char(content.skip(start), '}')->Some_0;
    let pos = start + rel;
    let before = content.take(pos) + "    "@;
    let r = spec_insert_in_enum(content, enum_name, variant)->Ok_0;
    assert(r == before + variant + ",\n"@ + content.skip(pos));
    let k = before.len() as int;
    assert(r.subrange(k, k + variant.len()) =~= variant);
    assert(occurs_at(r, variant, k));
    lemma_find_from(r, variant, 0);
}

/// An added variant makes the file longer by the variant, four spaces, a comma and a line
/// break, and leaves the text before and after the insertion point as it was.
pub proof fn law_insert_in_enum_keeps_text(content: Seq<char>, enum_name: Seq<char>, variant: Seq<char>)
    requires
        spec_insert_in_enum(content, enum_name, variant) is Ok,
    ensures
        ({
            let r = spec_insert_in_enum(content, enum_name, variant)->Ok_0;
            exists|pos: int| 0 <= pos <= content.len()
                && r == content.take(pos) + "    "@ + variant + ",\n"@ + content.skip(pos)
        }),
{
    let start = find_str(content, "enum "@ + enum_name)->Some_0;
    lemma_find_from(content, "enum "@ + enum_name, 0);
    let rel = rfind_char(content.skip(start), '}')->Some_0;
    lemma_rfind_char(content.skip(start), '}');
    let pos = start + rel;
    assert(0 <= pos <= content.len());
}

} // verus!
