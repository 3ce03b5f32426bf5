//! What the snippet command line asks for, decided from its arguments.
//!
//! The flags, in any order, a later one overriding an earlier one:
//! `--backend json|sqlite`, `--json-path PATH`, `--sqlite-path PATH`,
//! `--name NAME`, `--lang LANG`, `--download URL`, `--remove NAME`,
//! `--read NAME` and `--list`. No argument at all asks for the usage text.
//! `--list` lists the snippets; otherwise `--remove NAME` removes one;
//! otherwise `--read NAME` prints the code of one; otherwise `--name NAME` saves the code piped in (or downloaded from
//! `--download`) under the slug of the name, replacing a snippet of that
//! name. Without `--backend` the `SNIPPETS_APP_STORAGE` setting chooses the
//! storage.

use crate::provider::{pick_provider_from_env, provider_for_setting, AppError, Provider};
use crate::slug::{kebab_slug, to_kebab_slug};
use crate::text::{blank, is_blank, push_char, same_text};
use vstd::prelude::*;

verus! {

/// The flags given, each as its last value.
#[derive(Debug, Clone)]
pub struct Flags {
    pub list: bool,
    pub backend: Option<String>,
    pub json_path: Option<String>,
    pub sqlite_path: Option<String>,
    pub name: Option<String>,
    pub lang: Option<String>,
    pub download: Option<String>,
    pub remove: Option<String>,
    pub read: Option<String>,
}

/// The flags, mathematically.
pub struct FlagsView {
    pub list: bool,
    pub backend: Option<Seq<char>>,
    pub json_path: Option<Seq<char>>,
    pub sqlite_path: Option<Seq<char>>,
    pub name: Option<Seq<char>>,
    pub lang: Option<Seq<char>>,
    pub download: Option<Seq<char>>,
    pub remove: Option<Seq<char>>,
    pub read: Option<Seq<char>>,
}

pub open spec fn opt_view(o: Option<String>) -> Option<Seq<char>> {
    match o {
        Some(s) => Some(s@),
        None => None,
    }
}

impl View for Flags {
    type V = FlagsView;

    open spec fn view(&self) -> FlagsView {
        FlagsView {
            list: self.list,
            backend: opt_view(self.backend),
            json_path: opt_view(self.json_path),
            sqlite_path: opt_view(self.sqlite_path),
            name: opt_view(self.name),
            lang: opt_view(self.lang),
            download: opt_view(self.download),
            remove: opt_view(self.remove),
            read: opt_view(self.read),
        }
    }
}

/// No flag given.
pub open spec fn no_flags() -> FlagsView {
    FlagsView {
        list: false,
        backend: None,
        json_path: None,
        sqlite_path: None,
        name: None,
        lang: None,
        download: None,
        remove: None,
        read: None,
    }
}

/// The flags that take a value.
pub open spec fn takes_value(a: Seq<char>) -> bool {
    ||| a == "--backend"@
    ||| a == "--json-path"@
    ||| a == "--sqlite-path"@
    ||| a == "--name"@
    ||| a == "--lang"@
    ||| a == "--download"@
    ||| a == "--remove"@
    ||| a == "--read"@
}

/// `f` with flag `a` set to `v`.
pub open spec fn with_flag(f: FlagsView, a: Seq<char>, v: Seq<char>) -> FlagsView {
    if a == "--backend"@ {
        FlagsView { backend: Some(v), ..f }
    } else if a == "--json-path"@ {
        FlagsView { json_path: Some(v), ..f }
    } else if a == "--sqlite-path"@ {
        FlagsView { sqlite_path: Some(v), ..f }
    } else if a == "--name"@ {
        FlagsView { name: Some(v), ..f }
    } else if a == "--lang"@ {
        FlagsView { lang: Some(v), ..f }
    } else if a == "--download"@ {
        FlagsView { download: Some(v), ..f }
    } else if a == "--remove"@ {
        FlagsView { remove: Some(v), ..f }
    } else {
        FlagsView { read: Some(v), ..f }
    }
}

pub open spec fn missing_value_message(a: Seq<char>) -> Seq<char> {
    "a value is required for '"@ + a + "'"@
}

pub open spec fn unexpected_message(a: Seq<char>) -> Seq<char> {
    "unexpected argument '"@ + a + "'"@
}

/// The flags that `args[i..]` give on top of `f`, or the error message of
/// the first argument that is no flag or lacks its value.
pub open spec fn scan(args: Seq<Seq<char>>, i: int, f: FlagsView) -> Result<FlagsView, Seq<char>>
    decreases args.len() - i,
{
    if i < 0 || i >= args.len() {
        Ok(f)
    } else if args[i] == "--list"@ {
        scan(args, i + 1, FlagsView { list: true, ..f })
    } else if takes_value(args[i]) {
        if i + 1 >= args.len() {
            Err(missing_value_message(args[i]))
        } else {
            scan(args, i + 2, with_flag(f, args[i], args[i + 1]))
        }
    } else {
        Err(unexpected_message(args[i]))
    }
}

/// Where the code of a new snippet comes from.
#[derive(Debug, Clone)]
pub enum Source {
    Stdin,
    Download(String),
}

/// What a command line asks to do.
#[derive(Debug, Clone)]
pub enum Command {
    /// Print how the command line is used.
    Usage,
    /// List all snippets.
    List,
    /// Remove the snippet `name`.
    Remove { name: String },
    /// Print the code of the snippet `name`.
    Read { name: String },
    /// Save a snippet `name` with the code from `source`, replacing one of
    /// that name.
    Create { name: String, lang: Option<String>, source: Source },
    /// The arguments ask for nothing that can be done; the text says why.
    Fail(String),
}

/// A command, mathematically.
pub enum CommandView {
    Usage,
    List,
    Remove { name: Seq<char> },
    Read { name: Seq<char> },
    Create { name: Seq<char>, lang: Option<Seq<char>>, download: Option<Seq<char>> },
    Fail(Seq<char>),
}

impl View for Command {
    type V = CommandView;

    open spec fn view(&self) -> CommandView {
        match self {
            Command::Usage => CommandView::Usage,
            Command::List => CommandView::List,
            Command::Remove { name } => CommandView::Remove { name: name@ },
            Command::Read { name } => CommandView::Read { name: name@ },
            Command::Create { name, lang, source } => CommandView::Create {
                name: name@,
                lang: opt_view(*lang),
                download: match source {
                    Source::Stdin => None,
                    Source::Download(u) => Some(u@),
                },
            },
            Command::Fail(m) => CommandView::Fail(m@),
        }
    }
}

pub open spec fn name_required_message() -> Seq<char> {
    "--name <NAME> is required"@
}

pub open spec fn empty_name_message() -> Seq<char> {
    "empty name after slug normalization"@
}

pub open spec fn invalid_backend_message(b: Seq<char>) -> Seq<char> {
    "invalid value '"@ + b + "' for '--backend': expected json or sqlite"@
}

/// What the flags ask to do: `--list`, else `--remove`, else `--read`, else
/// `--name`.
pub open spec fn command_of(f: FlagsView) -> CommandView {
    if f.list {
        CommandView::List
    } else if f.remove is Some {
        let name = kebab_slug(f.remove->0);
        if name.len() == 0 {
            CommandView::Fail(empty_name_message())
        } else {
            CommandView::Remove { name }
        }
    } else if f.read is Some {
        let name = kebab_slug(f.read->0);
        if name.len() == 0 {
            CommandView::Fail(empty_name_message())
        } else {
            CommandView::Read { name }
        }
    } else if f.name is Some {
        let name = kebab_slug(f.name->0);
        if name.len() == 0 {
            CommandView::Fail(empty_name_message())
        } else {
            CommandView::Create { name, lang: f.lang, download: f.download }
        }
    } else {
        CommandView::Fail(name_required_message())
    }
}

/// What the arguments (without the program name) ask to do.
pub open spec fn decide(args: Seq<Seq<char>>) -> CommandView {
    if args.len() == 0 {
        CommandView::Usage
    } else {
        decide_flags(args)
    }
}

/// What non-empty arguments ask to do.
pub open spec fn decide_flags(args: Seq<Seq<char>>) -> CommandView {
    match scan(args, 0, no_flags()) {
        Err(m) => CommandView::Fail(m),
        Ok(f) => match f.backend {
            Some(b) => if b == "json"@ || b == "sqlite"@ {
                command_of(f)
            } else {
                CommandView::Fail(invalid_backend_message(b))
            },
            None => command_of(f),
        },
    }
}

/// `--backend` chooses the storage only: with `json`, with `sqlite` or
/// without it, the arguments ask for what their other flags ask for; any
/// other backend is refused, naming it. Arguments that do not scan are
/// refused with the scan's message.
pub proof fn law_backend_only_chooses_storage(args: Seq<Seq<char>>)
    requires
        args.len() > 0,
    ensures
        match scan(args, 0, no_flags()) {
            Err(m) => decide(args) == CommandView::Fail(m),
            Ok(f) => {
                &&& (f.backend == Some("json"@) || f.backend == Some("sqlite"@)
                    || f.backend is None) ==> decide(args) == command_of(f)
                &&& (f.backend is Some && f.backend != Some("json"@) && f.backend != Some(
                    "sqlite"@,
                )) ==> decide(args) == CommandView::Fail(invalid_backend_message(f.backend->0))
            },
        },
{
}

/// The views of the arguments.
pub open spec fn arg_views(args: Seq<String>) -> Seq<Seq<char>> {
    args.map_values(|a: String| a@)
}

fn quoted_message(before: &str, a: &str, after: &str) -> (m: String)
    ensures
        m@ == before@ + a@ + after@,
{
    let mut m = String::from_str(before);
    m.append(a);
    m.append(after);
    m
}

/// The flags of the arguments, or the message of the first argument that is
/// no flag or lacks its value.
pub fn scan_flags(args: &Vec<String>) -> (r: Result<Flags, String>)
    ensures
        match r {
            Ok(f) => scan(arg_views(args@), 0, no_flags()) == Ok::<FlagsView, Seq<char>>(f@),
            Err(m) => scan(arg_views(args@), 0, no_flags()) == Err::<FlagsView, Seq<char>>(m@),
        },
{
    let ghost a = arg_views(args@);
    let mut f = Flags {
        list: false,
        backend: None,
        json_path: None,
        sqlite_path: None,
        name: None,
        lang: None,
        download: None,
        remove: None,
        read: None,
    };
    let n = args.len();
    let mut i: usize = 0;
    assert(f@ == no_flags());
    while i < n
        invariant
            n == args@.len(),
            a == arg_views(args@),
            i <= n,
            scan(a, 0, no_flags()) == scan(a, i as int, f@),
        decreases n - i,
    {
        let arg = args[i].as_str();
        proof {
            assert(a[i as int] == args@[i as int]@);
        }
        if same_text(arg, "--list") {
            f.list = true;
            i = i + 1;
        } else if same_text(arg, "--backend") || same_text(arg, "--json-path") || same_text(
            arg,
            "--sqlite-path",
        ) || same_text(arg, "--name") || same_text(arg, "--lang") || same_text(arg, "--download")
            || same_text(arg, "--remove") || same_text(arg, "--read") {
            if i + 1 >= n {
                return Err(quoted_message("a value is required for '", arg, "'"));
            }
            let v = args[i + 1].clone();
            proof {
                assert(a[i + 1] == args@[i + 1]@);
            }
            if same_text(arg, "--backend") {
                f.backend = Some(v);
            } else if same_text(arg, "--json-path") {
                f.json_path = Some(v);
            } else if same_text(arg, "--sqlite-path") {
                f.sqlite_path = Some(v);
            } else if same_text(arg, "--name") {
                f.name = Some(v);
            } else if same_text(arg, "--lang") {
                f.lang = Some(v);
            } else if same_text(arg, "--download") {
                f.download = Some(v);
            } else if same_text(arg, "--remove") {
                f.remove = Some(v);
            } else {
                f.read = Some(v);
            }
            i = i + 2;
        } else {
            return Err(quoted_message("unexpected argument '", arg, "'"));
        }
    }
    Ok(f)
}

/// What the flags ask to do (see `command_of`).
pub fn command_from_flags(f: &Flags) -> (c: Command)
    ensures
        c@ == command_of(f@),
{
    if f.list {
        return Command::List;
    }
    match &f.remove {
        Some(r) => {
            let name = to_kebab_slug(r.as_str());
            if name.as_str().unicode_len() == 0 {
                return Command::Fail(String::from_str("empty name after slug normalization"));
            }
            return Command::Remove { name };
        },
        None => {},
    }
    match &f.read {
        Some(r) => {
            let name = to_kebab_slug(r.as_str());
            if name.as_str().unicode_len() == 0 {
                return Command::Fail(String::from_str("empty name after slug normalization"));
            }
            return Command::Read { name };
        },
        None => {},
    }
    match &f.name {
        Some(n) => {
            let name = to_kebab_slug(n.as_str());
            if name.as_str().unicode_len() == 0 {
                return Command::Fail(String::from_str("empty name after slug normalization"));
            }
            let source = match &f.download {
                Some(u) => Source::Download(u.clone()),
                None => Source::Stdin,
            };
            Command::Create { name, lang: f.lang.clone(), source }
        },
        None => Command::Fail(String::from_str("--name <NAME> is required")),
    }
}

/// Decides what the arguments (without the program name) ask to do.
pub fn parse_command(args: &Vec<String>) -> (c: Command)
    ensures
        c@ == decide(arg_views(args@)),
{
    if args.len() == 0 {
        return Command::Usage;
    }
    match scan_flags(args) {
        Err(m) => Command::Fail(m),
        Ok(f) => {
            match &f.backend {
                Some(b) => {
                    if !same_text(b.as_str(), "json") && !same_text(b.as_str(), "sqlite") {
                        return Command::Fail(
                            quoted_message(
                                "invalid value '",
                                b.as_str(),
                                "' for '--backend': expected json or sqlite",
                            ),
                        );
                    }
                },
                None => {},
            }
            command_from_flags(&f)
        },
    }
}

/// What a save reports.
pub open spec fn saved_message(name: Seq<char>) -> Seq<char> {
    "Saved snippet '"@ + name + "'"@
}

/// What a removal reports, by whether the name was there.
pub open spec fn removed_message(name: Seq<char>, removed: bool) -> Seq<char> {
    if removed {
        "Removed '"@ + name + "'"@
    } else {
        "No snippet named '"@ + name + "'"@
    }
}

/// What a save without code reports.
pub open spec fn no_code_message() -> Seq<char> {
    "no data in STDIN; pass --download <URL> or pipe content"@
}

/// The report of a save.
pub fn saved_report(name: &str) -> (m: String)
    ensures
        m@ == saved_message(name@),
{
    quoted_message("Saved snippet '", name, "'")
}

/// The report of a removal, by whether the name was there.
pub fn removed_report(name: &str, removed: bool) -> (m: String)
    ensures
        m@ == removed_message(name@, removed),
{
    if removed {
        quoted_message("Removed '", name, "'")
    } else {
        quoted_message("No snippet named '", name, "'")
    }
}

/// The code to save: refused, with the hint, where it is nothing but white
/// space.
pub fn code_to_save(code: String) -> (r: Result<String, String>)
    ensures
        match r {
            Ok(c) => !blank(code@) && c == code,
            Err(m) => blank(code@) && m@ == no_code_message(),
        },
{
    if is_blank(code.as_str()) {
        Err(String::from_str("no data in STDIN; pass --download <URL> or pipe content"))
    } else {
        Ok(code)
    }
}

/// The decimal digits of `n`.
pub open spec fn decimal(n: nat) -> Seq<char>
    decreases n,
{
    if n < 10 {
        seq![digit_char(n)]
    } else {
        decimal(n / 10).push(digit_char(n % 10))
    }
}

/// The character of the digit `d`.
pub open spec fn digit_char(d: nat) -> char {
    (('0' as nat) + d) as char
}

/// The decimal digits of `n`, as text.
pub fn decimal_text(n: u16) -> (t: String)
    ensures
        t@ == decimal(n as nat),
    decreases n,
{
    let d = n % 10;
    let c: char = if d == 0 {
        '0'
    } else if d == 1 {
        '1'
    } else if d == 2 {
        '2'
    } else if d == 3 {
        '3'
    } else if d == 4 {
        '4'
    } else if d == 5 {
        '5'
    } else if d == 6 {
        '6'
    } else if d == 7 {
        '7'
    } else if d == 8 {
        '8'
    } else {
        '9'
    };
    let mut t = if n < 10 {
        String::new()
    } else {
        decimal_text(n / 10)
    };
    push_char(&mut t, c);
    t
}

/// What a download that did not answer 200 reports.
pub open spec fn http_failure_message(status: u16) -> Seq<char> {
    "HTTP "@ + decimal(status as nat)
}

/// The downloaded body is the code where the server answered 200; any
/// other status is refused with `HTTP <status>`.
pub fn downloaded_code(status: u16, body: String) -> (r: Result<String, String>)
    ensures
        match r {
            Ok(c) => status == 200 && c == body,
            Err(m) => status != 200 && m@ == http_failure_message(status),
        },
{
    if status == 200 {
        Ok(body)
    } else {
        let mut m = String::from_str("HTTP ");
        let d = decimal_text(status);
        m.append(d.as_str());
        Err(m)
    }
}

/// The path of the JSON file when `--json-path` is not given.
pub open spec fn default_json_path() -> Seq<char> {
    "snips/snippets.json"@
}

/// The path of the SQLite database when `--sqlite-path` is not given.
pub open spec fn default_sqlite_path() -> Seq<char> {
    "snips/snippets.sqlite"@
}

/// The storage the arguments ask for: `--backend json` the JSON file at
/// `--json-path`, `--backend sqlite` the database at `--sqlite-path`, each
/// at its default path where its path flag is missing; without `--backend`
/// the `SNIPPETS_APP_STORAGE` setting, which the caller hands over, decides
/// (see `pick_provider_from_env`).
pub fn choose_provider(f: &Flags, storage_var: Option<&str>) -> (r: Result<Provider, AppError>)
    ensures
        f@.backend == Some("json"@) ==> match r {
            Ok(Provider::Json(p)) => p@ == match f@.json_path {
                Some(p) => p,
                None => default_json_path(),
            },
            _ => false,
        },
        f@.backend == Some("sqlite"@) ==> match r {
            Ok(Provider::Sqlite(p)) => p@ == match f@.sqlite_path {
                Some(p) => p,
                None => default_sqlite_path(),
            },
            _ => false,
        },
        f@.backend != Some("json"@) && f@.backend != Some("sqlite"@) ==> provider_for_setting(
            match storage_var {
                Some(s) => Some(s@),
                None => None,
            },
            r,
        ),
{
    proof {
        reveal_strlit("json");
        reveal_strlit("sqlite");
        assert("json"@ != "sqlite"@) by {
            assert("json"@[0] != "sqlite"@[0]);
        }
    }
    let json = match &f.backend {
        Some(b) => same_text(b.as_str(), "json"),
        None => false,
    };
    let sqlite = match &f.backend {
        Some(b) => same_text(b.as_str(), "sqlite"),
        None => false,
    };
    if json {
        match &f.json_path {
            Some(p) => Ok(Provider::Json(p.clone())),
            None => Ok(Provider::Json(String::from_str("snips/snippets.json"))),
        }
    } else if sqlite {
        match &f.sqlite_path {
            Some(p) => Ok(Provider::Sqlite(p.clone())),
            None => Ok(Provider::Sqlite(String::from_str("snips/snippets.sqlite"))),
        }
    } else {
        pick_provider_from_env(storage_var)
    }
}

} // verus!
