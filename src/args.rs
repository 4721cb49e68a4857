use vstd::prelude::*;
use vstd::string::StringExecFns;

verus! {

/// Which front end draws the game.
#[derive(Clone, Copy, Debug, PartialEq, Eq, Structural)]
pub enum AppMode {
    Gui,
    Tui,
    Cli,
}

/// Whether to play levels or to edit one.
#[derive(Clone, Copy, Debug, PartialEq, Eq, Structural)]
pub enum ProgramMode {
    Game,
    Editor,
}

/// The settings that the command line chooses.
#[derive(Debug, PartialEq, Eq)]
pub struct Config {
    pub pause: bool,
    pub size: u16,
    /// The delay between two ticks, in milliseconds.
    pub delay_ms: u64,
    pub app_mode: AppMode,
    pub program_mode: ProgramMode,
    pub level_paths: Vec<String>,
}

/// A configuration, as a mathematical value.
pub ghost struct ConfigModel {
    pub pause: bool,
    pub size: u16,
    pub delay_ms: u64,
    pub app_mode: AppMode,
    pub program_mode: ProgramMode,
    pub level_paths: Seq<Seq<char>>,
}

pub open spec fn strings_view(v: Seq<String>) -> Seq<Seq<char>> {
    v.map_values(|s: String| s@)
}

impl View for Config {
    type V = ConfigModel;

    open spec fn view(&self) -> ConfigModel {
        ConfigModel {
            pause: self.pause,
            size: self.size,
            delay_ms: self.delay_ms,
            app_mode: self.app_mode,
            program_mode: self.program_mode,
            level_paths: strings_view(self.level_paths@),
        }
    }
}

pub open spec fn default_config() -> ConfigModel {
    ConfigModel {
        pause: false,
        size: 30,
        delay_ms: 1000,
        app_mode: AppMode::Tui,
        program_mode: ProgramMode::Game,
        level_paths: Seq::empty(),
    }
}

impl Default for Config {
    fn default() -> (r: Config)
        ensures
            r@ == default_config(),
    {
        let r = Config {
            pause: false,
            size: 30,
            delay_ms: 1000,
            app_mode: AppMode::Tui,
            program_mode: ProgramMode::Game,
            level_paths: Vec::new(),
        };
        assert(strings_view(r.level_paths@) =~= Seq::<Seq<char>>::empty());
        r
    }
}

/// What `str::to_lowercase` makes of a text.
pub uninterp spec fn lowercase_of(s: Seq<char>) -> Seq<char>;

/// Relies on str::to_lowercase: the result depends on the characters alone.
#[verifier::external_body]
fn to_lowercase(s: &str) -> (r: String)
    ensures
        r@ == lowercase_of(s@),
{
    s.to_lowercase()
}

/// The display mode that a lower-case name stands for.
pub open spec fn app_mode_named(name: Seq<char>) -> Option<AppMode> {
    if name == "gui"@ {
        Some(AppMode::Gui)
    } else if name == "tui"@ {
        Some(AppMode::Tui)
    } else if name == "cli"@ {
        Some(AppMode::Cli)
    } else {
        None
    }
}

/// The program mode that a lower-case name stands for.
pub open spec fn program_mode_named(name: Seq<char>) -> Option<ProgramMode> {
    if name == "g"@ || name == "b"@ || name == "game"@ {
        Some(ProgramMode::Game)
    } else if name == "e"@ || name == "editor"@ {
        Some(ProgramMode::Editor)
    } else {
        None
    }
}

pub open spec fn bad_app_mode_message(s: Seq<char>) -> Seq<char> {
    "Can't parse `"@ + s + "` as a valid display mode!"@
}

pub open spec fn bad_program_mode_message(s: Seq<char>) -> Seq<char> {
    "Can't parse `"@ + s + "` as a valid program mode!"@
}

fn same(a: &String, lit: &str) -> (r: bool)
    ensures
        r == (a@ == lit@),
{
    let b = String::from_str(lit);
    *a == b
}

fn quoted(prefix: &str, s: &str, suffix: &str) -> (r: String)
    ensures
        r@ == prefix@ + s@ + suffix@,
{
    let mut r = String::from_str(prefix);
    r.append(s);
    r.append(suffix);
    r
}

impl AppMode {
    /// Reads a display mode from its name, whatever the case of its letters.
    pub fn from_str(s: &str) -> (r: Result<AppMode, String>)
        ensures
            r matches Ok(m) ==> app_mode_named(lowercase_of(s@)) == Some(m),
            r matches Err(e) ==> e@ == bad_app_mode_message(s@),
            r is Ok <==> app_mode_named(lowercase_of(s@)) is Some,
    {
        let lower = to_lowercase(s);
        Self::from_lowercase_name(&lower, s)
    }

    /// Reads a display mode from `lower`, the lower-case form of `name`.
    pub fn from_lowercase_name(lower: &String, name: &str) -> (r: Result<AppMode, String>)
        ensures
            r matches Ok(m) ==> app_mode_named(lower@) == Some(m),
            r matches Err(e) ==> e@ == bad_app_mode_message(name@),
            r is Ok <==> app_mode_named(lower@) is Some,
    {
        if same(lower, "gui") {
            Ok(AppMode::Gui)
        } else if same(lower, "tui") {
            Ok(AppMode::Tui)
        } else if same(lower, "cli") {
            Ok(AppMode::Cli)
        } else {
            Err(quoted("Can't parse `", name, "` as a valid display mode!"))
        }
    }
}

impl ProgramMode {
    /// Reads a program mode from its name, whatever the case of its letters.
    pub fn from_str(s: &str) -> (r: Result<ProgramMode, String>)
        ensures
            r matches Ok(m) ==> program_mode_named(lowercase_of(s@)) == Some(m),
            r matches Err(e) ==> e@ == bad_program_mode_message(s@),
            r is Ok <==> program_mode_named(lowercase_of(s@)) is Some,
    {
        let lower = to_lowercase(s);
        Self::from_lowercase_name(&lower, s)
    }

    /// Reads a program mode from `lower`, the lower-case form of `name`.
    pub fn from_lowercase_name(lower: &String, name: &str) -> (r: Result<ProgramMode, String>)
        ensures
            r matches Ok(m) ==> program_mode_named(lower@) == Some(m),
            r matches Err(e) ==> e@ == bad_program_mode_message(name@),
            r is Ok <==> program_mode_named(lower@) is Some,
    {
        if same(lower, "g") || same(lower, "b") || same(lower, "game") {
            Ok(ProgramMode::Game)
        } else if same(lower, "e") || same(lower, "editor") {
            Ok(ProgramMode::Editor)
        } else {
            Err(quoted("Can't parse `", name, "` as a valid program mode!"))
        }
    }
}


pub open spec fn is_digit(c: char) -> bool {
    '0' <= c && c <= '9'
}

/// The number that a run of decimal digits writes.
pub open spec fn digits_value(d: Seq<char>) -> nat
    decreases d.len(),
{
    if d.len() == 0 {
        0
    } else {
        digits_value(d.drop_last()) * 10 + ((d.last() as u32) - ('0' as u32)) as nat
    }
}

/// The digits of a number text, after its optional `+` sign.
pub open spec fn unsigned_digits(s: Seq<char>) -> Seq<char> {
    if s.len() > 0 && s[0] == '+' {
        s.drop_first()
    } else {
        s
    }
}

/// An optional `+` sign followed by one or more decimal digits.
pub open spec fn is_decimal(s: Seq<char>) -> bool {
    let d = unsigned_digits(s);
    d.len() > 0 && forall|i: int| 0 <= i < d.len() ==> is_digit(#[trigger] d[i])
}

pub open spec fn decimal_value(s: Seq<char>) -> nat {
    digits_value(unsigned_digits(s))
}

/// The text of the error that reading a `u16` from `s` fails with.
pub uninterp spec fn u16_error_of(s: Seq<char>) -> Seq<char>;

/// The text of the error that reading a `u64` from `s` fails with.
pub uninterp spec fn u64_error_of(s: Seq<char>) -> Seq<char>;

/// Relies on `u16`'s `FromStr`: an optional `+` and decimal digits whose value
/// fits, and the text of its error, which depends on the input alone.
#[verifier::external_body]
fn parse_u16(s: &str) -> (r: Result<u16, String>)
    ensures
        r is Ok ==> r->Ok_0 == decimal_value(s@),
        r is Err ==> r->Err_0@ == u16_error_of(s@),
        is_decimal(s@) && decimal_value(s@) <= u16::MAX ==> r is Ok,
        r is Ok ==> is_decimal(s@) && decimal_value(s@) <= u16::MAX,
{
    match s.parse::<u16>() {
        Ok(v) => Ok(v),
        Err(e) => Err(e.to_string()),
    }
}

/// Relies on `u64`'s `FromStr`: an optional `+` and decimal digits whose value
/// fits, and the text of its error, which depends on the input alone.
#[verifier::external_body]
fn parse_u64(s: &str) -> (r: Result<u64, String>)
    ensures
        r is Ok ==> r->Ok_0 == decimal_value(s@),
        r is Err ==> r->Err_0@ == u64_error_of(s@),
        is_decimal(s@) && decimal_value(s@) <= u64::MAX ==> r is Ok,
        r is Ok ==> is_decimal(s@) && decimal_value(s@) <= u64::MAX,
{
    match s.parse::<u64>() {
        Ok(v) => Ok(v),
        Err(e) => Err(e.to_string()),
    }
}

pub open spec fn is_opt(a: Seq<char>, short: Seq<char>, long: Seq<char>) -> bool {
    a == short || a == long
}

/// The options that are followed by a value.
pub open spec fn takes_value(a: Seq<char>) -> bool {
    is_opt(a, "-s"@, "--size"@) || is_opt(a, "-d"@, "--delay"@) || is_opt(a, "-l"@, "--level"@)
        || is_opt(a, "-m"@, "--mode"@) || is_opt(a, "-r"@, "--run"@)
}

/// The configuration after option `a` with value `v`, or the error it gives.
pub open spec fn set_option(c: ConfigModel, a: Seq<char>, v: Seq<char>) -> Result<
    ConfigModel,
    Seq<char>,
> {
    if is_opt(a, "-s"@, "--size"@) {
        if is_decimal(v) && decimal_value(v) <= u16::MAX {
            Ok(ConfigModel { size: decimal_value(v) as u16, ..c })
        } else {
            Err(u16_error_of(v))
        }
    } else if is_opt(a, "-d"@, "--delay"@) {
        if is_decimal(v) && decimal_value(v) <= u64::MAX {
            Ok(ConfigModel { delay_ms: decimal_value(v) as u64, ..c })
        } else {
            Err(u64_error_of(v))
        }
    } else if is_opt(a, "-l"@, "--level"@) {
        Ok(ConfigModel { level_paths: c.level_paths.push(v), ..c })
    } else if is_opt(a, "-m"@, "--mode"@) {
        match app_mode_named(lowercase_of(v)) {
            Some(m) => Ok(ConfigModel { app_mode: m, ..c }),
            None => Err(bad_app_mode_message(v)),
        }
    } else {
        match program_mode_named(lowercase_of(v)) {
            Some(m) => Ok(ConfigModel { program_mode: m, ..c }),
            None => Err(bad_program_mode_message(v)),
        }
    }
}

/// Reads the command line left to right from configuration `c`: `Ok(None)`
/// where help is asked for, else the configuration, which must name a level,
/// or the first error.
pub open spec fn read_args(c: ConfigModel, args: Seq<Seq<char>>) -> Result<
    Option<ConfigModel>,
    Seq<char>,
>
    decreases args.len(),
{
    if args.len() == 0 {
        if c.level_paths.len() == 0 {
            Err("Provide at least one level path!"@)
        } else {
            Ok(Some(c))
        }
    } else {
        let a = args[0];
        let rest = args.drop_first();
        if is_opt(a, "-h"@, "--help"@) {
            Ok(None)
        } else if is_opt(a, "-p"@, "--pause"@) {
            read_args(ConfigModel { pause: true, ..c }, rest)
        } else if takes_value(a) {
            if rest.len() == 0 {
                Err("Missing value for `"@ + a + "`!"@)
            } else {
                match set_option(c, a, rest[0]) {
                    Ok(c2) => read_args(c2, rest.drop_first()),
                    Err(e) => Err(e),
                }
            }
        } else {
            Err("Unrecognized option `"@ + a + "`!"@)
        }
    }
}

pub open spec fn read_result(r: Result<Option<Config>, String>) -> Result<
    Option<ConfigModel>,
    Seq<char>,
> {
    match r {
        Ok(Some(c)) => Ok(Some(c@)),
        Ok(None) => Ok(None),
        Err(e) => Err(e@),
    }
}

impl Config {
    /// Reads the command line arguments (without the program name). `Ok(None)`
    /// means that help was asked for.
    pub fn new(args: &Vec<String>) -> (r: Result<Option<Config>, String>)
        ensures
            read_result(r) == read_args(default_config(), strings_view(args@)),
    {
        let ghost all = strings_view(args@);
        let mut config = Config::default();
        let mut i: usize = 0;
        assert(all.skip(0) =~= all);
        while i < args.len()
            invariant
                all == strings_view(args@),
                i <= args@.len(),
                read_args(config@, all.skip(i as int)) == read_args(default_config(), all),
            decreases args@.len() - i,
        {
            let ghost rest = all.skip(i as int);
            let a = &args[i];
            proof {
                assert(rest[0] == a@);
                assert(rest.drop_first() =~= all.skip(i + 1));
            }
            if same(a, "-h") || same(a, "--help") {
                return Ok(None);
            } else if same(a, "-p") || same(a, "--pause") {
                config.pause = true;
                i = i + 1;
            } else if same(a, "-s") || same(a, "--size") || same(a, "-d") || same(a, "--delay")
                || same(a, "-l") || same(a, "--level") || same(a, "-m") || same(a, "--mode")
                || same(a, "-r") || same(a, "--run") {
                if i + 1 >= args.len() {
                    return Err(quoted("Missing value for `", a.as_str(), "`!"));
                }
                let v = &args[i + 1];
                proof {
                    assert(rest.drop_first()[0] == v@);
                    assert(rest.drop_first().drop_first() =~= all.skip(i + 2));
                }
                if same(a, "-s") || same(a, "--size") {
                    match parse_u16(v.as_str()) {
                        Ok(n) => config.size = n,
                        Err(e) => return Err(e),
                    }
                } else if same(a, "-d") || same(a, "--delay") {
                    match parse_u64(v.as_str()) {
                        Ok(n) => config.delay_ms = n,
                        Err(e) => return Err(e),
                    }
                } else if same(a, "-l") || same(a, "--level") {
                    let ghost before = config@;
                    config.level_paths.push(v.clone());
                    proof {
                        assert(strings_view(config.level_paths@) =~= before.level_paths.push(v@));
                    }
                } else if same(a, "-m") || same(a, "--mode") {
                    match AppMode::from_str(v.as_str()) {
                        Ok(m) => config.app_mode = m,
                        Err(e) => return Err(e),
                    }
                } else {
                    match ProgramMode::from_str(v.as_str()) {
                        Ok(m) => config.program_mode = m,
                        Err(e) => return Err(e),
                    }
                }
                i = i + 2;
            } else {
                return Err(quoted("Unrecognized option `", a.as_str(), "`!"));
            }
        }
        proof {
            assert(all.skip(i as int) =~= Seq::<Seq<char>>::empty());
        }
        if config.level_paths.len() == 0 {
            Err(String::from_str("Provide at least one level path!"))
        } else {
            Ok(Some(config))
        }
    }
}

} // verus!
