//! The command line of the linker.
use vstd::prelude::*;
use crate::guest::module::{module_text, ModuleParams, DEFAULT_POOL_COUNT};
use crate::link::error::{seen_bytes, LinkError};
use crate::link::merge::LinkOptions;
use crate::link::{link_with_params_and_options, linked_text};
use super::words::{begins_with, chars_of, first_place, is_text, numeral, parse_number, place_of, starts_with, text_of, NumberError};

verus! {

/// The options that take a value.
#[derive(Clone, Copy, Debug, PartialEq, Eq, Structural)]
pub enum Flag {
    Pools,
    InitialPages,
    MaxPages,
    User,
    Output,
    AliasMemory0,
    AliasMemory,
}

/// Why a command line is refused.
#[derive(Debug)]
pub enum UsageError {
    /// The value of an option is missing.
    MissingValue(Flag),
    /// The value of an option is not a number.
    NotANumber(Flag, NumberError),
    /// An alias has an empty name.
    EmptyName(Flag),
    /// An alias is not of the form `<idx>=<name>`.
    NotAPair(String),
    /// The index of an alias is not a number.
    NotAnIndex(String, NumberError),
    /// The word means nothing.
    Unknown(String),
    /// There is no user module.
    UserRequired,
    /// There is no output path.
    OutputRequired,
}

/// A usage error with its texts as sequences.
pub enum UsageErrorV {
    MissingValue(Flag),
    NotANumber(Flag, NumberError),
    EmptyName(Flag),
    NotAPair(Seq<char>),
    NotAnIndex(Seq<char>, NumberError),
    Unknown(Seq<char>),
    UserRequired,
    OutputRequired,
}

impl View for UsageError {
    type V = UsageErrorV;

    open spec fn view(&self) -> UsageErrorV {
        match self {
            UsageError::MissingValue(f) => UsageErrorV::MissingValue(*f),
            UsageError::NotANumber(f, e) => UsageErrorV::NotANumber(*f, *e),
            UsageError::EmptyName(f) => UsageErrorV::EmptyName(*f),
            UsageError::NotAPair(t) => UsageErrorV::NotAPair(t@),
            UsageError::NotAnIndex(t, e) => UsageErrorV::NotAnIndex(t@, *e),
            UsageError::Unknown(t) => UsageErrorV::Unknown(t@),
            UsageError::UserRequired => UsageErrorV::UserRequired,
            UsageError::OutputRequired => UsageErrorV::OutputRequired,
        }
    }
}

impl UsageErrorV {
    /// What the user is told.
    pub open spec fn text(self) -> Seq<char> {
        match self {
            UsageErrorV::MissingValue(Flag::Pools) => "--pools needs a value"@,
            UsageErrorV::MissingValue(Flag::InitialPages) => "--initial-pages needs a value"@,
            UsageErrorV::MissingValue(Flag::MaxPages) => "--max-pages needs a value"@,
            UsageErrorV::MissingValue(Flag::User) => "--user needs a value"@,
            UsageErrorV::MissingValue(Flag::Output) => "-o needs a value"@,
            UsageErrorV::MissingValue(Flag::AliasMemory0) => "--alias-memory0 needs a value"@,
            UsageErrorV::MissingValue(Flag::AliasMemory) => "--alias-memory needs <idx>=<name>"@,
            UsageErrorV::NotANumber(f, e) => Self::flag_text(f) + " value must be an integer: "@
                + e.text(),
            UsageErrorV::EmptyName(f) => if f == Flag::AliasMemory0 {
                "--alias-memory0 needs a non-empty name"@
            } else {
                "--alias-memory expects a non-empty name"@
            },
            UsageErrorV::NotAPair(t) => "--alias-memory expects <idx>=<name>, got `"@ + t + "`"@,
            UsageErrorV::NotAnIndex(t, e) => "--alias-memory index must be u32, got `"@ + t
                + "`: "@ + e.text(),
            UsageErrorV::Unknown(t) => "unknown arg: "@ + t,
            UsageErrorV::UserRequired => "--user is required"@,
            UsageErrorV::OutputRequired => "-o/--output is required"@,
        }
    }

    pub open spec fn flag_text(f: Flag) -> Seq<char> {
        match f {
            Flag::Pools => "--pools"@,
            Flag::InitialPages => "--initial-pages"@,
            Flag::MaxPages => "--max-pages"@,
            Flag::User => "--user"@,
            Flag::Output => "-o"@,
            Flag::AliasMemory0 => "--alias-memory0"@,
            Flag::AliasMemory => "--alias-memory"@,
        }
    }
}

impl Flag {
    fn name(self) -> (r: &'static str)
        ensures
            r@ == UsageErrorV::flag_text(self),
    {
        match self {
            Flag::Pools => "--pools",
            Flag::InitialPages => "--initial-pages",
            Flag::MaxPages => "--max-pages",
            Flag::User => "--user",
            Flag::Output => "-o",
            Flag::AliasMemory0 => "--alias-memory0",
            Flag::AliasMemory => "--alias-memory",
        }
    }
}

impl UsageError {
    /// What the user is told.
    pub fn message(&self) -> (r: String)
        ensures
            r@ == self@.text(),
    {
        match self {
            UsageError::MissingValue(f) => match f {
                Flag::Pools => "--pools needs a value".to_owned(),
                Flag::InitialPages => "--initial-pages needs a value".to_owned(),
                Flag::MaxPages => "--max-pages needs a value".to_owned(),
                Flag::User => "--user needs a value".to_owned(),
                Flag::Output => "-o needs a value".to_owned(),
                Flag::AliasMemory0 => "--alias-memory0 needs a value".to_owned(),
                Flag::AliasMemory => "--alias-memory needs <idx>=<name>".to_owned(),
            },
            UsageError::NotANumber(f, e) => {
                let mut out = f.name().to_owned();
                out.append(" value must be an integer: ");
                out.append(e.message());
                out
            },
            UsageError::EmptyName(f) => if *f == Flag::AliasMemory0 {
                "--alias-memory0 needs a non-empty name".to_owned()
            } else {
                "--alias-memory expects a non-empty name".to_owned()
            },
            UsageError::NotAPair(t) => {
                let mut out = "--alias-memory expects <idx>=<name>, got `".to_owned();
                out.append(t.as_str());
                out.append("`");
                out
            },
            UsageError::NotAnIndex(t, e) => {
                let mut out = "--alias-memory index must be u32, got `".to_owned();
                out.append(t.as_str());
                out.append("`: ");
                out.append(e.message());
                out
            },
            UsageError::Unknown(t) => {
                let mut out = "unknown arg: ".to_owned();
                out.append(t.as_str());
                out
            },
            UsageError::UserRequired => "--user is required".to_owned(),
            UsageError::OutputRequired => "-o/--output is required".to_owned(),
        }
    }
}

/// What the words so far have settled.
pub struct Settings {
    pub pools: u32,
    pub initial_pages: u32,
    pub max_pages: u32,
    pub user: Option<String>,
    pub output: Option<String>,
    pub aliases: Vec<(String, u32)>,
}

/// The settings with their texts as sequences.
pub struct SettingsV {
    pub pools: nat,
    pub initial_pages: nat,
    pub max_pages: nat,
    pub user: Option<Seq<char>>,
    pub output: Option<Seq<char>>,
    pub aliases: Seq<(Seq<char>, nat)>,
}

pub open spec fn text_in(t: Option<String>) -> Option<Seq<char>> {
    match t {
        Some(s) => Some(s@),
        None => None,
    }
}

pub open spec fn alias_in(a: (String, u32)) -> (Seq<char>, nat) {
    (a.0@, a.1 as nat)
}

impl View for Settings {
    type V = SettingsV;

    open spec fn view(&self) -> SettingsV {
        SettingsV {
            pools: self.pools as nat,
            initial_pages: self.initial_pages as nat,
            max_pages: self.max_pages as nat,
            user: text_in(self.user),
            output: text_in(self.output),
            aliases: self.aliases@.map_values(|a: (String, u32)| alias_in(a)),
        }
    }
}

impl SettingsV {
    /// Before any word is read.
    pub open spec fn initial() -> Self {
        SettingsV {
            pools: DEFAULT_POOL_COUNT as nat,
            initial_pages: 1,
            max_pages: 65536,
            user: None,
            output: None,
            aliases: Seq::empty(),
        }
    }

    /// The settings with a number given to one of the counts.
    pub open spec fn with_count(self, f: Flag, v: nat) -> Self {
        match f {
            Flag::Pools => SettingsV { pools: v, ..self },
            Flag::InitialPages => SettingsV { initial_pages: v, ..self },
            _ => SettingsV { max_pages: v, ..self },
        }
    }

    pub open spec fn with_alias(self, name: Seq<char>, index: nat) -> Self {
        SettingsV { aliases: self.aliases.push((name, index)), ..self }
    }
}

/// What one step through the words comes to.
pub enum Step {
    /// Go on behind the words that were used.
    Next(SettingsV, int),
    /// The user asks for help.
    Help,
    Refused(UsageErrorV),
}

/// The option that a word names by itself, where it takes its value from the
/// next word.
pub open spec fn plain_flag(word: Seq<char>) -> Option<Flag> {
    if word == "--pools"@ {
        Some(Flag::Pools)
    } else if word == "--initial-pages"@ {
        Some(Flag::InitialPages)
    } else if word == "--max-pages"@ {
        Some(Flag::MaxPages)
    } else if word == "--user"@ {
        Some(Flag::User)
    } else if word == "-o"@ || word == "--output"@ {
        Some(Flag::Output)
    } else if word == "--alias-memory0"@ {
        Some(Flag::AliasMemory0)
    } else if word == "--alias-memory"@ {
        Some(Flag::AliasMemory)
    } else {
        None
    }
}

/// The settings after an option with its value, or why the value is refused.
pub open spec fn settled(s: SettingsV, f: Flag, value: Seq<char>) -> Result<SettingsV, UsageErrorV> {
    match f {
        Flag::User => Ok(SettingsV { user: Some(value), ..s }),
        Flag::Output => Ok(SettingsV { output: Some(value), ..s }),
        Flag::AliasMemory0 => if value.len() == 0 {
            Err(UsageErrorV::EmptyName(f))
        } else {
            Ok(s.with_alias(value, 0))
        },
        Flag::AliasMemory => {
            let at = first_place(value, '=') as int;
            let index = value.take(at);
            let name = value.skip(at + 1);
            if at >= value.len() {
                Err(UsageErrorV::NotAPair(value))
            } else {
                match numeral(index) {
                    Err(e) => Err(UsageErrorV::NotAnIndex(index, e)),
                    Ok(v) => if name.len() == 0 {
                        Err(UsageErrorV::EmptyName(f))
                    } else {
                        Ok(s.with_alias(name, v))
                    },
                }
            }
        },
        _ => match numeral(value) {
            Err(e) => Err(UsageErrorV::NotANumber(f, e)),
            Ok(v) => Ok(s.with_count(f, v)),
        },
    }
}

/// The step that the word at `i` asks for.
pub open spec fn step(s: SettingsV, words: Seq<Seq<char>>, i: int) -> Step {
    let word = words[i];
    match plain_flag(word) {
        Some(f) => if i + 1 >= words.len() {
            Step::Refused(UsageErrorV::MissingValue(f))
        } else {
            match settled(s, f, words[i + 1]) {
                Ok(t) => Step::Next(t, i + 2),
                Err(e) => Step::Refused(e),
            }
        },
        None => if begins_with(word, "--alias-memory0="@) {
            match settled(s, Flag::AliasMemory0, word.skip("--alias-memory0="@.len() as int)) {
                Ok(t) => Step::Next(t, i + 1),
                Err(e) => Step::Refused(e),
            }
        } else if begins_with(word, "--alias-memory="@) {
            match settled(s, Flag::AliasMemory, word.skip("--alias-memory="@.len() as int)) {
                Ok(t) => Step::Next(t, i + 1),
                Err(e) => Step::Refused(e),
            }
        } else if word == "-h"@ || word == "--help"@ {
            Step::Help
        } else {
            Step::Refused(UsageErrorV::Unknown(word))
        },
    }
}

/// What a whole command line asks for.
pub enum RequestV {
    Help,
    Link { settings: SettingsV, user: Seq<char>, output: Seq<char> },
}

/// What the words from `i` on come to, given what is settled before them.
pub open spec fn request_from(s: SettingsV, words: Seq<Seq<char>>, i: int) -> Result<
    RequestV,
    UsageErrorV,
>
    decreases words.len() - i,
{
    if i >= words.len() {
        if s.user is None {
            Err(UsageErrorV::UserRequired)
        } else if s.output is None {
            Err(UsageErrorV::OutputRequired)
        } else {
            Ok(RequestV::Link { settings: s, user: s.user->0, output: s.output->0 })
        }
    } else {
        match step(s, words, i) {
            Step::Next(t, j) => if j > i {
                request_from(t, words, j)
            } else {
                Err(UsageErrorV::UserRequired)
            },
            Step::Help => Ok(RequestV::Help),
            Step::Refused(e) => Err(e),
        }
    }
}

/// What a command line asks for.
pub open spec fn request(words: Seq<Seq<char>>) -> Result<RequestV, UsageErrorV> {
    request_from(SettingsV::initial(), words, 0)
}

/// The words of a command line as sequences.
pub open spec fn words_in(args: Seq<String>) -> Seq<Seq<char>> {
    args.map_values(|a: String| a@)
}

/// A link to be made.
pub struct LinkCommand {
    pub pools: u32,
    pub initial_pages: u32,
    pub max_pages: u32,
    pub user: String,
    pub output: String,
    pub options: LinkOptions,
}

/// What a command line asks for.
pub enum Request {
    Help,
    Link(LinkCommand),
}

impl Request {
    /// The request is what `v` says.
    pub open spec fn says(&self, v: RequestV) -> bool {
        match (self, v) {
            (Request::Help, RequestV::Help) => true,
            (Request::Link(c), RequestV::Link { settings, user, output }) => {
                &&& c.pools as nat == settings.pools
                &&& c.initial_pages as nat == settings.initial_pages
                &&& c.max_pages as nat == settings.max_pages
                &&& c.user@ == user
                &&& c.output@ == output
                &&& c.options.aliases@.map_values(|a: (String, u32)| alias_in(a)) == settings.aliases
            },
            _ => false,
        }
    }
}

/// A command line was read as `want` says.
pub open spec fn reads_as(r: Result<Request, UsageError>, want: Result<RequestV, UsageErrorV>) -> bool {
    match (r, want) {
        (Ok(q), Ok(v)) => q.says(v),
        (Err(e), Err(v)) => e@ == v,
        _ => false,
    }
}

impl Settings {
    fn new() -> (r: Self)
        ensures
            r@ == SettingsV::initial(),
    {
        let r = Settings {
            pools: DEFAULT_POOL_COUNT,
            initial_pages: 1,
            max_pages: 65536,
            user: None,
            output: None,
            aliases: Vec::new(),
        };
        assert(r@.aliases =~= Seq::empty());
        r
    }

    fn add_alias(&mut self, name: String, index: u32)
        ensures
            final(self)@ == old(self)@.with_alias(name@, index as nat),
    {
        let ghost before = self@;
        self.aliases.push((name, index));
        assert(self@.aliases =~= before.aliases.push((name@, index as nat)));
    }

    /// Takes the value of an option.
    fn settle(&mut self, f: Flag, value: &Vec<char>) -> (r: Result<(), UsageError>)
        ensures
            match r {
                Ok(_) => settled(old(self)@, f, value@) == Ok::<SettingsV, UsageErrorV>(final(self)@),
                Err(e) => settled(old(self)@, f, value@) == Err::<SettingsV, UsageErrorV>(e@),
            },
    {
        let n: usize = value.len();
        assert(value@.subrange(0, n as int) =~= value@);
        match f {
            Flag::User => {
                self.user = Some(text_of(value, 0, n));
                Ok(())
            },
            Flag::Output => {
                self.output = Some(text_of(value, 0, n));
                Ok(())
            },
            Flag::AliasMemory0 => {
                if n == 0 {
                    return Err(UsageError::EmptyName(f));
                }
                let name = text_of(value, 0, n);
                self.add_alias(name, 0);
                Ok(())
            },
            Flag::AliasMemory => {
                let at: usize = place_of(value, '=');
                if at >= n {
                    return Err(UsageError::NotAPair(text_of(value, 0, n)));
                }
                let index = text_of(value, 0, at);
                let name = text_of(value, at + 1, n);
                assert(index@ =~= value@.take(at as int));
                assert(name@ =~= value@.skip(at + 1));
                let digits = chars_of(index.as_str());
                match parse_number(&digits) {
                    Err(e) => Err(UsageError::NotAnIndex(index, e)),
                    Ok(v) => {
                        if at + 1 == n {
                            return Err(UsageError::EmptyName(f));
                        }
                        self.add_alias(name, v);
                        Ok(())
                    },
                }
            },
            _ => match parse_number(value) {
                Err(e) => Err(UsageError::NotANumber(f, e)),
                Ok(v) => {
                    match f {
                        Flag::Pools => {
                            self.pools = v;
                        },
                        Flag::InitialPages => {
                            self.initial_pages = v;
                        },
                        _ => {
                            self.max_pages = v;
                        },
                    }
                    Ok(())
                },
            },
        }
    }
}

fn flag_of(word: &Vec<char>) -> (r: Option<Flag>)
    ensures
        r == plain_flag(word@),
{
    if is_text(word, "--pools") {
        Some(Flag::Pools)
    } else if is_text(word, "--initial-pages") {
        Some(Flag::InitialPages)
    } else if is_text(word, "--max-pages") {
        Some(Flag::MaxPages)
    } else if is_text(word, "--user") {
        Some(Flag::User)
    } else if is_text(word, "-o") || is_text(word, "--output") {
        Some(Flag::Output)
    } else if is_text(word, "--alias-memory0") {
        Some(Flag::AliasMemory0)
    } else if is_text(word, "--alias-memory") {
        Some(Flag::AliasMemory)
    } else {
        None
    }
}

fn behind(word: &Vec<char>, prefix: &str) -> (r: Vec<char>)
    requires
        begins_with(word@, prefix@),
    ensures
        r@ == word@.skip(prefix@.len() as int),
{
    let from: usize = prefix.unicode_len();
    let rest = text_of(word, from, word.len());
    assert(rest@ =~= word@.skip(from as int));
    chars_of(rest.as_str())
}

/// Reads the words of a command line, without the name of the program.
pub fn parse_args(args: &Vec<String>) -> (r: Result<Request, UsageError>)
    ensures
        reads_as(r, request(words_in(args@))),
{
    let ghost words = words_in(args@);
    let count: usize = args.len();
    let mut s = Settings::new();
    let mut i: usize = 0;
    while i < count
        invariant
            i <= count,
            count == args@.len(),
            words == words_in(args@),
            request(words) == request_from(s@, words, i as int),
        decreases count - i,
    {
        let word = chars_of(args[i].as_str());
        assert(word@ == words[i as int]);
        match flag_of(&word) {
            Some(f) => {
                if i + 1 >= count {
                    return Err(UsageError::MissingValue(f));
                }
                let value = chars_of(args[i + 1].as_str());
                assert(value@ == words[i + 1]);
                match s.settle(f, &value) {
                    Err(e) => return Err(e),
                    Ok(_) => {},
                }
                i += 2;
            },
            None => {
                if starts_with(&word, "--alias-memory0=") {
                    let value = behind(&word, "--alias-memory0=");
                    match s.settle(Flag::AliasMemory0, &value) {
                        Err(e) => return Err(e),
                        Ok(_) => {},
                    }
                } else if starts_with(&word, "--alias-memory=") {
                    let value = behind(&word, "--alias-memory=");
                    match s.settle(Flag::AliasMemory, &value) {
                        Err(e) => return Err(e),
                        Ok(_) => {},
                    }
                } else if is_text(&word, "-h") || is_text(&word, "--help") {
                    return Ok(Request::Help);
                } else {
                    return Err(UsageError::Unknown(args[i].clone()));
                }
                i += 1;
            },
        }
    }
    let Settings { pools, initial_pages, max_pages, user, output, aliases } = s;
    match user {
        None => Err(UsageError::UserRequired),
        Some(user) => match output {
            None => Err(UsageError::OutputRequired),
            Some(output) => Ok(
                Request::Link(
                    LinkCommand {
                        pools,
                        initial_pages,
                        max_pages,
                        user,
                        output,
                        options: LinkOptions { aliases },
                    },
                ),
            ),
        },
    }
}

impl LinkCommand {
    /// `p` is the shell that the command asks for.
    pub open spec fn describes(&self, p: ModuleParams) -> bool {
        &&& p.n_pools == self.pools
        &&& p.initial_pages_per_pool == self.initial_pages
        &&& p.max_pages_per_pool == self.max_pages
        &&& p.user_body@ == Seq::<char>::empty()
    }

    /// The shell that the command asks for.
    pub fn params(&self) -> (r: ModuleParams)
        ensures
            self.describes(r),
    {
        ModuleParams {
            n_pools: self.pools,
            initial_pages_per_pool: self.initial_pages,
            max_pages_per_pool: self.max_pages,
            user_body: String::new(),
        }
    }

    /// Links the user module as the command says.
    pub fn execute(&self, user_bytes: &[u8]) -> (r: Result<Vec<u8>, LinkError>)
        requires
            self.pools > 0,
        ensures
            forall|p: ModuleParams| #[trigger]
                self.describes(p) ==> seen_bytes(r) == linked_text(
                    module_text(p),
                    user_bytes@,
                    self.options@,
                ),
    {
        let params = self.params();
        let r = link_with_params_and_options(&params, user_bytes, &self.options);
        assert forall|p: ModuleParams| #[trigger] self.describes(p) implies seen_bytes(r)
            == linked_text(module_text(p), user_bytes@, self.options@) by {
            assert(module_text(p) == module_text(params));
        }
        r
    }
}

} // verus!
