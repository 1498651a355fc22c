//! The configuration: read from a file where there is one, else made from
//! environment variables.

use vstd::prelude::*;

verus! {

/// The configuration of the program.
#[derive(Debug)]
pub struct Config {
    pub github: GithubConfig,
    pub database: DatabaseConfig,
    pub repopath: String,
}

/// How GitHub is accessed.
#[derive(Debug)]
pub struct GithubConfig {
    pub tokens: Vec<String>,
}

/// How the database is reached.
#[derive(Debug)]
pub struct DatabaseConfig {
    pub url: String,
}

/// What a configuration is in specifications.
#[verifier::ext_equal]
pub struct ConfigView {
    pub tokens: Seq<Seq<char>>,
    pub database_url: Seq<char>,
    pub repopath: Seq<char>,
}

impl View for Config {
    type V = ConfigView;

    open spec fn view(&self) -> ConfigView {
        ConfigView {
            tokens: crate::text::strings(self.github.tokens@),
            database_url: self.database.url@,
            repopath: self.repopath@,
        }
    }
}

impl Clone for GithubConfig {
    fn clone(&self) -> (r: Self)
        ensures
            crate::text::strings(r.tokens@) == crate::text::strings(self.tokens@),
    {
        let tokens = self.tokens.clone();
        assert(crate::text::strings(tokens@) =~= crate::text::strings(self.tokens@));
        GithubConfig { tokens }
    }
}

impl Clone for DatabaseConfig {
    fn clone(&self) -> (r: Self)
        ensures
            r.url@ == self.url@,
    {
        DatabaseConfig { url: self.url.clone() }
    }
}

impl Clone for Config {
    fn clone(&self) -> (r: Self)
        ensures
            r@ == self@,
    {
        Config {
            github: self.github.clone(),
            database: self.database.clone(),
            repopath: self.repopath.clone(),
        }
    }
}

/// What a configuration that may be missing is in specifications.
pub open spec fn config_view(config: Option<Config>) -> Option<ConfigView> {
    match config {
        None => None,
        Some(config) => Some(config@),
    }
}

/// What was found at the path of the configuration file.
#[derive(Debug)]
pub enum ConfigFile {
    /// There is nothing.
    Missing,
    /// It could not be read.
    Unreadable,
    /// What it holds is no configuration.
    Malformed,
    /// The configuration that it holds.
    Parsed(Config),
}

/// The value of the variable `name`: that of its first entry in `vars`.
pub open spec fn variable(vars: Seq<(String, String)>, name: Seq<char>) -> Option<Seq<char>>
    decreases vars.len(),
{
    if vars.len() == 0 {
        None
    } else if vars[0].0@ == name {
        Some(vars[0].1@)
    } else {
        variable(vars.drop_first(), name)
    }
}

/// The value of the variable `name`.
pub fn find_variable(vars: &Vec<(String, String)>, name: &str) -> (r: Option<String>)
    ensures
        crate::text::optional_text(r) == variable(vars@, name@),
{
    let wanted = name.to_owned();
    let mut i: usize = 0;
    assert(vars@.skip(0) =~= vars@);
    while i < vars.len()
        invariant
            i <= vars.len(),
            wanted@ == name@,
            variable(vars@, name@) == variable(vars@.skip(i as int), name@),
        decreases vars.len() - i,
    {
        if vars[i].0 == wanted {
            return Some(vars[i].1.clone());
        }
        assert(vars@.skip(i as int).drop_first() =~= vars@.skip(i + 1));
        i += 1;
    }
    None
}

/// The path of the configuration file.
pub open spec fn path_in(vars: Seq<(String, String)>) -> Seq<char> {
    match variable(vars, "CONFIG_PATH"@) {
        Some(path) => path,
        None => "config.json"@,
    }
}

/// The path of the configuration file: the value of `CONFIG_PATH`, else
/// `config.json`.
pub fn config_path(vars: &Vec<(String, String)>) -> (r: String)
    ensures
        r@ == path_in(vars@),
{
    match find_variable(vars, "CONFIG_PATH") {
        Some(path) => path,
        None => "config.json".to_owned(),
    }
}

/// The variables that may hold a token, in the order in which they are read.
pub open spec fn token_variables() -> Seq<Seq<char>> {
    seq![
        "GITHUB_TOKEN"@,
        "GITHUB_TOKEN_1"@,
        "GITHUB_TOKEN_2"@,
        "GITHUB_TOKEN_3"@,
        "GITHUB_TOKEN_4"@,
        "GITHUB_TOKEN_5"@,
        "GITHUB_TOKEN_6"@,
        "GITHUB_TOKEN_7"@,
        "GITHUB_TOKEN_8"@,
        "GITHUB_TOKEN_9"@,
    ]
}

/// The tokens that the variables `names` hold: the values that are set and not
/// empty, in the order of the names.
pub open spec fn tokens_named(vars: Seq<(String, String)>, names: Seq<Seq<char>>) -> Seq<Seq<char>>
    decreases names.len(),
{
    if names.len() == 0 {
        Seq::empty()
    } else {
        let earlier = tokens_named(vars, names.drop_last());
        match variable(vars, names.last()) {
            Some(token) => if token.len() > 0 {
                earlier.push(token)
            } else {
                earlier
            },
            None => earlier,
        }
    }
}

/// Whether the variables hold the address of a database.
pub open spec fn has_database_url(vars: Seq<(String, String)>) -> bool {
    variable(vars, "DATABASE_URL"@) matches Some(url) && url.len() > 0
}

/// The configuration in force, if there is one.
pub open spec fn loaded(vars: Seq<(String, String)>, file: ConfigFile) -> Option<ConfigView> {
    match file {
        ConfigFile::Missing => Some(
            ConfigView {
                tokens: tokens_named(vars, token_variables()),
                database_url: variable(vars, "DATABASE_URL"@)->0,
                repopath: Seq::empty(),
            },
        ),
        ConfigFile::Unreadable => None,
        ConfigFile::Malformed => None,
        ConfigFile::Parsed(config) => Some(
            ConfigView {
                tokens: if config@.tokens.len() == 0 {
                    tokens_named(vars, token_variables().take(1))
                } else {
                    config@.tokens
                },
                ..config@
            },
        ),
    }
}

/// Appends to `tokens` the token that the variable `name` holds, if it holds one.
fn push_token(tokens: Vec<String>, vars: &Vec<(String, String)>, name: &str) -> (r: Vec<String>)
    ensures
        forall|names: Seq<Seq<char>>|
            crate::text::strings(tokens@) == #[trigger] tokens_named(vars@, names)
                ==> crate::text::strings(r@) == tokens_named(vars@, names.push(name@)),
{
    let mut r = tokens;
    let ghost before = crate::text::strings(tokens@);
    if let Some(token) = find_variable(vars, name) {
        if !token.as_str().is_empty() {
            r.push(token);
            assert(crate::text::strings(r@) =~= before.push(token@));
        }
    }
    assert forall|names: Seq<Seq<char>>| before == #[trigger] tokens_named(vars@, names) implies
        crate::text::strings(r@) == tokens_named(vars@, names.push(name@)) by {
        assert(names.push(name@).drop_last() =~= names);
    }
    r
}

/// The token that `GITHUB_TOKEN` holds, if it holds one.
fn first_token(vars: &Vec<(String, String)>) -> (r: Vec<String>)
    ensures
        crate::text::strings(r@) == tokens_named(vars@, token_variables().take(1)),
{
    let none: Vec<String> = Vec::new();
    assert(crate::text::strings(none@) =~= tokens_named(vars@, Seq::empty()));
    assert(token_variables().take(1) =~= Seq::<Seq<char>>::empty().push("GITHUB_TOKEN"@));
    push_token(none, vars, "GITHUB_TOKEN")
}

/// The tokens that the variables hold.
fn all_tokens(vars: &Vec<(String, String)>) -> (r: Vec<String>)
    ensures
        crate::text::strings(r@) == tokens_named(vars@, token_variables()),
{
    let names = [
        "GITHUB_TOKEN_1",
        "GITHUB_TOKEN_2",
        "GITHUB_TOKEN_3",
        "GITHUB_TOKEN_4",
        "GITHUB_TOKEN_5",
        "GITHUB_TOKEN_6",
        "GITHUB_TOKEN_7",
        "GITHUB_TOKEN_8",
        "GITHUB_TOKEN_9",
    ];
    let mut tokens = first_token(vars);
    for i in 0..9
        invariant
            names@.len() == 9,
            forall|j: int| 0 <= j < 9 ==> (#[trigger] names@[j])@ == token_variables()[j + 1],
            crate::text::strings(tokens@) == tokens_named(vars@, token_variables().take(i + 1)),
    {
        assert(token_variables().take(i + 2) =~= token_variables().take(i + 1).push(
            names@[i as int]@,
        ));
        tokens = push_token(tokens, vars, names[i]);
    }
    assert(token_variables().take(10) =~= token_variables());
    tokens
}

/// Works out the configuration from the environment variables and from what was
/// found at `config_path`, and keeps it in `store` where there is one.
pub fn load_config(
    store: &mut Option<Config>,
    vars: &Vec<(String, String)>,
    file: ConfigFile,
) -> (r: Option<Config>)
    requires
        file is Missing ==> has_database_url(vars@),
    ensures
        config_view(r) == loaded(vars@, file),
        match loaded(vars@, file) {
            Some(config) => config_view(*final(store)) == Some(config),
            None => *final(store) == *old(store),
        },
{
    let config = match file {
        ConfigFile::Missing => {
            let url = match find_variable(vars, "DATABASE_URL") {
                Some(url) => url,
                None => String::new(),
            };
            Config {
                github: GithubConfig { tokens: all_tokens(vars) },
                database: DatabaseConfig { url },
                repopath: String::new(),
            }
        },
        ConfigFile::Unreadable => return None,
        ConfigFile::Malformed => return None,
        ConfigFile::Parsed(config) => {
            let Config { github, database, repopath } = config;
            let tokens = if github.tokens.len() == 0 {
                first_token(vars)
            } else {
                github.tokens
            };
            Config { github: GithubConfig { tokens }, database, repopath }
        },
    };
    *store = Some(config.clone());
    Some(config)
}

/// No token taken from the variables is empty, and each is the value of one of
/// the variables named.
pub proof fn law_tokens_named(vars: Seq<(String, String)>, names: Seq<Seq<char>>)
    ensures
        tokens_named(vars, names).len() <= names.len(),
        forall|i: int|
            0 <= i < tokens_named(vars, names).len() ==> (#[trigger] tokens_named(
                vars,
                names,
            )[i]).len() > 0 && exists|j: int|
                0 <= j < names.len() && variable(vars, #[trigger] names[j]) == Some(
                    tokens_named(vars, names)[i],
                ),
    decreases names.len(),
{
    if names.len() > 0 {
        let init = names.drop_last();
        law_tokens_named(vars, init);
        let tokens = tokens_named(vars, names);
        let earlier = tokens_named(vars, init);
        assert forall|i: int| 0 <= i < tokens.len() implies (#[trigger] tokens[i]).len() > 0
            && exists|j: int|
            0 <= j < names.len() && variable(vars, #[trigger] names[j]) == Some(tokens[i]) by {
            if i < earlier.len() {
                assert(tokens[i] == earlier[i]);
                let j = choose|j: int|
                    0 <= j < init.len() && variable(vars, #[trigger] init[j]) == Some(earlier[i]);
                assert(names[j] == init[j]);
            } else {
                assert(names[names.len() - 1] == names.last());
            }
        }
    }
}

/// Tokens that the file holds are never replaced or added to.
pub proof fn law_file_tokens_win(vars: Seq<(String, String)>, config: Config)
    requires
        config@.tokens.len() > 0,
    ensures
        loaded(vars, ConfigFile::Parsed(config)) == Some(config@),
{
}

/// What a configuration is in specifications: all that it holds.
pub proof fn law_config_views(config: Config, maybe: Option<Config>)
    ensures
        config@.tokens.len() == config.github.tokens@.len(),
        forall|i: int|
            0 <= i < config.github.tokens@.len() ==> #[trigger] config@.tokens[i]
                == config.github.tokens@[i]@,
        config@.database_url == config.database.url@,
        config@.repopath == config.repopath@,
        config_view(maybe) is Some <==> maybe is Some,
        maybe is Some ==> config_view(maybe) == Some(maybe->0@),
{
}

/// The value of a variable is that of the first entry under its name; it has none
/// exactly where there is no such entry.
pub proof fn law_variable(vars: Seq<(String, String)>, name: Seq<char>)
    ensures
        variable(vars, name) is None <==> forall|i: int|
            0 <= i < vars.len() ==> (#[trigger] vars[i]).0@ != name,
        variable(vars, name) is Some ==> exists|i: int|
            0 <= i < vars.len() && (#[trigger] vars[i]).0@ == name && variable(vars, name) == Some(
                vars[i].1@,
            ) && forall|j: int| 0 <= j < i ==> (#[trigger] vars[j]).0@ != name,
    decreases vars.len(),
{
    if vars.len() > 0 {
        let rest = vars.drop_first();
        law_variable(rest, name);
        if vars[0].0@ != name {
            assert forall|i: int| 1 <= i < vars.len() implies #[trigger] vars[i] == rest[i - 1] by {}
            if variable(vars, name) is None {
                assert forall|i: int| 0 <= i < vars.len() implies (#[trigger] vars[i]).0@
                    != name by {
                    if i > 0 {
                        assert(rest[i - 1].0@ != name);
                    }
                }
            } else {
                let k = choose|k: int|
                    0 <= k < rest.len() && (#[trigger] rest[k]).0@ == name && variable(rest, name)
                        == Some(rest[k].1@) && forall|j: int|
                        0 <= j < k ==> (#[trigger] rest[j]).0@ != name;
                assert(vars[k + 1].0@ == name);
                assert forall|j: int| 0 <= j < k + 1 implies (#[trigger] vars[j]).0@ != name by {
                    if j > 0 {
                        assert(rest[j - 1].0@ != name);
                    }
                }
            }
        } else {
            assert(vars[0].0@ == name);
        }
    }
}

/// The configuration file is where `CONFIG_PATH` says, even where that is empty, and
/// at `config.json` where it says nothing.
pub proof fn law_config_path(vars: Seq<(String, String)>)
    ensures
        variable(vars, "CONFIG_PATH"@) is Some ==> path_in(vars) == variable(
            vars,
            "CONFIG_PATH"@,
        )->0,
        variable(vars, "CONFIG_PATH"@) is None ==> path_in(vars) == "config.json"@,
{
}

/// There are ten variables for tokens: the plain name, and that name with an
/// underscore and each of the digits from 1 to 9, in this order.
pub proof fn law_token_variables()
    ensures
        token_variables().len() == 10,
        token_variables()[0] == "GITHUB_TOKEN"@,
        forall|i: int|
            1 <= i < 10 ==> #[trigger] token_variables()[i] == "GITHUB_TOKEN_"@.push(
                (0x30 + i) as char,
            ),
{
    reveal_strlit("GITHUB_TOKEN_");
    reveal_strlit("GITHUB_TOKEN_1");
    reveal_strlit("GITHUB_TOKEN_2");
    reveal_strlit("GITHUB_TOKEN_3");
    reveal_strlit("GITHUB_TOKEN_4");
    reveal_strlit("GITHUB_TOKEN_5");
    reveal_strlit("GITHUB_TOKEN_6");
    reveal_strlit("GITHUB_TOKEN_7");
    reveal_strlit("GITHUB_TOKEN_8");
    reveal_strlit("GITHUB_TOKEN_9");
    let stem = "GITHUB_TOKEN_"@;
    assert("GITHUB_TOKEN_1"@ =~= stem.push('1'));
    assert("GITHUB_TOKEN_2"@ =~= stem.push('2'));
    assert("GITHUB_TOKEN_3"@ =~= stem.push('3'));
    assert("GITHUB_TOKEN_4"@ =~= stem.push('4'));
    assert("GITHUB_TOKEN_5"@ =~= stem.push('5'));
    assert("GITHUB_TOKEN_6"@ =~= stem.push('6'));
    assert("GITHUB_TOKEN_7"@ =~= stem.push('7'));
    assert("GITHUB_TOKEN_8"@ =~= stem.push('8'));
    assert("GITHUB_TOKEN_9"@ =~= stem.push('9'));
}

/// The tokens of two lists of variables in a row are those of the one, then those of
/// the other; a single variable gives its value where that is set and not empty, and
/// nothing in every other case.
pub proof fn law_tokens_in_parts(
    vars: Seq<(String, String)>,
    names: Seq<Seq<char>>,
    more: Seq<Seq<char>>,
    name: Seq<char>,
)
    ensures
        tokens_named(vars, names + more) == tokens_named(vars, names) + tokens_named(vars, more),
        tokens_named(vars, seq![name]) == if variable(vars, name) is Some && variable(
            vars,
            name,
        )->0.len() > 0 {
            seq![variable(vars, name)->0]
        } else {
            Seq::empty()
        },
    decreases more.len(),
{
    assert(seq![name].drop_last() =~= Seq::<Seq<char>>::empty());
    assert(tokens_named(vars, Seq::<Seq<char>>::empty()) =~= Seq::empty());
    assert(tokens_named(vars, seq![name]) =~= if variable(vars, name) is Some && variable(
        vars,
        name,
    )->0.len() > 0 {
        seq![variable(vars, name)->0]
    } else {
        Seq::empty()
    });
    if more.len() == 0 {
        assert(names + more =~= names);
        assert(tokens_named(vars, names) + tokens_named(vars, more) =~= tokens_named(vars, names));
    } else {
        assert((names + more).drop_last() =~= names + more.drop_last());
        law_tokens_in_parts(vars, names, more.drop_last(), name);
        assert(tokens_named(vars, names + more) =~= tokens_named(vars, names) + tokens_named(
            vars,
            more,
        ));
    }
}

/// There is a configuration exactly where the file is missing or was parsed.
pub proof fn law_loaded(vars: Seq<(String, String)>, file: ConfigFile)
    ensures
        loaded(vars, file) is Some <==> file is Missing || file is Parsed,
{
}

/// Whatever tokens the file holds, none included, the database address and the
/// repository path in force are those of the file.
pub proof fn law_file_keeps_the_rest(vars: Seq<(String, String)>, config: Config)
    ensures
        loaded(vars, ConfigFile::Parsed(config)) is Some,
        loaded(vars, ConfigFile::Parsed(config))->0.database_url == config.database.url@,
        loaded(vars, ConfigFile::Parsed(config))->0.repopath == config.repopath@,
{
}

/// A file without tokens is completed by `GITHUB_TOKEN` alone: by its value where it
/// is set and not empty, and by nothing in every other case.
pub proof fn law_file_without_tokens(vars: Seq<(String, String)>, config: Config)
    requires
        config.github.tokens@.len() == 0,
    ensures
        loaded(vars, ConfigFile::Parsed(config))->0.tokens == if variable(
            vars,
            "GITHUB_TOKEN"@,
        ) is Some && variable(vars, "GITHUB_TOKEN"@)->0.len() > 0 {
            seq![variable(vars, "GITHUB_TOKEN"@)->0]
        } else {
            Seq::empty()
        },
{
    assert(token_variables().take(1) =~= seq!["GITHUB_TOKEN"@]);
    law_tokens_in_parts(vars, Seq::empty(), Seq::empty(), "GITHUB_TOKEN"@);
}

/// Without a file the database address is that of `DATABASE_URL`, there is no
/// repository path, and the tokens are those of all the variables for tokens.
pub proof fn law_missing_file(vars: Seq<(String, String)>)
    requires
        has_database_url(vars),
    ensures
        loaded(vars, ConfigFile::Missing) is Some,
        variable(vars, "DATABASE_URL"@) == Some(loaded(vars, ConfigFile::Missing)->0.database_url),
        loaded(vars, ConfigFile::Missing)->0.database_url.len() > 0,
        loaded(vars, ConfigFile::Missing)->0.repopath.len() == 0,
        loaded(vars, ConfigFile::Missing)->0.tokens == tokens_named(vars, token_variables()),
{
}

/// A token that is set in any of the ten variables is in force where the file is
/// missing.
pub proof fn law_no_token_is_lost(vars: Seq<(String, String)>, i: int)
    requires
        0 <= i < 10,
        variable(vars, token_variables()[i]) is Some,
        variable(vars, token_variables()[i])->0.len() > 0,
    ensures
        loaded(vars, ConfigFile::Missing)->0.tokens.contains(
            variable(vars, token_variables()[i])->0,
        ),
{
    let names = token_variables();
    let token = variable(vars, names[i])->0;
    let head = tokens_named(vars, names.take(i));
    let tail = tokens_named(vars, names.skip(i + 1));
    law_tokens_in_parts(vars, names.take(i), seq![names[i]], names[i]);
    law_tokens_in_parts(vars, names.take(i) + seq![names[i]], names.skip(i + 1), names[i]);
    assert(names.take(i) + seq![names[i]] + names.skip(i + 1) =~= names);
    assert((head + seq![token] + tail)[head.len() as int] == token);
}

/// The variables hold the address of a database exactly where `DATABASE_URL` is set
/// and not empty.
pub proof fn law_has_database_url(vars: Seq<(String, String)>)
    ensures
        has_database_url(vars) <==> variable(vars, "DATABASE_URL"@) is Some && variable(
            vars,
            "DATABASE_URL"@,
        )->0.len() > 0,
{
}

} // verus!
