//! The command line and the decisions taken before any file or network access:
//! which configuration file to use, whether to load it, and where the tool
//! archive comes from.
use crate::score::CommitArgs;
use crate::tool_link::opt_view;
use vstd::prelude::*;

verus! {

/// The configuration file used when the command line names none.
pub const DEFAULT_CONFIG_FILE_NAME: &'static str = "ahc_tools.toml";

/// The project's settings.
#[derive(Clone, Debug, PartialEq, Eq)]
pub struct General {
    pub name: String,
    pub problem_url: String,
}

/// The persisted configuration document.
#[derive(Clone, Debug, PartialEq, Eq)]
pub struct Config {
    pub general: General,
}

/// Arguments of the `init` command.
#[derive(Clone, Debug, PartialEq, Eq)]
pub struct InitArgs {
    pub name: String,
    pub force: bool,
}

/// Arguments of the `download` command.
#[derive(Clone, Debug, PartialEq, Eq)]
pub struct DownloadArgs {
    pub output_path: Option<String>,
    pub url: Option<String>,
    pub zip_url: Option<String>,
}

/// The subcommands.
#[derive(Clone, Debug, PartialEq, Eq)]
pub enum Commands {
    Init(InitArgs),
    Download(DownloadArgs),
    Commit(CommitArgs),
}

/// The whole command line.
#[derive(Clone, Debug, PartialEq, Eq)]
pub struct Cli {
    pub command: Commands,
    pub config_file_name: Option<String>,
}

/// How to run a command line: the configuration file to use, and whether the
/// command needs it loaded first.
#[derive(Clone, Debug, PartialEq, Eq)]
pub struct Dispatch {
    pub config_file_name: String,
    pub load_config: bool,
}

/// Where the tool archive comes from.
#[derive(Clone, Debug, PartialEq, Eq)]
pub enum ZipSource {
    /// The archive's own address.
    Direct(String),
    /// A page that links to the archive.
    Page(String),
}

/// What the `download` command fetches and where it unpacks it.
#[derive(Clone, Debug, PartialEq, Eq)]
pub struct DownloadPlan {
    pub source: ZipSource,
    pub output_path: String,
}

pub open spec fn default_config_file_name() -> Seq<char> {
    seq!['a', 'h', 'c', '_', 't', 'o', 'o', 'l', 's', '.', 't', 'o', 'm', 'l']
}

/// The given text, or `default` when there is none.
pub open spec fn text_or(o: Option<String>, default: Seq<char>) -> Seq<char> {
    match o {
        Some(s) => s@,
        None => default,
    }
}

fn owned_or(o: &Option<String>, default: &str) -> (r: String)
    ensures
        r@ == text_or(*o, default@),
{
    match o {
        Some(s) => s.clone(),
        None => String::from_str(default),
    }
}

/// The configuration file of a command line (the one it names, else
/// `ahc_tools.toml`), and whether its command loads it: every command but
/// `init` does.
pub fn run_command(cli: &Cli) -> (r: Dispatch)
    ensures
        r.config_file_name@ == text_or(cli.config_file_name, default_config_file_name()),
        r.load_config == !(cli.command is Init),
{
    proof {
        reveal_strlit("ahc_tools.toml");
        assert(DEFAULT_CONFIG_FILE_NAME@ =~= default_config_file_name());
    }
    let config_file_name = owned_or(&cli.config_file_name, DEFAULT_CONFIG_FILE_NAME);
    let load_config = match cli.command {
        Commands::Init(_) => false,
        _ => true,
    };
    Dispatch { config_file_name, load_config }
}

/// The source of the tool archive: the archive address given on the command
/// line; else the page given there; else the configured problem page. The
/// archive is unpacked into the given directory, else into `.`.
pub fn download(args: &DownloadArgs, config: &Config) -> (r: DownloadPlan)
    ensures
        match args.zip_url {
            Some(z) => r.source is Direct && r.source->Direct_0@ == z@,
            None => r.source is Page && r.source->Page_0@ == text_or(
                args.url,
                config.general.problem_url@,
            ),
        },
        r.output_path@ == text_or(args.output_path, seq!['.']),
{
    let source = match &args.zip_url {
        Some(z) => ZipSource::Direct(z.clone()),
        None => ZipSource::Page(owned_or(&args.url, config.general.problem_url.as_str())),
    };
    proof {
        reveal_strlit(".");
    }
    let output_path = owned_or(&args.output_path, ".");
    DownloadPlan { source, output_path }
}

/// The address that url makes of `base` with `segments` appended to its path
/// and the pair `key=value` appended to its query, or `None` where `base` is
/// not an address that has a path.
pub uninterp spec fn url_with_path_and_query(
    base: Seq<char>,
    segments: Seq<Seq<char>>,
    key: Seq<char>,
    value: Seq<char>,
) -> Option<Seq<char>>;

/// A character that url writes as it is, both in a path segment and in a query
/// pair: an ASCII letter or digit, `_` or `-`.
pub open spec fn is_plain_char(c: char) -> bool {
    ('a' <= c && c <= 'z') || ('A' <= c && c <= 'Z') || ('0' <= c && c <= '9') || c == '_' || c
        == '-'
}

/// A non-empty text of plain characters.
pub open spec fn is_plain(s: Seq<char>) -> bool {
    s.len() > 0 && forall|i: int| 0 <= i < s.len() ==> is_plain_char(#[trigger] s[i])
}

/// Each segment preceded by a `/`.
pub open spec fn slash_joined(segments: Seq<Seq<char>>) -> Seq<char>
    decreases segments.len(),
{
    if segments.len() == 0 {
        Seq::empty()
    } else {
        slash_joined(segments.drop_last()) + seq!['/'] + segments.last()
    }
}

/// Relies on url: Url::parse reads `base`, PathSegmentsMut::extend appends the
/// segments (percent-encoding each), Serializer::append_pair appends the query
/// pair, and the conversion into `String` gives the serialization. The result
/// depends on the arguments alone. For the contests address, which parses and
/// has a path without a trailing `/` and no query, extend writes `/` and each
/// plain segment as it is, and append_pair writes `?key=value` with plain text
/// as it is.
#[verifier::external_body]
fn url_with_segments(
    base: &str,
    segments: &Vec<String>,
    key: &str,
    value: &str,
) -> (r: Option<String>)
    ensures
        opt_view(r) == url_with_path_and_query(base@, crate::select::views(segments@), key@, value@),
        base@ == contests_base() && (forall|i: int|
            0 <= i < segments@.len() ==> is_plain(#[trigger] segments@[i]@)) && is_plain(key@)
            && is_plain(value@) ==> opt_view(r) == Some(
            contests_base() + slash_joined(crate::select::views(segments@)) + seq!['?'] + key@
                + seq!['='] + value@,
        ),
{
    let mut url = match url::Url::parse(base) {
        Ok(u) => u,
        Err(_) => return None,
    };
    match url.path_segments_mut() {
        Ok(mut path) => {
            path.extend(segments.iter());
        },
        Err(_) => return None,
    }
    url.query_pairs_mut().append_pair(key, value);
    Some(url.into())
}

pub open spec fn contests_base() -> Seq<char> {
    seq![
        'h', 't', 't', 'p', 's', ':', '/', '/', 'a', 't', 'c', 'o', 'd', 'e', 'r', '.', 'j', 'p',
        '/', 'c', 'o', 'n', 't', 'e', 's', 't', 's',
    ]
}

/// The path segments of a contest's first problem: `<name>/tasks/<name>_a`.
pub open spec fn problem_segments(name: Seq<char>) -> Seq<Seq<char>> {
    seq![name, seq!['t', 'a', 's', 'k', 's'], name + seq!['_', 'a']]
}

/// The address of the first problem of the contest `name`, as url builds it.
pub open spec fn default_problem_url(name: Seq<char>) -> Option<Seq<char>> {
    url_with_path_and_query(
        contests_base(),
        problem_segments(name),
        seq!['l', 'a', 'n', 'g'],
        seq!['j', 'a'],
    )
}

/// `https://atcoder.jp/contests/<name>/tasks/<name>_a?lang=ja`, written out.
pub open spec fn problem_url_text(name: Seq<char>) -> Seq<char> {
    contests_base() + seq!['/'] + name + seq!['/', 't', 'a', 's', 'k', 's', '/'] + name + seq![
        '_',
        'a',
        '?',
        'l',
        'a',
        'n',
        'g',
        '=',
        'j',
        'a',
    ]
}

/// Why the problem address could not be built.
#[derive(Clone, Copy, Debug, PartialEq, Eq, Structural)]
pub struct UrlError;

/// The address of the first problem of the contest `name`:
/// `https://atcoder.jp/contests/<name>/tasks/<name>_a?lang=ja`, with the
/// segments percent-encoded as url does.
pub fn build_default_problem_url(name: &String) -> (r: Result<String, UrlError>)
    ensures
        default_problem_url(name@) is Some ==> r is Ok && r->Ok_0@ == default_problem_url(
            name@,
        )->Some_0,
        default_problem_url(name@) is None ==> r is Err,
        is_plain(name@) ==> r is Ok && r->Ok_0@ == problem_url_text(name@),
{
    let base = "https://atcoder.jp/contests";
    let tasks = "tasks";
    let key = "lang";
    let value = "ja";
    proof {
        reveal_strlit("https://atcoder.jp/contests");
        reveal_strlit("tasks");
        reveal_strlit("_a");
        reveal_strlit("lang");
        reveal_strlit("ja");
    }
    let mut segments: Vec<String> = Vec::new();
    segments.push(name.clone());
    segments.push(String::from_str(tasks));
    segments.push(name.clone().concat("_a"));
    proof {
        assert(base@ =~= contests_base());
        assert(key@ =~= seq!['l', 'a', 'n', 'g']);
        assert(value@ =~= seq!['j', 'a']);
        assert(segments@[1]@ =~= seq!['t', 'a', 's', 'k', 's']);
        assert(segments@[2]@ =~= name@ + seq!['_', 'a']);
        assert(crate::select::views(segments@) =~= problem_segments(name@));
        if is_plain(name@) {
            let segs = problem_segments(name@);
            assert(is_plain(segs[1]));
            assert(is_plain(segs[2])) by {
                assert forall|i: int| 0 <= i < segs[2].len() implies is_plain_char(
                    #[trigger] segs[2][i],
                ) by {
                    if i < name@.len() {
                        assert(segs[2][i] == name@[i]);
                    }
                }
            }
            assert(forall|i: int| 0 <= i < segments@.len() ==> #[trigger] segments@[i]@ == segs[i]);
            assert(is_plain(key@));
            assert(is_plain(value@));
            reveal_with_fuel(slash_joined, 4);
            assert(segs.drop_last().drop_last().drop_last() =~= Seq::<Seq<char>>::empty());
            assert(contests_base() + slash_joined(segs) + seq!['?'] + key@ + seq!['='] + value@
                =~= problem_url_text(name@));
        }
    }
    match url_with_segments(base, &segments, key, value) {
        Some(url) => Ok(url),
        None => Err(UrlError),
    }
}

/// Why `init` wrote no configuration.
#[derive(Clone, Copy, Debug, PartialEq, Eq, Structural)]
pub enum InitError {
    /// The configuration file exists and overwriting was not asked for.
    AlreadyExists,
    /// The problem address could not be built.
    Url,
}

/// The configuration that `init` writes for `args`, given whether the
/// configuration file already exists: refused when it exists and `force` is
/// not set; else the project's name with its default problem address.
pub fn init(args: &InitArgs, exists: bool) -> (r: Result<Config, InitError>)
    ensures
        exists && !args.force ==> r == Err::<Config, InitError>(InitError::AlreadyExists),
        !(exists && !args.force) ==> match default_problem_url(args.name@) {
            Some(u) => r is Ok && r->Ok_0.general.name@ == args.name@
                && r->Ok_0.general.problem_url@ == u,
            None => r == Err::<Config, InitError>(InitError::Url),
        },
        !(exists && !args.force) && is_plain(args.name@) ==> r is Ok
            && r->Ok_0.general.problem_url@ == problem_url_text(args.name@),
{
    if exists && !args.force {
        return Err(InitError::AlreadyExists);
    }
    match build_default_problem_url(&args.name) {
        Ok(problem_url) => Ok(Config { general: General { name: args.name.clone(), problem_url } }),
        Err(_) => Err(InitError::Url),
    }
}

} // verus!
