//! Locate the command of a CLI provider.

use crate::config::ModelProvider;
use crate::paths::{join_path, under};
use crate::text::{joined, owned, trim, trimmed};
use vstd::prelude::*;

verus! {

/// A place where a command may be, and whether a file is there.
#[derive(Debug)]
pub struct PathCandidate {
    pub path: String,
    pub is_file: bool,
}

/// What the host found out about a configured command.
#[derive(Debug)]
pub struct CliProbe {
    /// The trimmed path names a file.
    pub is_file: bool,
    /// Number of components of the trimmed path.
    pub components: usize,
    /// Candidates for the command's name on the search path, in search order.
    pub search: Vec<PathCandidate>,
}

/// The command name that is looked up on the search path: the configured one if there is any,
/// the provider's otherwise.
pub open spec fn lookup_name(provider: ModelProvider, cli_path: Seq<char>) -> Seq<char> {
    if trim(cli_path).len() > 0 {
        trim(cli_path)
    } else {
        provider.command()
    }
}

/// The command name that is looked up on the search path.
pub fn cli_lookup_name(provider: ModelProvider, cli_path: &str) -> (r: String)
    ensures
        r@ == lookup_name(provider, cli_path@),
{
    let trimmed_path: String = trimmed(cli_path);
    if !trimmed_path.as_str().is_empty() {
        return trimmed_path;
    }
    owned(provider.default_bin())
}

/// Position of the first candidate that is a file, among the first `n`.
pub open spec fn first_file(search: Seq<PathCandidate>, n: int) -> Option<int>
    decreases n,
{
    if n <= 0 {
        None
    } else {
        match first_file(search, n - 1) {
            Some(i) => Some(i),
            None => if search[n - 1].is_file {
                Some(n - 1)
            } else {
                None
            },
        }
    }
}

/// The binary that is found on the search path.
pub open spec fn on_path(name: Seq<char>, search: Seq<PathCandidate>) -> Option<Seq<char>> {
    if name.len() == 0 {
        None
    } else {
        match first_file(search, search.len() as int) {
            Some(i) => Some(search[i].path@),
            None => None,
        }
    }
}

/// First candidate that is a file; nothing is found for an empty name.
pub fn find_on_path(name: &str, search: &Vec<PathCandidate>) -> (r: Option<String>)
    ensures
        match r {
            Some(p) => on_path(name@, search@) == Some(p@),
            None => on_path(name@, search@) is None,
        },
{
    if name.is_empty() {
        return None;
    }
    let mut i: usize = 0;
    while i < search.len()
        invariant
            i <= search@.len(),
            name@.len() > 0,
            first_file(search@, i as int) is None,
        decreases search@.len() - i,
    {
        if search[i].is_file {
            proof {
                lemma_first_file_extends(search@, i + 1);
            }
            return Some(search[i].path.clone());
        }
        i = i + 1;
    }
    None
}

proof fn lemma_first_file_extends(search: Seq<PathCandidate>, n: int)
    requires
        0 <= n <= search.len(),
    ensures
        first_file(search, n) is Some ==> first_file(search, search.len() as int) == first_file(
            search,
            n,
        ),
    decreases search.len() - n,
{
    if n < search.len() {
        lemma_first_file_extends(search, n + 1);
    }
}

/// The binary of a provider: a configured file, or a bare or default command on the search path.
pub open spec fn cli_binary(
    provider: ModelProvider,
    cli_path: Seq<char>,
    probe: CliProbe,
) -> Option<Seq<char>> {
    let configured = trim(cli_path);
    if !provider.cli() {
        None
    } else if configured.len() > 0 && probe.is_file {
        Some(configured)
    } else if configured.len() > 0 && probe.components != 1 {
        None
    } else {
        on_path(lookup_name(provider, cli_path), probe.search@)
    }
}

/// Locate `cli_path` or the provider default on the search path.
///
/// Bare command names resolve through the search path; missing paths stay `None`.
pub fn resolve_cli_binary(provider: ModelProvider, cli_path: &str, probe: &CliProbe) -> (r: Option<
    String,
>)
    ensures
        match r {
            Some(p) => cli_binary(provider, cli_path@, *probe) == Some(p@),
            None => cli_binary(provider, cli_path@, *probe) is None,
        },
{
    if !provider.is_cli() {
        return None;
    }
    let configured: String = trimmed(cli_path);
    if !configured.as_str().is_empty() {
        if probe.is_file {
            return Some(configured);
        }
        if probe.components == 1 {
            return find_on_path(configured.as_str(), &probe.search);
        }
        return None;
    }
    find_on_path(provider.default_bin(), &probe.search)
}

/// File names tried for a command in each directory.
pub open spec fn file_names(name: Seq<char>, append_ext: bool) -> Seq<Seq<char>> {
    if append_ext {
        seq![name, name + ".exe"@, name + ".cmd"@, name + ".bat"@]
    } else {
        seq![name]
    }
}

/// Executable extensions are tried on Windows for a name that has no extension.
pub fn appends_extension(windows: bool, extension: Option<&str>) -> (r: bool)
    ensures
        r == (windows && !(extension matches Some(e) && e@.len() > 0)),
{
    windows && match extension {
        Some(e) => e.is_empty(),
        None => true,
    }
}

/// `found` are the candidates in the first `n` directories: every file name in a directory before
/// the next directory.
pub open spec fn candidates_in(
    dirs: Seq<String>,
    names: Seq<Seq<char>>,
    n: int,
    found: Seq<String>,
) -> bool
    decreases n,
{
    if n <= 0 {
        found.len() == 0
    } else {
        let earlier = found.len() - names.len();
        &&& earlier >= 0
        &&& candidates_in(dirs, names, n - 1, found.take(earlier))
        &&& forall|k: int|
            0 <= k < names.len() ==> under(
                dirs[n - 1]@,
                #[trigger] names[k],
                found[earlier + k]@,
            )
    }
}

/// Places to look for a command, in search order.
pub fn path_candidates(dirs: &Vec<String>, name: &str, append_ext: bool) -> (r: Vec<String>)
    ensures
        candidates_in(dirs@, file_names(name@, append_ext), dirs@.len() as int, r@),
{
    let ghost names = file_names(name@, append_ext);
    let mut out: Vec<String> = Vec::new();
    let mut i: usize = 0;
    while i < dirs.len()
        invariant
            i <= dirs@.len(),
            names == file_names(name@, append_ext),
            candidates_in(dirs@, names, i as int, out@),
        decreases dirs@.len() - i,
    {
        let ghost before = out@;
        let dir: &str = dirs[i].as_str();
        out.push(join_path(dir, name));
        if append_ext {
            out.push(join_path(dir, joined(name, ".exe").as_str()));
            out.push(join_path(dir, joined(name, ".cmd").as_str()));
            out.push(join_path(dir, joined(name, ".bat").as_str()));
        }
        assert(out@.take(before.len() as int) =~= before);
        i = i + 1;
    }
    out
}

proof fn lemma_first_file(search: Seq<PathCandidate>, n: int)
    requires
        0 <= n <= search.len(),
    ensures
        match first_file(search, n) {
            Some(i) => 0 <= i < n && search[i].is_file && forall|j: int|
                0 <= j < i ==> !(#[trigger] search[j]).is_file,
            None => forall|j: int| 0 <= j < n ==> !(#[trigger] search[j]).is_file,
        },
    decreases n,
{
    if n > 0 {
        lemma_first_file(search, n - 1);
    }
}

/// The first place of the search that holds a file is the command; where none does, there is no
/// command.
pub proof fn law_first_file_is_the_command(
    name: Seq<char>,
    search: Seq<PathCandidate>,
    i: int,
)
    requires
        name.len() > 0,
    ensures
        0 <= i < search.len() && search[i].is_file && (forall|j: int|
            0 <= j < i ==> !(#[trigger] search[j]).is_file) ==> on_path(name, search) == Some(
            search[i].path@,
        ),
        (forall|j: int| 0 <= j < search.len() ==> !(#[trigger] search[j]).is_file) ==> on_path(
            name,
            search,
        ) is None,
        on_path(Seq::empty(), search) is None,
{
    lemma_first_file(search, search.len() as int);
    if 0 <= i < search.len() && search[i].is_file && (forall|j: int|
        0 <= j < i ==> !(#[trigger] search[j]).is_file) {
        let k = first_file(search, search.len() as int)->0;
        assert(search[k].is_file);
        assert(k == i);
    }
}

/// A configured file is the command itself; a configured path that is no file is not searched
/// for; a bare name, or the provider's own where none is configured, is searched for. A provider
/// without a command has none.
pub proof fn law_configured_command_is_used(
    provider: ModelProvider,
    cli_path: Seq<char>,
    probe: CliProbe,
)
    ensures
        provider == ModelProvider::OpenaiCompatible ==> cli_binary(
            provider,
            cli_path,
            probe,
        ) is None,
        provider != ModelProvider::OpenaiCompatible && trim(cli_path).len() > 0 && probe.is_file
            ==> cli_binary(provider, cli_path, probe) == Some(trim(cli_path)),
        provider != ModelProvider::OpenaiCompatible && trim(cli_path).len() > 0 && !probe.is_file
            && probe.components != 1 ==> cli_binary(provider, cli_path, probe) is None,
        provider != ModelProvider::OpenaiCompatible && trim(cli_path).len() > 0 && !probe.is_file
            && probe.components == 1 ==> cli_binary(provider, cli_path, probe) == on_path(
            trim(cli_path),
            probe.search@,
        ),
        provider != ModelProvider::OpenaiCompatible && trim(cli_path).len() == 0 ==> cli_binary(
            provider,
            cli_path,
            probe,
        ) == on_path(provider.command(), probe.search@),
        trim(cli_path).len() > 0 ==> lookup_name(provider, cli_path) == trim(cli_path),
        trim(cli_path).len() == 0 ==> lookup_name(provider, cli_path) == provider.command(),
{
}

/// Every file name is tried in every directory, one directory after the other.
pub proof fn law_every_directory_is_searched(
    dirs: Seq<String>,
    names: Seq<Seq<char>>,
    n: int,
    out: Seq<String>,
    d: int,
    k: int,
)
    requires
        candidates_in(dirs, names, n, out),
        0 <= d < n,
        0 <= k < names.len(),
    ensures
        out.len() == n * names.len(),
        0 <= d * names.len() + k < out.len(),
        under(dirs[d]@, names[k], out[d * names.len() + k]@),
    decreases n,
{
    let m = names.len() as int;
    lemma_candidates_len(dirs, names, n, out);
    let earlier = out.len() - m;
    assert(n * m == (n - 1) * m + m) by (nonlinear_arith);
    if d < n - 1 {
        law_every_directory_is_searched(dirs, names, n - 1, out.take(earlier), d, k);
        assert(out.take(earlier)[d * m + k] == out[d * m + k]);
    } else {
        assert(earlier == d * m);
        assert(under(dirs[n - 1]@, names[k], out[earlier + k]@));
        assert(0 <= d * m) by (nonlinear_arith)
            requires
                0 <= d,
                0 <= m,
        ;
    }
}

proof fn lemma_candidates_len(
    dirs: Seq<String>,
    names: Seq<Seq<char>>,
    n: int,
    out: Seq<String>,
)
    requires
        candidates_in(dirs, names, n, out),
        0 <= n,
    ensures
        out.len() == n * names.len(),
    decreases n,
{
    if n > 0 {
        let m = names.len() as int;
        lemma_candidates_len(dirs, names, n - 1, out.take(out.len() - m));
        assert(out.take(out.len() - m).len() == out.len() - m);
        assert(n * m == (n - 1) * m + m) by (nonlinear_arith);
    } else {
        assert(0 * names.len() == 0);
    }
}

/// Where extensions are tried, the bare name comes first and the extensions follow.
pub proof fn law_bare_name_comes_first(name: Seq<char>, append_ext: bool)
    ensures
        file_names(name, append_ext)[0] == name,
        !append_ext ==> file_names(name, append_ext).len() == 1,
        append_ext ==> file_names(name, append_ext) == seq![
            name,
            name + ".exe"@,
            name + ".cmd"@,
            name + ".bat"@,
        ],
{
}

} // verus!
