//! The disk cache of models: where it lies, and how its files are named.

use crate::config::{JoinedPath, ModelBackend};
use crate::paths::{key_of_path, path_hash_input, path_key};
use crate::revision::{texts, GitRevision, RevisionView};
use crate::text::{
    hex16, hex_number_of, hex_text, law_hex_digits_tell_their_number, law_hex_text_injective,
};
use std::collections::hash_map::DefaultHasher;
use vstd::prelude::*;
use vstd::std_specs::hash::DefaultHasherAdditionalSpecFns;

verus! {

/// The kinds of systems that differ in where caches lie.
#[derive(Clone, Copy, Debug, Eq, PartialEq, Structural)]
pub enum Platform {
    Linux,
    MacOs,
    Windows,
    Other,
}

/// The directories that the environment names.
pub struct EnvironmentDirectories<P> {
    /// `XDG_CACHE_HOME`
    pub xdg_cache_home: Option<P>,
    /// `HOME`
    pub home: Option<P>,
    /// `LOCALAPPDATA`
    pub local_app_data: Option<P>,
}

/// The directory, as one of the environment and the names that lead on from it, that holds the
/// caches of a user; none if the environment does not tell.
pub open spec fn cache_dir<P>(platform: Platform, environment: EnvironmentDirectories<P>) -> Option<
    (P, Seq<Seq<char>>),
> {
    match platform {
        Platform::Linux => match (environment.xdg_cache_home, environment.home) {
            (Some(directory), _) => Some((directory, Seq::empty())),
            (None, Some(home)) => Some((home, seq![".cache"@])),
            (None, None) => None,
        },
        Platform::MacOs => match environment.home {
            Some(home) => Some((home, seq!["Library"@, "Caches"@])),
            None => None,
        },
        Platform::Windows => match environment.local_app_data {
            Some(directory) => Some((directory, Seq::empty())),
            None => None,
        },
        Platform::Other => None,
    }
}

/// The directory that holds the caches of a user.
pub fn get_cache_dir<P>(platform: Platform, environment: EnvironmentDirectories<P>) -> (directory:
    Option<JoinedPath<P>>)
    ensures
        match cache_dir(platform, environment) {
            Some((base, parts)) => directory matches Some(path) && path.base == base && texts(
                path.parts@,
            ) == parts,
            None => directory is None,
        },
{
    let mut parts: Vec<String> = Vec::new();
    proof {
        assert(texts(parts@) =~= Seq::<Seq<char>>::empty());
    }
    match platform {
        Platform::Linux => match environment.xdg_cache_home {
            Some(directory) => Some(JoinedPath { base: directory, parts }),
            None => match environment.home {
                Some(home) => {
                    parts.push(".cache".to_owned());
                    proof {
                        assert(texts(parts@) =~= seq![".cache"@]);
                    }
                    Some(JoinedPath { base: home, parts })
                },
                None => None,
            },
        },
        Platform::MacOs => match environment.home {
            Some(home) => {
                parts.push("Library".to_owned());
                parts.push("Caches".to_owned());
                proof {
                    assert(texts(parts@) =~= seq!["Library"@, "Caches"@]);
                }
                Some(JoinedPath { base: home, parts })
            },
            None => None,
        },
        Platform::Windows => match environment.local_app_data {
            Some(directory) => Some(JoinedPath { base: directory, parts }),
            None => None,
        },
        Platform::Other => None,
    }
}

/// What the name of a file in the cache starts with: nothing for OpenSCAD's own default.
pub open spec fn backend_prefix(backend: Option<ModelBackend>) -> Seq<char> {
    match backend {
        Some(backend) => backend.name() + "-"@,
        None => Seq::empty(),
    }
}

/// The names that lead from the directory of caches to the model of a commit:
/// `scadline/<repository>/<commit>/[<backend>-]<path>.stl`.
pub open spec fn cache_parts(
    repository_key: u64,
    commit_hash: Seq<char>,
    path_key: u64,
    backend: Option<ModelBackend>,
) -> Seq<Seq<char>> {
    seq![
        "scadline"@,
        hex_text(repository_key as nat, 16),
        commit_hash,
        backend_prefix(backend) + hex_text(path_key as nat, 16) + ".stl"@,
    ]
}

/// The names that lead from the directory of caches to the model of a revision.
pub open spec fn revision_cache_parts(
    revision: RevisionView,
    backend: Option<ModelBackend>,
) -> Seq<Seq<char>> {
    cache_parts(
        path_key(revision.root),
        revision.commit.hash,
        path_key(revision.relative_path),
        backend,
    )
}

/// The names that lead from the directory of caches to a model, given the numbers that stand for
/// the repository and for the path of the model file.
pub fn cache_path_of_keys(
    repository_key: u64,
    commit_hash: &str,
    path_key: u64,
    backend: Option<ModelBackend>,
) -> (parts: Vec<String>)
    ensures
        texts(parts@) == cache_parts(repository_key, commit_hash@, path_key, backend),
{
    let mut file = match backend {
        Some(backend) => backend.cache_key().to_owned().concat("-"),
        None => String::new(),
    };
    file.append(hex16(path_key).as_str());
    file.append(".stl");
    let mut parts: Vec<String> = Vec::new();
    parts.push("scadline".to_owned());
    parts.push(hex16(repository_key));
    parts.push(commit_hash.to_owned());
    parts.push(file);
    proof {
        assert(texts(parts@) =~= cache_parts(repository_key, commit_hash@, path_key, backend));
    }
    parts
}

/// The names that lead from the directory of caches to the model of a revision.
pub fn persistent_cache_path(revision: &GitRevision, backend: Option<ModelBackend>) -> (parts: Vec<
    String,
>)
    ensures
        texts(parts@) == revision_cache_parts(revision@, backend),
{
    cache_path_of_keys(
        key_of_path(&revision.root),
        revision.commit.hash.as_str(),
        key_of_path(&revision.relative_path),
        backend,
    )
}

/// Models of different commits, of files or repositories that different numbers stand for, or of
/// different backends lie in different files.
pub proof fn law_cache_paths_differ(
    a: (u64, Seq<char>, u64, Option<ModelBackend>),
    b: (u64, Seq<char>, u64, Option<ModelBackend>),
)
    requires
        cache_parts(a.0, a.1, a.2, a.3) == cache_parts(b.0, b.1, b.2, b.3),
    ensures
        a == b,
{
    let pa = cache_parts(a.0, a.1, a.2, a.3);
    let pb = cache_parts(b.0, b.1, b.2, b.3);
    assert(pa[1] == hex_text(a.0 as nat, 16) && pb[1] == hex_text(b.0 as nat, 16));
    assert(pa[2] == a.1 && pb[2] == b.1);
    assert(pa[3] == pb[3]);
    lemma_pow_16();
    law_hex_text_injective(a.0 as nat, b.0 as nat, 16);
    lemma_hex_text_len(a.2 as nat, 16);
    lemma_hex_text_len(b.2 as nat, 16);
    reveal_strlit("cgal");
    reveal_strlit("manifold");
    reveal_strlit("openrscad");
    reveal_strlit("-");
    reveal_strlit(".stl");
    assert(pa[3].len() == backend_prefix(a.3).len() + 20);
    assert(pb[3].len() == backend_prefix(b.3).len() + 20);
    assert(a.3 == b.3);
    let n = backend_prefix(a.3).len() as int;
    assert(pa[3].subrange(n, n + 16) =~= hex_text(a.2 as nat, 16));
    assert(pb[3].subrange(n, n + 16) =~= hex_text(b.2 as nat, 16));
    law_hex_text_injective(a.2 as nat, b.2 as nat, 16);
}

proof fn lemma_pow_16()
    ensures
        vstd::arithmetic::power::pow(16, 16) == 0x1_0000_0000_0000_0000,
{
    reveal_with_fuel(vstd::arithmetic::power::pow, 17);
}

proof fn lemma_hex_text_len(n: nat, width: nat)
    ensures
        hex_text(n, width).len() == width,
    decreases width,
{
    if width > 0 {
        lemma_hex_text_len(n / 16, (width - 1) as nat);
    }
}

/// The model of a commit lies in four steps below the directory of caches: `scadline`, sixteen
/// digits that tell the number of the repository, the hash of the commit, and a file whose name
/// tells the backend, if one is chosen, and the number of the path in sixteen digits.
pub proof fn law_names_tell_the_model(
    repository_key: u64,
    commit_hash: Seq<char>,
    path_key: u64,
    backend: Option<ModelBackend>,
)
    ensures
        ({
            let parts = cache_parts(repository_key, commit_hash, path_key, backend);
            let file = parts[3];
            let n = file.len() - 20;
            &&& parts.len() == 4
            &&& parts[0] == "scadline"@
            &&& parts[1].len() == 16
            &&& hex_number_of(parts[1]) == repository_key
            &&& parts[2] == commit_hash
            &&& n >= 0
            &&& hex_number_of(file.subrange(n, n + 16)) == path_key
            &&& file.skip(n + 16) == ".stl"@
            &&& match backend {
                None => n == 0,
                Some(ModelBackend::Cgal) => file.take(n) == "cgal-"@,
                Some(ModelBackend::Manifold) => file.take(n) == "manifold-"@,
                Some(ModelBackend::Openrscad) => file.take(n) == "openrscad-"@,
            }
        }),
{
    lemma_pow_16();
    law_hex_digits_tell_their_number(repository_key as nat, 16);
    law_hex_digits_tell_their_number(path_key as nat, 16);
    reveal_strlit("cgal");
    reveal_strlit("manifold");
    reveal_strlit("openrscad");
    reveal_strlit("cgal-");
    reveal_strlit("manifold-");
    reveal_strlit("openrscad-");
    reveal_strlit("-");
    reveal_strlit(".stl");
    let file = cache_parts(repository_key, commit_hash, path_key, backend)[3];
    let n = file.len() - 20;
    assert(n == backend_prefix(backend).len());
    assert(file.subrange(n, n + 16) =~= hex_text(path_key as nat, 16));
    assert(file.skip(n + 16) =~= ".stl"@);
    assert(file.take(n) =~= backend_prefix(backend));
    if backend == Some(ModelBackend::Cgal) {
        assert("cgal"@ + "-"@ =~= "cgal-"@);
    } else if backend == Some(ModelBackend::Manifold) {
        assert("manifold"@ + "-"@ =~= "manifold-"@);
    } else if backend == Some(ModelBackend::Openrscad) {
        assert("openrscad"@ + "-"@ =~= "openrscad-"@);
    }
}

/// The numbers in the names of the cache are those of the work tree of the repository and of the
/// path of the model file within it, as the hasher of the standard library gives them.
pub proof fn law_revision_is_found_by_its_paths(
    revision: RevisionView,
    backend: Option<ModelBackend>,
)
    ensures
        ({
            let parts = revision_cache_parts(revision, backend);
            let file = parts[3];
            let n = file.len() - 20;
            &&& parts.len() == 4
            &&& hex_number_of(parts[1]) == DefaultHasher::spec_finish(
                path_hash_input(revision.root),
            )
            &&& parts[2] == revision.commit.hash
            &&& n >= 0
            &&& hex_number_of(file.subrange(n, n + 16)) == DefaultHasher::spec_finish(
                path_hash_input(revision.relative_path),
            )
        }),
{
    law_names_tell_the_model(
        path_key(revision.root),
        revision.commit.hash,
        path_key(revision.relative_path),
        backend,
    );
}

/// Where caches lie: on Linux in `XDG_CACHE_HOME`, or else in `.cache` below the home directory; on
/// macOS in `Library/Caches` below the home directory; on Windows in `LOCALAPPDATA`; on other
/// systems, and where the environment does not tell, nowhere.
pub proof fn law_where_caches_lie<P>(environment: EnvironmentDirectories<P>)
    ensures
        environment.xdg_cache_home matches Some(directory) ==> cache_dir(
            Platform::Linux,
            environment,
        ) == Some((directory, Seq::<Seq<char>>::empty())),
        environment.xdg_cache_home is None ==> (environment.home matches Some(home) ==> cache_dir(
            Platform::Linux,
            environment,
        ) == Some((home, seq![".cache"@]))),
        environment.xdg_cache_home is None && environment.home is None ==> cache_dir(
            Platform::Linux,
            environment,
        ) is None,
        environment.home matches Some(home) ==> cache_dir(Platform::MacOs, environment) == Some(
            (home, seq!["Library"@, "Caches"@]),
        ),
        environment.home is None ==> cache_dir(Platform::MacOs, environment) is None,
        environment.local_app_data matches Some(directory) ==> cache_dir(
            Platform::Windows,
            environment,
        ) == Some((directory, Seq::<Seq<char>>::empty())),
        environment.local_app_data is None ==> cache_dir(Platform::Windows, environment) is None,
        cache_dir(Platform::Other, environment) is None,
{
}

} // verus!
