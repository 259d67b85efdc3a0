//! Settings: the configuration file, and the backend that makes the models.

use crate::revision::texts;
use crate::text::{ascii_lower, same_text, to_ascii_lowercase};
use vstd::prelude::*;

verus! {

/// The limit of the cache, in megabytes, where the configuration sets none.
pub const DEFAULT_CACHE_SIZE_MB: u64 = 256;

/// The configuration.
pub struct AppConfig {
    pub cache: CacheConfig,
    pub openscad: OpenScadConfig,
}

/// The configuration of the disk cache.
pub struct CacheConfig {
    pub max_size_mb: u64,
}

/// The configuration of the program that makes the models.
pub struct OpenScadConfig {
    /// Unset, the installed OpenSCAD with its own default geometry backend is used.
    pub backend: Option<ModelBackend>,
}

/// What makes the models.
#[derive(Clone, Copy, Debug, Eq, PartialEq, Structural)]
pub enum ModelBackend {
    Cgal,
    Manifold,
    Openrscad,
}

impl Default for CacheConfig {
    fn default() -> (config: Self)
        ensures
            config.max_size_mb == DEFAULT_CACHE_SIZE_MB,
    {
        CacheConfig { max_size_mb: DEFAULT_CACHE_SIZE_MB }
    }
}

impl Default for OpenScadConfig {
    fn default() -> (config: Self)
        ensures
            config.backend is None,
    {
        OpenScadConfig { backend: None }
    }
}

impl Default for AppConfig {
    fn default() -> (config: Self)
        ensures
            config == default_config(),
    {
        AppConfig { cache: CacheConfig::default(), openscad: OpenScadConfig::default() }
    }
}

/// The configuration that holds where none is given.
pub open spec fn default_config() -> AppConfig {
    AppConfig {
        cache: CacheConfig { max_size_mb: DEFAULT_CACHE_SIZE_MB },
        openscad: OpenScadConfig { backend: None },
    }
}

impl CacheConfig {
    /// The limit of the cache in bytes, held within 64 bits.
    pub open spec fn limit(self) -> int {
        if self.max_size_mb * 1_048_576 > u64::MAX {
            u64::MAX as int
        } else {
            self.max_size_mb * 1_048_576
        }
    }

    /// The limit of the cache in bytes.
    pub fn max_size_bytes(&self) -> (bytes: u64)
        ensures
            bytes == self.limit(),
    {
        match self.max_size_mb.checked_mul(1024 * 1024) {
            Some(bytes) => bytes,
            None => u64::MAX,
        }
    }
}

impl ModelBackend {
    /// The name of the backend on the command line, in the configuration, and in the cache.
    pub open spec fn name(self) -> Seq<char> {
        match self {
            ModelBackend::Cgal => "cgal"@,
            ModelBackend::Manifold => "manifold"@,
            ModelBackend::Openrscad => "openrscad"@,
        }
    }

    /// What OpenSCAD calls the backend, or none if it is another program.
    pub fn openscad_backend(self) -> (name: Option<&'static str>)
        ensures
            match self {
                ModelBackend::Cgal => name matches Some(name) && name@ == "CGAL"@,
                ModelBackend::Manifold => name matches Some(name) && name@ == "Manifold"@,
                ModelBackend::Openrscad => name is None,
            },
    {
        match self {
            ModelBackend::Cgal => Some("CGAL"),
            ModelBackend::Manifold => Some("Manifold"),
            ModelBackend::Openrscad => None,
        }
    }

    /// The name of the backend.
    pub fn cache_key(self) -> (name: &'static str)
        ensures
            name@ == self.name(),
    {
        match self {
            ModelBackend::Cgal => "cgal",
            ModelBackend::Manifold => "manifold",
            ModelBackend::Openrscad => "openrscad",
        }
    }

    /// The backend of that name, whatever the case of its letters.
    pub fn from_str(value: &str) -> (backend: Result<ModelBackend, String>)
        ensures
            match backend_named(value@) {
                Some(named) => backend == Ok::<ModelBackend, String>(named),
                None => backend matches Err(message) && message@ == unknown_backend(value@),
            },
    {
        let lower = to_ascii_lowercase(value);
        if same_text(lower.as_str(), "cgal") {
            Ok(ModelBackend::Cgal)
        } else if same_text(lower.as_str(), "manifold") {
            Ok(ModelBackend::Manifold)
        } else if same_text(lower.as_str(), "openrscad") {
            Ok(ModelBackend::Openrscad)
        } else {
            Err(
                "不明なモデルバックエンドです: ".to_owned().concat(value).concat(
                    " (cgal、manifold、openrscad のいずれかを指定してください)",
                ),
            )
        }
    }
}

/// The message that refuses the name of a backend.
pub open spec fn unknown_backend(value: Seq<char>) -> Seq<char> {
    "不明なモデルバックエンドです: "@ + value
        + " (cgal、manifold、openrscad のいずれかを指定してください)"@
}

/// The backend that `value` names, whatever the case of its letters.
pub open spec fn backend_named(value: Seq<char>) -> Option<ModelBackend> {
    let lower = ascii_lower(value);
    if lower == ModelBackend::Cgal.name() {
        Some(ModelBackend::Cgal)
    } else if lower == ModelBackend::Manifold.name() {
        Some(ModelBackend::Manifold)
    } else if lower == ModelBackend::Openrscad.name() {
        Some(ModelBackend::Openrscad)
    } else {
        None
    }
}

/// Reading the name of a backend, in letters of either case, gives back the backend.
pub proof fn law_backend_name_reads_back(backend: ModelBackend, value: Seq<char>)
    requires
        ascii_lower(value) == ascii_lower(backend.name()),
    ensures
        backend_named(value) == Some(backend),
{
    reveal_strlit("cgal");
    reveal_strlit("manifold");
    reveal_strlit("openrscad");
    assert(ascii_lower(backend.name()) =~= backend.name());
    assert("cgal"@[0] == 'c');
    assert("manifold"@[0] == 'm');
    assert("openrscad"@[0] == 'o');
}

/// The backend in use: the command line goes before the configuration.
pub fn effective_backend(
    command_line: Option<ModelBackend>,
    configured: Option<ModelBackend>,
) -> (backend: Option<ModelBackend>)
    ensures
        backend == (if command_line is Some {
            command_line
        } else {
            configured
        }),
{
    match command_line {
        Some(backend) => Some(backend),
        None => configured,
    }
}

/// A directory and the names that lead on from it, one below the other.
pub struct JoinedPath<P> {
    pub base: P,
    pub parts: Vec<String>,
}

/// The file `config.toml` below the home directory, or none if there is no home directory.
/// `home` and `user_profile` are the values of `HOME` and `USERPROFILE`; the first goes before the
/// second.
pub fn config_file_path<P>(home: Option<P>, user_profile: Option<P>) -> (path: Option<JoinedPath<P>>)
    ensures
        ({
            let base = if home is Some {
                home
            } else {
                user_profile
            };
            match path {
                Some(path) => {
                    &&& base == Some(path.base)
                    &&& texts(path.parts@) == seq![".config"@, "scadline"@, "config.toml"@]
                },
                None => base is None,
            }
        }),
{
    let base = match home {
        Some(home) => home,
        None => match user_profile {
            Some(profile) => profile,
            None => {
                return None;
            },
        },
    };
    let mut parts: Vec<String> = Vec::new();
    parts.push(".config".to_owned());
    parts.push("scadline".to_owned());
    parts.push("config.toml".to_owned());
    proof {
        assert(texts(parts@) =~= seq![".config"@, "scadline"@, "config.toml"@]);
    }
    Some(JoinedPath { base, parts })
}

/// What came of reading the configuration file.
pub enum ConfigRead {
    /// There is no home directory to hold one.
    NoPath,
    /// It was read as a configuration.
    Parsed(AppConfig),
    /// It was read, but is not a configuration, for this reason.
    Malformed(String),
    /// There is no such file.
    Missing,
    /// It could not be read, for this reason.
    Unreadable(String),
}

/// The configuration to use, and what else is to be done.
pub struct ConfigPlan {
    pub config: AppConfig,
    /// Whether the default configuration is to be written to the file.
    pub write_default: bool,
    /// What to tell the user.
    pub warning: Option<String>,
}

/// Settles on a configuration. `path` is the configuration file as text.
pub fn load_or_create_config(path: &str, read: ConfigRead) -> (plan: ConfigPlan)
    ensures
        plan.config == (match read {
            ConfigRead::Parsed(config) => config,
            _ => default_config(),
        }),
        plan.write_default <==> read is Missing,
        match read {
            ConfigRead::Malformed(error) => plan.warning matches Some(text) && text@ == path@
                + " の解析に失敗しました: "@ + error@,
            ConfigRead::Unreadable(error) => plan.warning matches Some(text) && text@ == path@
                + " を読み込めません: "@ + error@,
            _ => plan.warning is None,
        },
{
    match read {
        ConfigRead::NoPath => ConfigPlan {
            config: AppConfig::default(),
            write_default: false,
            warning: None,
        },
        ConfigRead::Parsed(config) => ConfigPlan { config, write_default: false, warning: None },
        ConfigRead::Malformed(error) => ConfigPlan {
            config: AppConfig::default(),
            write_default: false,
            warning: Some(
                path.to_owned().concat(" の解析に失敗しました: ").concat(error.as_str()),
            ),
        },
        ConfigRead::Missing => ConfigPlan {
            config: AppConfig::default(),
            write_default: true,
            warning: None,
        },
        ConfigRead::Unreadable(error) => ConfigPlan {
            config: AppConfig::default(),
            write_default: false,
            warning: Some(path.to_owned().concat(" を読み込めません: ").concat(error.as_str())),
        },
    }
}

/// A backend is named by its own name, in letters of either case, and by nothing else.
pub proof fn law_only_its_name_names_a_backend(value: Seq<char>)
    ensures
        ascii_lower(value) == "cgal"@ <==> backend_named(value) == Some(ModelBackend::Cgal),
        ascii_lower(value) == "manifold"@ <==> backend_named(value) == Some(ModelBackend::Manifold),
        ascii_lower(value) == "openrscad"@ <==> backend_named(value) == Some(
            ModelBackend::Openrscad,
        ),
        backend_named(value) matches Some(backend) ==> ascii_lower(value) == backend.name(),
{
    reveal_strlit("cgal");
    reveal_strlit("manifold");
    reveal_strlit("openrscad");
    assert("cgal"@.len() == 4 && "manifold"@.len() == 8 && "openrscad"@.len() == 9);
}

/// The limit of the cache is its megabytes of 1024 times 1024 bytes each, unless 64 bits cannot
/// hold that; then it is the largest number that they can.
pub proof fn law_limit_counts_megabytes(config: CacheConfig)
    ensures
        ({
            let bytes = config.max_size_mb * 1024 * 1024;
            &&& bytes <= 0xffff_ffff_ffff_ffff ==> config.limit() == bytes
            &&& bytes > 0xffff_ffff_ffff_ffff ==> config.limit() == 0xffff_ffff_ffff_ffff
        }),
{
}

/// Where nothing is configured, the cache may have 256 megabytes, and OpenSCAD chooses its own
/// backend.
pub proof fn law_default_settings()
    ensures
        default_config().cache.max_size_mb == 256,
        default_config().openscad.backend is None,
        DEFAULT_CACHE_SIZE_MB == 256,
        default_config().cache.limit() == 268_435_456,
{
}

/// The message that refuses a backend tells the name that was given.
pub proof fn law_refusal_tells_the_name(value: Seq<char>)
    ensures
        ({
            let start = "不明なモデルバックエンドです: "@;
            let end = " (cgal、manifold、openrscad のいずれかを指定してください)"@;
            let message = unknown_backend(value);
            &&& start.is_prefix_of(message)
            &&& end.is_suffix_of(message)
            &&& message.len() == start.len() + value.len() + end.len()
            &&& message.subrange(start.len() as int, (start.len() + value.len()) as int) == value
        }),
{
    let start = "不明なモデルバックエンドです: "@;
    let end = " (cgal、manifold、openrscad のいずれかを指定してください)"@;
    let message = unknown_backend(value);
    assert(message.subrange(0, start.len() as int) =~= start);
    assert(message.subrange(message.len() - end.len(), message.len() as int) =~= end);
    assert(message.subrange(start.len() as int, (start.len() + value.len()) as int) =~= value);
}

} // verus!
