//! The service's configuration and its defaults.

use vstd::prelude::*;

use crate::errors::ConfigBuildError;
use crate::text;

verus! {

/// Configuration of the service.
#[derive(Debug)]
pub struct AppConfig {
    /// Maximum size of uploads. Uploads with longer length are rejected as bad
    /// requests as soon as we know (either because we have a too-high content
    /// length hint or because we actually received more than the limit).
    pub max_upload_size_mb: u64,
    /// Permitted Content-Types that may be uploaded to this service.
    pub allowed_content_types: Vec<String>,
    /// Bind address for the server.
    ///
    /// NOTE: the default only allows connections from localhost! This may or
    /// may not be a problem depending on setup.
    ///
    /// This is `[::1]:9000`.
    pub bind_address: String,
    /// Database connection string for a Postgres database.
    pub db_connection_string: String,
}

/// What was found of the configuration. Everything but the database may be
/// left out.
#[derive(Debug)]
pub struct ConfigItems {
    pub max_upload_size_mb: Option<u64>,
    pub allowed_content_types: Option<Vec<String>>,
    pub bind_address: Option<String>,
    pub db_connection_string: String,
}

/// The configuration as a mathematical value.
#[verifier::ext_equal]
pub struct AppConfigView {
    pub max_upload_size_mb: u64,
    pub allowed_content_types: Seq<Seq<char>>,
    pub bind_address: Seq<char>,
    pub db_connection_string: Seq<char>,
}

/// What each text of a list says.
pub open spec fn text_views(list: Seq<String>) -> Seq<Seq<char>> {
    list.map_values(|item: String| item@)
}

impl View for AppConfig {
    type V = AppConfigView;

    open spec fn view(&self) -> AppConfigView {
        AppConfigView {
            max_upload_size_mb: self.max_upload_size_mb,
            allowed_content_types: text_views(self.allowed_content_types@),
            bind_address: self.bind_address@,
            db_connection_string: self.db_connection_string@,
        }
    }
}

/// The Content-Types that are permitted unless configured otherwise.
pub open spec fn default_content_types() -> Seq<Seq<char>> {
    seq!["application/octet-stream"@, "text/plain"@, "text/html"@]
}

/// What is found, with the defaults for what is left out.
pub open spec fn config_of(items: ConfigItems) -> AppConfigView {
    AppConfigView {
        max_upload_size_mb: match items.max_upload_size_mb {
            Some(size) => size,
            None => 100,
        },
        allowed_content_types: match items.allowed_content_types {
            Some(list) => text_views(list@),
            None => default_content_types(),
        },
        bind_address: match items.bind_address {
            Some(address) => address@,
            None => "[::1]:9000"@,
        },
        db_connection_string: items.db_connection_string@,
    }
}

impl AppConfigView {
    /// How many bytes an upload may have.
    pub open spec fn max_upload_bytes(self) -> int {
        self.max_upload_size_mb * 1_000_000
    }
}

impl AppConfig {
    pub fn default_max_upload_size() -> (size: u64)
        ensures
            size == 100,
    {
        100
    }

    pub fn default_allowed_content_types() -> (list: Vec<String>)
        ensures
            text_views(list@) == default_content_types(),
    {
        let mut list: Vec<String> = Vec::new();
        list.push("application/octet-stream".to_owned());
        list.push("text/plain".to_owned());
        list.push("text/html".to_owned());
        assert(text_views(list@) =~= default_content_types());
        list
    }

    pub fn default_bind_address() -> (address: String)
        ensures
            address@ == "[::1]:9000"@,
    {
        "[::1]:9000".to_owned()
    }

    /// Creates a testing AppConfig. Database sold separately.
    pub fn build_for_test() -> (config: AppConfig)
        ensures
            config@ == (AppConfigView {
                max_upload_size_mb: 5,
                allowed_content_types: default_content_types(),
                bind_address: "[::1]:9000"@,
                db_connection_string: ""@,
            }),
    {
        AppConfig {
            max_upload_size_mb: 5,
            allowed_content_types: Self::default_allowed_content_types(),
            bind_address: Self::default_bind_address(),
            // Garbage value, not actually used
            db_connection_string: "".to_owned(),
        }
    }

    /// Builds the configuration from what collecting the configuration items
    /// and, if that went well, deserializing them came to.
    pub fn build(collected: Result<Result<ConfigItems, String>, String>) -> (built: Result<
        AppConfig,
        ConfigBuildError,
    >)
        ensures
            match collected {
                Ok(Ok(items)) => built matches Ok(config) && config@ == config_of(items),
                Ok(Err(e)) => built matches Err(error) && error@
                    == ConfigBuildError::FailedToDeserialize(e@),
                Err(e) => built matches Err(error) && error@ == ConfigBuildError::FailedToCollect(
                    e@,
                ),
            },
    {
        let items = match collected {
            Ok(Ok(items)) => items,
            Ok(Err(e)) => return Err(ConfigBuildError::FailedToDeserialize(e)),
            Err(e) => return Err(ConfigBuildError::FailedToCollect(e)),
        };
        Ok(
            AppConfig {
                max_upload_size_mb: match items.max_upload_size_mb {
                    Some(size) => size,
                    None => Self::default_max_upload_size(),
                },
                allowed_content_types: match items.allowed_content_types {
                    Some(list) => list,
                    None => Self::default_allowed_content_types(),
                },
                bind_address: match items.bind_address {
                    Some(address) => address,
                    None => Self::default_bind_address(),
                },
                db_connection_string: items.db_connection_string,
            },
        )
    }

    /// How many bytes an upload may have.
    pub fn max_upload_bytes(&self) -> (bytes: u128)
        ensures
            bytes == self@.max_upload_bytes(),
            bytes <= 1_000_000 * u64::MAX,
    {
        self.max_upload_size_mb as u128 * 1_000_000
    }

    /// Whether files of this Content-Type may be uploaded.
    pub fn permits(&self, content_type: &str) -> (yes: bool)
        ensures
            yes == self@.allowed_content_types.contains(content_type@),
    {
        let yes = text::list_contains(&self.allowed_content_types, content_type);
        proof {
            let list = self.allowed_content_types@;
            let views = self@.allowed_content_types;
            assert forall|i: int| 0 <= i < list.len() implies (#[trigger] list[i])@ == views[i] by {}
            if views.contains(content_type@) {
                let i = choose|i: int| 0 <= i < views.len() && views[i] == content_type@;
                assert(list[i]@ == content_type@);
            }
            if yes {
                let i = choose|i: int|
                    0 <= i < list.len() && (#[trigger] list[i])@ == content_type@;
                assert(views[i] == content_type@);
            }
        }
        yes
    }
}

/// What is configured is what counts, item by item. What is left out is 100
/// megabytes, the three usual Content-Types, and localhost only.
pub proof fn law_configuration_counts(
    items: ConfigItems,
    built: Result<AppConfig, ConfigBuildError>,
)
    requires
        call_ensures(AppConfig::build, (Ok(Ok(items)),), built),
    ensures
        built is Ok,
        built->Ok_0.max_upload_size_mb == match items.max_upload_size_mb {
            Some(size) => size,
            None => 100,
        },
        items.allowed_content_types matches Some(list) ==> built->Ok_0@.allowed_content_types.len()
            == list@.len() && forall|i: int|
            0 <= i < list@.len() ==> #[trigger] built->Ok_0@.allowed_content_types[i] == list@[i]@,
        items.allowed_content_types is None ==> built->Ok_0@.allowed_content_types
            == seq!["application/octet-stream"@, "text/plain"@, "text/html"@],
        built->Ok_0.bind_address@ == match items.bind_address {
            Some(address) => address@,
            None => "[::1]:9000"@,
        },
        built->Ok_0.db_connection_string@ == items.db_connection_string@,
{
}

/// A configuration that cannot be read is none, and what went wrong is told, and
/// where.
pub proof fn law_unreadable_configuration_is_refused(e: String)
    ensures
        forall|built: Result<AppConfig, ConfigBuildError>| #[trigger]
            call_ensures(AppConfig::build, (Err(e),), built) ==> (built matches Err(
                ConfigBuildError::FailedToCollect(why),
            ) && why@ == e@),
        forall|built: Result<AppConfig, ConfigBuildError>| #[trigger]
            call_ensures(AppConfig::build, (Ok(Err(e)),), built) ==> (built matches Err(
                ConfigBuildError::FailedToDeserialize(why),
            ) && why@ == e@),
{
}

/// A Content-Type is permitted exactly if it is one of those configured, and a
/// megabyte is a million bytes.
pub proof fn law_permitted_is_what_is_listed(
    config: AppConfig,
    content_type: &str,
    yes: bool,
    bytes: u128,
)
    requires
        call_ensures(AppConfig::permits, (&config, content_type), yes),
        call_ensures(AppConfig::max_upload_bytes, (&config,), bytes),
    ensures
        yes <==> exists|i: int|
            0 <= i < config.allowed_content_types@.len()
                && (#[trigger] config.allowed_content_types@[i])@ == content_type@,
        bytes == config.max_upload_size_mb * 1_000_000,
{
    let list = config.allowed_content_types@;
    let views = config@.allowed_content_types;
    if yes {
        let i = choose|i: int| 0 <= i < views.len() && views[i] == content_type@;
        assert(list[i]@ == content_type@);
    }
    if exists|i: int| 0 <= i < list.len() && (#[trigger] list[i])@ == content_type@ {
        let i = choose|i: int| 0 <= i < list.len() && (#[trigger] list[i])@ == content_type@;
        assert(views[i] == content_type@);
    }
}

} // verus!
