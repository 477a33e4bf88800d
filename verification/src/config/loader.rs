use vstd::prelude::*;

use crate::config::error::{validation_error, ConfigError};
use crate::config::types::Config;
use crate::text::{
    concat_str, join_dir, join_path, lowercase, parse_u64, spec_parse_u64, str_eq, to_lowercase,
};

verus! {

/// Configuration loader that supports multiple sources
pub struct ConfigLoader {
    search_paths: Vec<String>,
    env_prefix: String,
}

/// The formats that configuration files are read in.
#[derive(Debug, Clone, Copy, PartialEq, Eq, Structural)]
pub enum ConfigFormat {
    /// YAML
    Yaml,
    /// JSON
    Json,
}

/// Overrides read from the environment, each when its variable is set.
#[derive(Debug, Clone)]
pub struct EnvOverrides {
    /// `<prefix>_SERVER_BIND`
    pub bind: Option<String>,
    /// `<prefix>_SERVER_PORT`
    pub port: Option<String>,
    /// `<prefix>_DEBUG`
    pub debug: Option<String>,
    /// `<prefix>_LOG_LEVEL`
    pub log_level: Option<String>,
}

/// The file names searched for in each directory, in order.
pub open spec fn config_names() -> Seq<Seq<char>> {
    seq![
        "mcpkit.yaml"@,
        "mcpkit.yml"@,
        "mcpkit.json"@,
        ".mcpkit.yaml"@,
        ".mcpkit.yml"@,
        ".mcpkit.json"@,
        "config.yaml"@,
        "config.yml"@,
        "config.json"@,
    ]
}

/// The candidate files, directory by directory, each with every file name.
pub open spec fn candidates(dirs: Seq<Seq<char>>) -> Seq<Seq<char>>
    decreases dirs.len(),
{
    if dirs.len() == 0 {
        seq![]
    } else {
        candidates(dirs.drop_last()) + config_names().map_values(
            |n: Seq<char>| join_path(dirs.last(), n),
        )
    }
}

/// The format a file extension stands for.
pub open spec fn format_of(ext: Seq<char>) -> Option<ConfigFormat> {
    if ext == "yaml"@ || ext == "yml"@ {
        Some(ConfigFormat::Yaml)
    } else if ext == "json"@ {
        Some(ConfigFormat::Json)
    } else {
        None
    }
}

/// The value of a debug override: `true` in any case, or `1`.
pub open spec fn debug_value(d: Seq<char>) -> bool {
    lowercase(d) == "true"@ || d == "1"@
}

impl ConfigLoader {
    /// The directories searched, in order.
    pub closed spec fn dirs(self) -> Seq<Seq<char>> {
        self.search_paths@.map_values(|s: String| s@)
    }

    /// The prefix of the environment variables read.
    pub closed spec fn prefix(self) -> Seq<char> {
        self.env_prefix@
    }

    /// Create a new configuration loader searching the given directories
    pub fn new(search_paths: Vec<String>) -> (r: ConfigLoader)
        ensures
            r.dirs() == search_paths@.map_values(|s: String| s@),
            r.prefix() == "MCPKIT"@,
    {
        ConfigLoader { search_paths, env_prefix: "MCPKIT".to_string() }
    }

    /// Add a search path
    pub fn add_search_path(&mut self, path: &str) -> (r: &mut Self)
        ensures
            r.dirs() == old(self).dirs().push(path@),
            r.prefix() == old(self).prefix(),
            *final(self) == *final(r),
    {
        let ghost before = self.dirs();
        self.search_paths.push(path.to_string());
        assert(self.dirs() =~= before.push(path@));
        self
    }

    /// Set environment variable prefix
    pub fn set_env_prefix(&mut self, prefix: &str) -> (r: &mut Self)
        ensures
            r.dirs() == old(self).dirs(),
            r.prefix() == prefix@,
            *final(self) == *final(r),
    {
        self.env_prefix = prefix.to_string();
        self
    }

    /// The files to look for, in order: each directory with each configuration file name.
    pub fn candidate_files(&self) -> (r: Vec<String>)
        ensures
            r@.map_values(|s: String| s@) == candidates(self.dirs()),
    {
        let names: [&str; 9] = [
            "mcpkit.yaml",
            "mcpkit.yml",
            "mcpkit.json",
            ".mcpkit.yaml",
            ".mcpkit.yml",
            ".mcpkit.json",
            "config.yaml",
            "config.yml",
            "config.json",
        ];
        let mut out: Vec<String> = Vec::new();
        let mut i: usize = 0;
        assert(self.dirs().subrange(0, 0) =~= Seq::<Seq<char>>::empty());
        while i < self.search_paths.len()
            invariant
                i <= self.search_paths.len(),
                names@.map_values(|n: &str| n@) == config_names(),
                out@.map_values(|s: String| s@) == candidates(self.dirs().subrange(0, i as int)),
            decreases self.search_paths.len() - i,
        {
            let ghost before = out@.map_values(|s: String| s@);
            let dir = self.search_paths[i].as_str();
            let mut j: usize = 0;
            while j < 9
                invariant
                    j <= 9,
                    names@.map_values(|n: &str| n@) == config_names(),
                    dir@ == self.dirs()[i as int],
                    out@.map_values(|s: String| s@) == before + config_names().subrange(
                        0,
                        j as int,
                    ).map_values(|n: Seq<char>| join_path(dir@, n)),
                decreases 9 - j,
            {
                let ghost prev = out@.map_values(|s: String| s@);
                let joined = join_dir(dir, names[j]);
                assert(names@.map_values(|n: &str| n@)[j as int] == names@[j as int]@);
                assert(joined@ == join_path(dir@, config_names()[j as int]));
                out.push(joined);
                assert(out@.map_values(|s: String| s@) =~= prev.push(joined@));
                assert(config_names().subrange(0, j + 1).map_values(|n: Seq<char>| join_path(dir@, n))
                    =~= config_names().subrange(0, j as int).map_values(
                    |n: Seq<char>| join_path(dir@, n),
                ).push(join_path(dir@, config_names()[j as int])));
                assert(out@.map_values(|s: String| s@) =~= before + config_names().subrange(
                    0,
                    j + 1,
                ).map_values(|n: Seq<char>| join_path(dir@, n)));
                j = j + 1;
            }
            assert(self.dirs().subrange(0, i + 1).drop_last() =~= self.dirs().subrange(0, i as int));
            assert(config_names().subrange(0, 9) =~= config_names());
            i = i + 1;
        }
        assert(self.dirs().subrange(0, i as int) =~= self.dirs());
        out
    }

    /// The names of the environment variables read, in the order bind address, port,
    /// debug flag, log level.
    pub fn env_var_names(&self) -> (r: (String, String, String, String))
        ensures
            r.0@ == self.prefix() + "_SERVER_BIND"@,
            r.1@ == self.prefix() + "_SERVER_PORT"@,
            r.2@ == self.prefix() + "_DEBUG"@,
            r.3@ == self.prefix() + "_LOG_LEVEL"@,
    {
        (
            concat_str(self.env_prefix.as_str(), "_SERVER_BIND"),
            concat_str(self.env_prefix.as_str(), "_SERVER_PORT"),
            concat_str(self.env_prefix.as_str(), "_DEBUG"),
            concat_str(self.env_prefix.as_str(), "_LOG_LEVEL"),
        )
    }
}

/// The format of a configuration file by its extension: YAML for `yaml` and `yml`, JSON
/// for `json`.
pub fn config_format(extension: &str) -> (r: Result<ConfigFormat, ConfigError>)
    ensures
        match format_of(extension@) {
            Some(f) => r == Ok::<ConfigFormat, ConfigError>(f),
            None => r matches Err(e) && validation_error(
                e,
                "Unsupported config file extension: "@ + extension@,
            ),
        },
{
    if str_eq(extension, "yaml") || str_eq(extension, "yml") {
        Ok(ConfigFormat::Yaml)
    } else if str_eq(extension, "json") {
        Ok(ConfigFormat::Json)
    } else {
        Err(ConfigError::ValidationError(concat_str("Unsupported config file extension: ", extension)))
    }
}

/// Apply environment overrides, in the order bind address, port, debug flag, log level;
/// a port that is no 16-bit number stops there with an error.
pub fn apply_env_overrides(config: &mut Config, env: &EnvOverrides) -> (r: Result<(), ConfigError>)
    ensures
        final(config).version == old(config).version,
        final(config).transport == old(config).transport,
        final(config).runtime == old(config).runtime,
        final(config).mcp == old(config).mcp,
        final(config).server.name == old(config).server.name,
        final(config).server.bind == match env.bind {
            Some(b) => b,
            None => old(config).server.bind,
        },
        r is Err <==> (env.port matches Some(p) && !(spec_parse_u64(p@) matches Some(v) && v
            <= u16::MAX)),
        r matches Err(e) ==> (env.port matches Some(p) && validation_error(
            e,
            "Invalid port number from env: "@ + p@,
        )),
        r is Ok ==> {
            &&& final(config).server.port == match env.port {
                Some(p) => spec_parse_u64(p@).unwrap() as u16,
                None => old(config).server.port,
            }
            &&& final(config).server.debug == match env.debug {
                Some(d) => debug_value(d@),
                None => old(config).server.debug,
            }
            &&& final(config).server.log_level == match env.log_level {
                Some(l) => Some(l),
                None => old(config).server.log_level,
            }
        },
{
    if let Some(bind) = &env.bind {
        config.server.bind = bind.clone();
    }
    if let Some(port) = &env.port {
        match parse_u64(port.as_str()) {
            Some(v) => {
                if v > 65535 {
                    return Err(
                        ConfigError::ValidationError(
                            concat_str("Invalid port number from env: ", port.as_str()),
                        ),
                    );
                }
                config.server.port = v as u16;
            },
            None => {
                return Err(
                    ConfigError::ValidationError(
                        concat_str("Invalid port number from env: ", port.as_str()),
                    ),
                );
            },
        }
    }
    if let Some(debug) = &env.debug {
        let lower = to_lowercase(debug.as_str());
        config.server.debug = str_eq(lower.as_str(), "true") || str_eq(debug.as_str(), "1");
    }
    if let Some(level) = &env.log_level {
        config.server.log_level = Some(level.clone());
    }
    Ok(())
}

} // verus!
