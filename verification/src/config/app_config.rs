//! Connection settings resolved from two layered sources, the environment
//! overriding the configuration file.

use vstd::prelude::*;

verus! {

/// Connection settings, fully resolved.
#[derive(Debug)]
pub struct AppConfig {
    pub access_key: String,
    pub secret_key: String,
    pub region: String,
    pub endpoint_url: String,
    pub path_style: bool,
}

/// One source of settings; each field may be present or absent.
pub struct ConfigSource {
    pub access_key: Option<String>,
    pub secret_key: Option<String>,
    pub region: Option<String>,
    pub endpoint_url: Option<String>,
    pub path_style: Option<bool>,
}

/// A required setting, named.
#[derive(Debug, PartialEq, Eq, Structural, Clone, Copy)]
pub enum ConfigField {
    AccessKey,
    SecretKey,
    Region,
    EndpointUrl,
    PathStyle,
}

/// Why settings could not be resolved.
#[derive(Debug, PartialEq, Eq, Structural, Clone, Copy)]
pub enum ConfigError {
    Missing(ConfigField),
}

/// The value a setting resolves to: the overriding source's if it has one,
/// else the base source's.
pub open spec fn spec_pick(over: Option<Seq<char>>, base: Option<Seq<char>>) -> Option<Seq<char>> {
    if over is Some {
        over
    } else {
        base
    }
}

/// The value a flag resolves to, the overriding source first.
pub open spec fn spec_pick_flag(over: Option<bool>, base: Option<bool>) -> Option<bool> {
    if over is Some {
        over
    } else {
        base
    }
}

fn pick_string(over: &Option<String>, base: &Option<String>, field: ConfigField) -> (r: Result<
    String,
    ConfigError,
>)
    ensures
        match r {
            Ok(v) => spec_pick(over.deep_view(), base.deep_view()) == Some(v@),
            Err(e) => spec_pick(over.deep_view(), base.deep_view()) is None && e
                == ConfigError::Missing(field),
        },
{
    match over {
        Option::Some(v) => Ok(v.clone()),
        Option::None => match base {
            Option::Some(v) => Ok(v.clone()),
            Option::None => Err(ConfigError::Missing(field)),
        },
    }
}

impl AppConfig {
    /// Resolve settings from a configuration file and the environment, the
    /// environment overriding the file. Fails on the first absent required
    /// setting, in field order.
    pub fn from_sources(file: &ConfigSource, env: &ConfigSource) -> (r: Result<
        AppConfig,
        ConfigError,
    >)
        ensures
            match r {
                Ok(c) => {
                    &&& spec_pick(env.access_key.deep_view(), file.access_key.deep_view())
                        == Some(c.access_key@)
                    &&& spec_pick(env.secret_key.deep_view(), file.secret_key.deep_view())
                        == Some(c.secret_key@)
                    &&& spec_pick(env.region.deep_view(), file.region.deep_view()) == Some(
                        c.region@,
                    )
                    &&& spec_pick(env.endpoint_url.deep_view(), file.endpoint_url.deep_view())
                        == Some(c.endpoint_url@)
                    &&& spec_pick_flag(env.path_style, file.path_style) == Some(c.path_style)
                },
                Err(e) => {
                    let no_ak = spec_pick(
                        env.access_key.deep_view(),
                        file.access_key.deep_view(),
                    ) is None;
                    let no_sk = spec_pick(
                        env.secret_key.deep_view(),
                        file.secret_key.deep_view(),
                    ) is None;
                    let no_rg = spec_pick(env.region.deep_view(), file.region.deep_view()) is None;
                    let no_ep = spec_pick(
                        env.endpoint_url.deep_view(),
                        file.endpoint_url.deep_view(),
                    ) is None;
                    let no_ps = spec_pick_flag(env.path_style, file.path_style) is None;
                    if no_ak {
                        e == ConfigError::Missing(ConfigField::AccessKey)
                    } else if no_sk {
                        e == ConfigError::Missing(ConfigField::SecretKey)
                    } else if no_rg {
                        e == ConfigError::Missing(ConfigField::Region)
                    } else if no_ep {
                        e == ConfigError::Missing(ConfigField::EndpointUrl)
                    } else if no_ps {
                        e == ConfigError::Missing(ConfigField::PathStyle)
                    } else {
                        false
                    }
                },
            },
    {
        let access_key = match pick_string(&env.access_key, &file.access_key,
            ConfigField::AccessKey) {
            Ok(v) => v,
            Err(e) => {
                return Err(e);
            },
        };
        let secret_key = match pick_string(&env.secret_key, &file.secret_key,
            ConfigField::SecretKey) {
            Ok(v) => v,
            Err(e) => {
                return Err(e);
            },
        };
        let region = match pick_string(&env.region, &file.region, ConfigField::Region) {
            Ok(v) => v,
            Err(e) => {
                return Err(e);
            },
        };
        let endpoint_url = match pick_string(&env.endpoint_url, &file.endpoint_url,
            ConfigField::EndpointUrl) {
            Ok(v) => v,
            Err(e) => {
                return Err(e);
            },
        };
        let path_style: bool = match &env.path_style {
            Option::Some(v) => *v,
            Option::None => match &file.path_style {
                Option::Some(v) => *v,
                Option::None => {
                    return Err(ConfigError::Missing(ConfigField::PathStyle));
                },
            },
        };
        Ok(AppConfig { access_key, secret_key, region, endpoint_url, path_style })
    }
}

} // verus!
