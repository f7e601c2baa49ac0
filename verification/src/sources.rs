pub mod config_source;
pub mod custom;
pub mod dot_env;
pub mod environment;
pub mod yaml;

pub use self::config_source::{ConfigSource, Source};
pub use self::environment::EnvironmentConfigSource;
pub use self::yaml::YamlConfigSource;
