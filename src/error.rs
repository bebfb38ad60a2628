use vstd::prelude::*;

verus! {

/// What can go wrong while loading, merging or writing a configuration.
#[derive(Debug)]
pub enum ConfigError {
    /// The requested format is not one this library knows.
    UnknownConfigurationVariant,
    /// The file to read does not exist.
    FileNotExists,
    /// A directory was found where a file was expected.
    FileIsDirectory,
    /// No format was given and none could be inferred from the file's extension.
    CouldNotGuess,
    /// A merge or a build was attempted before any configuration was established.
    NoConfigurationSpecified,
    /// Reading or writing a file failed; the text describes the failure.
    FileError(String),
    /// A leaf of the layout is absent from a decoded tree handed in directly.
    MissingField(Vec<String>),
    /// A leaf of a decoded tree handed in directly holds a value its type refuses.
    MismatchedField(Vec<String>),
    /// A field path names no field of the layout.
    UnknownField(Vec<String>),
    /// The JSON text could not be decoded, or the value could not be encoded.
    JsonError(serde_json::Error),
    /// The TOML text could not be decoded.
    TomlDeError(toml::de::Error),
    /// The value could not be encoded as TOML.
    TomlSerError(toml::ser::Error),
    /// The YAML text could not be decoded, or the value could not be encoded.
    YamlError(serde_yml::Error),
}

impl ConfigError {
    /// A short human-readable description of the error.
    pub fn message(&self) -> (r: String) {
        match self {
            ConfigError::UnknownConfigurationVariant => "unknown or missing configuration variant".to_owned(),
            ConfigError::FileNotExists => "file does not exist".to_owned(),
            ConfigError::FileIsDirectory => "argument was meant to be a file, instead found directory".to_owned(),
            ConfigError::CouldNotGuess => "could not guess configuration variant from the file extension".to_owned(),
            ConfigError::NoConfigurationSpecified => "no configuration specified, establish one first".to_owned(),
            ConfigError::FileError(_) => "error while reading or writing file".to_owned(),
            ConfigError::MissingField(_) => "a required field is missing".to_owned(),
            ConfigError::MismatchedField(_) => "a field holds a value its type refuses".to_owned(),
            ConfigError::UnknownField(_) => "a field path names no field of the layout".to_owned(),
            ConfigError::JsonError(_) => "error while de/serializing JSON".to_owned(),
            ConfigError::TomlDeError(_) => "error while deserializing TOML".to_owned(),
            ConfigError::TomlSerError(_) => "error while serializing TOML".to_owned(),
            ConfigError::YamlError(_) => "error while de/serializing YAML".to_owned(),
        }
    }
}

} // verus!
