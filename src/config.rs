use vstd::prelude::*;

use crate::document::{
    complete_in, copy_path, entries, full_of, holds_leaves, kinds_fit, known, leaves_fit, merge, merged,
    overlay_fits, path_list, prefix_free, within_leaves, reports_bad_leaf, same_paths, segs, sparse_of, Document, Field,
    LeafType, Schema, Sparse,
};
use crate::error::ConfigError;
use crate::format::{codec_error, copy_value, data_error, decode, decoded, encode, encoded, json_is_object};

verus! {

/// The text format of a configuration.
#[derive(Debug, Clone, Copy, PartialEq, Eq, Structural)]
pub enum ConfigurationVariant {
    Json,
    Toml,
    Yaml,
}

/// The format named by a file extension that is already in lower case.
pub open spec fn variant_of_extension(ext: Seq<char>) -> Option<ConfigurationVariant> {
    if ext == "json"@ {
        Some(ConfigurationVariant::Json)
    } else if ext == "toml"@ {
        Some(ConfigurationVariant::Toml)
    } else if ext == "yaml"@ || ext == "yml"@ {
        Some(ConfigurationVariant::Yaml)
    } else {
        None
    }
}

/// Maps a lower-case file extension to the format it names.
pub fn variant_for_extension(ext: &String) -> (r: Option<ConfigurationVariant>)
    ensures
        r == variant_of_extension(ext@),
{
    proof {
        reveal_strlit("json");
        reveal_strlit("toml");
        reveal_strlit("yaml");
        reveal_strlit("yml");
    }
    if *ext == "json".to_owned() {
        Some(ConfigurationVariant::Json)
    } else if *ext == "toml".to_owned() {
        Some(ConfigurationVariant::Toml)
    } else if *ext == "yaml".to_owned() || *ext == "yml".to_owned() {
        Some(ConfigurationVariant::Yaml)
    } else {
        None
    }
}

/// The extension of the last component of a file path, when it has one.
pub uninterp spec fn extension_of(path: Seq<char>) -> Option<Seq<char>>;

/// The lower-case form of a string.
pub uninterp spec fn lower_of(s: Seq<char>) -> Seq<char>;

/// The pieces of a string between its `.` separators.
pub uninterp spec fn dot_segments(s: Seq<char>) -> Seq<Seq<char>>;

/// Relies on `std::path::Path::extension`, read back as text with `to_string_lossy`.
#[verifier::external_body]
fn path_extension(path: &str) -> (r: Option<String>)
    ensures
        r is Some <==> extension_of(path@) is Some,
        r matches Some(e) ==> extension_of(path@) == Some(e@),
{
    std::path::Path::new(path).extension().map(|x| x.to_string_lossy().into_owned())
}

/// Relies on `str::to_lowercase`.
#[verifier::external_body]
fn lowercase(s: &String) -> (r: String)
    ensures
        r@ == lower_of(s@),
{
    s.to_lowercase()
}

/// Relies on `str::split` with the separator `.`: at least one piece, and a
/// string without `.` is its only piece.
#[verifier::external_body]
fn split_dots(s: &String) -> (r: Vec<String>)
    ensures
        segs(r) == dot_segments(s@),
        segs(r).len() >= 1,
        !s@.contains('.') ==> segs(r) == seq![s@],
{
    s.split('.').map(|x| x.to_owned()).collect()
}

/// The format inferred from a file path's extension.
pub open spec fn guessed_variant(path: Seq<char>) -> Option<ConfigurationVariant> {
    match extension_of(path) {
        Some(e) => variant_of_extension(lower_of(e)),
        None => None,
    }
}

/// Infers the format of a file from its extension, ignoring case: `json`,
/// `toml`, and `yaml` or `yml`. Any other extension, or none, cannot be guessed.
pub fn guess_file_variant(path: &str) -> (r: Result<ConfigurationVariant, ConfigError>)
    ensures
        r is Ok <==> guessed_variant(path@) is Some,
        r matches Ok(v) ==> guessed_variant(path@) == Some(v),
        r matches Err(e) ==> e is CouldNotGuess,
{
    match path_extension(path) {
        Some(ext) => match variant_for_extension(&lowercase(&ext)) {
            Some(v) => Ok(v),
            None => Err(ConfigError::CouldNotGuess),
        },
        None => Err(ConfigError::CouldNotGuess),
    }
}

/// The format to write a file in: the one given, else the one its path suggests.
pub fn resolve_variant(path: &str, variant: Option<ConfigurationVariant>) -> (r: Result<
    ConfigurationVariant,
    ConfigError,
>)
    ensures
        variant matches Some(v) ==> r == Ok::<ConfigurationVariant, ConfigError>(v),
        variant is None ==> (r is Ok <==> guessed_variant(path@) is Some),
        variant is None ==> (r matches Ok(v) ==> guessed_variant(path@) == Some(v)),
        r matches Err(e) ==> e is CouldNotGuess,
{
    match variant {
        Some(v) => Ok(v),
        None => guess_file_variant(path),
    }
}

/// The field paths written as dotted names, each split into its segments.
pub open spec fn dotted_paths(names: Seq<String>) -> Seq<Seq<Seq<char>>> {
    names.map_values(|n: String| dot_segments(n@))
}

/// Splits each dotted field name into its path segments.
pub fn split_field_paths(names: &Vec<String>) -> (r: Vec<Vec<String>>)
    ensures
        path_list(r) == dotted_paths(names@),
{
    let mut r: Vec<Vec<String>> = Vec::new();
    let mut i: usize = 0;
    while i < names.len()
        invariant
            i <= names@.len(),
            r@.len() == i,
            forall|j: int| 0 <= j < i ==> segs(#[trigger] r@[j]) == dot_segments(names@[j]@),
        decreases names@.len() - i,
    {
        r.push(split_dots(&names[i]));
        i = i + 1;
    }
    assert(path_list(r) =~= dotted_paths(names@));
    r
}

/// What a merge of overlay text into the established `base` yields: the
/// format's decode error when the text does not decode or holds a leaf its
/// type refuses, else `UnknownField` when a field path names nothing, else
/// success with the merged document as the new state.
pub open spec fn merge_outcome(
    r: Result<(), ConfigError>,
    state: Option<Seq<(Seq<Seq<char>>, serde_json::Value)>>,
    base: Seq<(Seq<Seq<char>>, serde_json::Value)>,
    layout: Seq<(Seq<Seq<char>>, serde_json::Value)>,
    types: Seq<LeafType>,
    text: Option<serde_json::Value>,
    paths: Seq<Seq<Seq<char>>>,
    variant: ConfigurationVariant,
) -> bool {
    match text {
        None => r matches Err(e) && codec_error(e, variant, true),
        Some(v) => if !kinds_fit(layout, types, v) {
            r matches Err(e) && codec_error(e, variant, true)
        } else if !(forall|k: int| 0 <= k < paths.len() ==> known(base, #[trigger] paths[k])) {
            r matches Err(e) && e is UnknownField
        } else {
            r is Ok && state == Some(merged(base, sparse_of(layout, v, layout.len()), paths))
        },
    }
}

/// A type whose values are configurations with a fixed layout. An
/// implementation gives that layout; the builder then decodes and merges by it.
pub trait Configuration {
    /// The layout of this configuration, with the default value of every leaf:
    /// every leaf path non-empty, and none leading into another.
    fn schema() -> (r: Schema)
        ensures
            r.wf(),
    ;

    /// A builder with no configuration established yet.
    fn builder() -> (r: ConfigurationBuilder)
        ensures
            r.wf(),
            r.state() is None,
    {
        ConfigurationBuilder::new(Self::schema())
    }
}

/// Accumulates a configuration: first one establishing step (from text, from
/// a decoded value or from a document), then any number of merges, then `build`.
pub struct ConfigurationBuilder {
    schema: Schema,
    state: Option<Document>,
}

impl ConfigurationBuilder {
    /// The layout that the builder decodes and merges by.
    pub closed spec fn layout(&self) -> Seq<(Seq<Seq<char>>, serde_json::Value)> {
        self.schema@
    }

    /// The types of the layout's leaves.
    pub closed spec fn leaf_types(&self) -> Seq<LeafType> {
        self.schema.types()
    }

    /// The configuration established so far, if any.
    pub closed spec fn state(&self) -> Option<Seq<(Seq<Seq<char>>, serde_json::Value)>> {
        match self.state {
            Some(d) => Some(d@),
            None => None,
        }
    }

    /// The layout is well formed and the held document has exactly its leaves.
    pub closed spec fn wf(&self) -> bool {
        &&& self.schema.wf()
        &&& self.state matches Some(d) ==> d.conforms(&self.schema)
    }

    /// A builder for the layout `schema`, with nothing established.
    pub fn new(schema: Schema) -> (r: Self)
        requires
            schema.wf(),
        ensures
            r.wf(),
            r.layout() == schema@,
            r.leaf_types() == schema.types(),
            r.state() is None,
    {
        ConfigurationBuilder { schema, state: None }
    }

    /// The established configuration, or `NoConfigurationSpecified` when there is none.
    pub fn build(self) -> (r: Result<Document, ConfigError>)
        ensures
            r is Ok <==> self.state() is Some,
            r matches Ok(d) ==> self.state() == Some(d@),
            r matches Err(e) ==> e is NoConfigurationSpecified,
    {
        match self.state {
            Some(d) => Ok(d),
            None => Err(ConfigError::NoConfigurationSpecified),
        }
    }

    /// Establishes the configuration that a decoded value holds: every leaf of
    /// the layout must be present in it, with a value its type accepts.
    pub fn use_value(self, v: &serde_json::Value) -> (r: Result<Self, ConfigError>)
        requires
            self.wf(),
        ensures
            r is Ok <==> complete_in(self.layout(), self.leaf_types(), *v),
            r matches Ok(b) ==> b.wf() && b.layout() == self.layout() && b.leaf_types() == self.leaf_types()
                && b.state() == Some(full_of(self.layout(), *v)),
            r matches Err(e) ==> reports_bad_leaf(e, self.layout(), self.leaf_types(), *v),
    {
        let d = Document::from_value(&self.schema, v)?;
        assert(d.conforms(&self.schema));
        Ok(ConfigurationBuilder { schema: self.schema, state: Some(d) })
    }

    /// Establishes the configuration written as `data` in the format
    /// `variant`. Text that does not decode, that lacks a leaf of the layout,
    /// or that holds a leaf with a value its type refuses (a wrong kind, an
    /// integer out of range, a float where an integer is due) fails with the
    /// format's decode error. On failure the builder is left as it was.
    pub fn establish_from_str(&mut self, data: &str, variant: ConfigurationVariant) -> (r: Result<(), ConfigError>)
        requires
            old(self).wf(),
        ensures
            final(self).wf(),
            final(self).layout() == old(self).layout(),
            final(self).leaf_types() == old(self).leaf_types(),
            r is Ok <==> (decoded(data@, variant) matches Some(v) && complete_in(
                old(self).layout(),
                old(self).leaf_types(),
                v,
            )),
            r is Ok ==> final(self).state() == Some(full_of(old(self).layout(), decoded(data@, variant)->0)),
            r is Err ==> final(self).state() == old(self).state(),
            r matches Err(e) ==> codec_error(e, variant, true),
    {
        let v = decode(data, variant)?;
        match Document::from_value(&self.schema, &v) {
            Ok(d) => {
                self.state = Some(d);
                Ok(())
            },
            Err(ConfigError::MissingField(p)) => Err(data_error("missing field".to_owned(), &p, variant)),
            Err(ConfigError::MismatchedField(p)) => Err(
                data_error("invalid value for field".to_owned(), &p, variant),
            ),
            Err(e) => Err(e),
        }
    }

    /// Establishes the configuration written as `data` in the format
    /// `variant`, as `establish_from_str` does.
    pub fn use_str(self, data: &str, variant: ConfigurationVariant) -> (r: Result<Self, ConfigError>)
        requires
            self.wf(),
        ensures
            r is Ok <==> (decoded(data@, variant) matches Some(v) && complete_in(
                self.layout(),
                self.leaf_types(),
                v,
            )),
            r matches Ok(b) ==> b.wf() && b.layout() == self.layout() && b.leaf_types() == self.leaf_types()
                && b.state() == Some(full_of(self.layout(), decoded(data@, variant)->0)),
            r matches Err(e) ==> codec_error(e, variant, true),
    {
        let mut b = self;
        b.establish_from_str(data, variant)?;
        Ok(b)
    }

    /// Establishes `data` itself as the configuration; it must have exactly
    /// the leaves of the layout, each with a value its type accepts.
    pub fn use_document(self, data: Document) -> (r: Self)
        requires
            self.wf(),
            same_paths(data@, self.layout()),
            leaves_fit(data@, self.leaf_types()),
        ensures
            r.wf(),
            r.layout() == self.layout(),
            r.leaf_types() == self.leaf_types(),
            r.state() == Some(data@),
    {
        ConfigurationBuilder { schema: self.schema, state: Some(data) }
    }

    /// Merges a sparse overlay into the established configuration: the leaves
    /// that `field_paths` select and the overlay supplies take its values. The
    /// overlay's values must be accepted by the types of the leaves they stand at.
    pub fn merge_sparse(self, overlay: &Sparse, field_paths: &Vec<Vec<String>>) -> (r: Result<Self, ConfigError>)
        requires
            self.wf(),
            overlay_fits(overlay@, self.layout(), self.leaf_types()),
        ensures
            self.state() is None ==> (r matches Err(e) && e is NoConfigurationSpecified),
            self.state() matches Some(base) ==> {
                &&& r is Ok <==> forall|k: int|
                    0 <= k < field_paths@.len() ==> known(base, #[trigger] path_list(*field_paths)[k])
                &&& r matches Ok(b) ==> b.wf() && b.layout() == self.layout() && b.leaf_types()
                    == self.leaf_types() && b.state() == Some(merged(base, overlay@, path_list(*field_paths)))
                &&& r matches Err(e) ==> e is UnknownField
            },
    {
        match self.state {
            None => Err(ConfigError::NoConfigurationSpecified),
            Some(base) => {
                let d = merge(&base, overlay, field_paths)?;
                assert(d.conforms(&self.schema));
                Ok(ConfigurationBuilder { schema: self.schema, state: Some(d) })
            },
        }
    }

    /// Merges an overlay written as `data` in the format `variant` into the
    /// established configuration. Each of `field_paths` is a dotted field name
    /// (`"some_nest.some_int"`); only the leaves they select are taken from the
    /// overlay, and only where it supplies them. Text that does not decode, or
    /// that holds a leaf with a value its type refuses, fails with the format's
    /// decode error; a field path that names nothing fails with `UnknownField`.
    /// On failure the builder is left as it was.
    pub fn merge_from_str(&mut self, data: &str, field_paths: &Vec<String>, variant: ConfigurationVariant) -> (r:
        Result<(), ConfigError>)
        requires
            old(self).wf(),
        ensures
            final(self).wf(),
            final(self).layout() == old(self).layout(),
            final(self).leaf_types() == old(self).leaf_types(),
            r is Err ==> final(self).state() == old(self).state(),
            old(self).state() is None ==> (r matches Err(e) && e is NoConfigurationSpecified),
            old(self).state() matches Some(base) ==> merge_outcome(
                r,
                final(self).state(),
                base,
                old(self).layout(),
                old(self).leaf_types(),
                decoded(data@, variant),
                dotted_paths(field_paths@),
                variant,
            ),
    {
        let d = match &self.state {
            None => {
                return Err(ConfigError::NoConfigurationSpecified);
            },
            Some(base) => {
                let v = decode(data, variant)?;
                let overlay = match Sparse::from_value(&self.schema, &v) {
                    Ok(o) => o,
                    Err(ConfigError::MismatchedField(p)) => {
                        return Err(data_error("invalid value for field".to_owned(), &p, variant));
                    },
                    Err(e) => {
                        return Err(e);
                    },
                };
                let paths = split_field_paths(field_paths);
                assert(path_list(paths).len() == paths@.len());
                assert(dotted_paths(field_paths@).len() == field_paths@.len());
                assert((forall|k: int| 0 <= k < paths@.len() ==> known(base@, #[trigger] path_list(paths)[k]))
                    <==> (forall|k: int|
                    0 <= k < field_paths@.len() ==> known(base@, #[trigger] dotted_paths(field_paths@)[k])));
                merge(base, &overlay, &paths)?
            },
        };
        self.state = Some(d);
        Ok(())
    }

    /// Merges an overlay written as `data` in the format `variant` into the
    /// established configuration, as `merge_from_str` does.
    pub fn replace(self, data: &str, field_paths: Vec<String>, variant: ConfigurationVariant) -> (r: Result<
        Self,
        ConfigError,
    >)
        requires
            self.wf(),
        ensures
            r matches Ok(b) ==> b.wf() && b.layout() == self.layout() && b.leaf_types() == self.leaf_types(),
            self.state() is None ==> (r matches Err(e) && e is NoConfigurationSpecified),
            self.state() matches Some(base) ==> merge_outcome(
                match r {
                    Ok(_) => Ok(()),
                    Err(e) => Err(e),
                },
                match r {
                    Ok(b) => b.state(),
                    Err(_) => None,
                },
                base,
                self.layout(),
                self.leaf_types(),
                decoded(data@, variant),
                dotted_paths(field_paths@),
                variant,
            ),
    {
        let mut b = self;
        b.merge_from_str(data, &field_paths, variant)?;
        Ok(b)
    }

    /// The document with every leaf of the layout at its default value.
    pub fn default_document(&self) -> (r: Document)
        requires
            self.wf(),
        ensures
            r@ == self.layout(),
    {
        let mut out: Vec<Field> = Vec::new();
        let mut i: usize = 0;
        while i < self.schema.fields.len()
            invariant
                i <= self.schema@.len(),
                out@.len() == i,
                forall|j: int| 0 <= j < i ==> #[trigger] entries(out@)[j] == self.schema@[j],
            decreases self.schema@.len() - i,
        {
            let f = &self.schema.fields[i];
            let ghost before = out@;
            out.push(Field { path: copy_path(&f.path), value: copy_value(&f.default) });
            assert(entries(out@) =~= entries(before).push(self.schema@[i as int]));
            i = i + 1;
        }
        let d = Document { fields: out };
        assert(d@ =~= self.schema@);
        d
    }

    /// The text of `data` in the format `variant`: the encoding of the object
    /// tree that holds every leaf of `data` at its path. It fails, with the
    /// format's encode error, exactly when the format cannot write that tree.
    pub fn render(data: &Document, variant: ConfigurationVariant) -> (r: Result<String, ConfigError>)
        ensures
            exists|v: serde_json::Value|
                {
                    &&& json_is_object(v)
                    &&& within_leaves(v, data@)
                    &&& prefix_free(data@) ==> holds_leaves(v, data@)
                    &&& r is Ok <==> encoded(v, variant) is Some
                    &&& r matches Ok(s) ==> encoded(v, variant) == Some(s@)
                },
            r matches Err(e) ==> codec_error(e, variant, false),
    {
        let v = data.to_value();
        let r = encode(&v, variant);
        assert(json_is_object(v) && within_leaves(v, data@) && (prefix_free(data@) ==> holds_leaves(v, data@)) && (r is Ok <==> encoded(
            v,
            variant,
        ) is Some) && (r matches Ok(s) ==> encoded(v, variant) == Some(s@)));
        r
    }
}

} // verus!
