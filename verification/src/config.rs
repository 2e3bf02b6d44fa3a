//! Configuration for Flow type generation.

use vstd::prelude::*;
use crate::strings::to_owned_string;
use crate::paths::with_extension;

verus! {

/// The abstract contents of a [`Config`].
pub struct ConfigView {
    pub export_dir: Seq<char>,
    pub array_tuple_limit: usize,
    pub file_extension: Seq<char>,
    pub large_int_type: Seq<char>,
}

/// Configuration for Flow type generation.
pub struct Config {
    export_dir: String,
    array_tuple_limit: usize,
    file_extension: String,
    large_int_type: String,
}

impl View for Config {
    type V = ConfigView;

    closed spec fn view(&self) -> ConfigView {
        ConfigView {
            export_dir: self.export_dir@,
            array_tuple_limit: self.array_tuple_limit,
            file_extension: self.file_extension@,
            large_int_type: self.large_int_type@,
        }
    }
}

impl Default for Config {
    /// The default settings, as `Config::new` gives them.
    fn default() -> (r: Config)
        ensures
            r@.export_dir == "./bindings"@,
            r@.array_tuple_limit == 64,
            r@.file_extension == "js.flow"@,
            r@.large_int_type == "bigint"@,
    {
        Config::new()
    }
}

impl Config {
    /// Create a new config with default settings.
    pub fn new() -> (r: Config)
        ensures
            r@.export_dir == "./bindings"@,
            r@.array_tuple_limit == 64,
            r@.file_extension == "js.flow"@,
            r@.large_int_type == "bigint"@,
    {
        Config {
            export_dir: to_owned_string("./bindings"),
            array_tuple_limit: 64,
            file_extension: to_owned_string("js.flow"),
            large_int_type: to_owned_string("bigint"),
        }
    }

    /// Set the export directory.
    pub fn with_out_dir(self, dir: String) -> (r: Config)
        ensures
            r@ == (ConfigView { export_dir: dir@, ..self@ }),
    {
        Config { export_dir: dir, ..self }
    }

    /// Return the export directory.
    pub fn out_dir(&self) -> (r: &str)
        ensures
            r@ == self@.export_dir,
    {
        self.export_dir.as_str()
    }

    /// Set the maximum size of arrays up to which they are treated as Flow tuples.
    /// Arrays beyond this size will instead result in a `$ReadOnlyArray<T>`.
    pub fn with_array_tuple_limit(self, limit: usize) -> (r: Config)
        ensures
            r@ == (ConfigView { array_tuple_limit: limit, ..self@ }),
    {
        Config { array_tuple_limit: limit, ..self }
    }

    /// Return the maximum size of arrays treated as tuples.
    pub fn array_tuple_limit(&self) -> (r: usize)
        ensures
            r == self@.array_tuple_limit,
    {
        self.array_tuple_limit
    }

    /// Set the file extension for generated Flow files.
    pub fn with_file_extension(self, ext: String) -> (r: Config)
        ensures
            r@ == (ConfigView { file_extension: ext@, ..self@ }),
    {
        Config { file_extension: ext, ..self }
    }

    /// Return the file extension for generated files.
    pub fn file_extension(&self) -> (r: &str)
        ensures
            r@ == self@.file_extension,
    {
        self.file_extension.as_str()
    }

    /// Set the Flow type used for large integers (`i64`, `u64`, `i128`, `u128`).
    pub fn with_large_int(self, ty: String) -> (r: Config)
        ensures
            r@ == (ConfigView { large_int_type: ty@, ..self@ }),
    {
        Config { large_int_type: ty, ..self }
    }

    /// Return the Flow type for large integers.
    pub fn large_int(&self) -> (r: &str)
        ensures
            r@ == self@.large_int_type,
    {
        self.large_int_type.as_str()
    }

    /// Resolve a type's base output path (without extension) into a full path
    /// with extension: a path that already has an extension is kept.
    pub fn resolve_output_path(&self, base: &str) -> (r: String)
        ensures
            r@ == with_extension(base@, self@.file_extension),
    {
        crate::paths::resolve_with_extension(base, self.file_extension.as_str())
    }
}

} // verus!
