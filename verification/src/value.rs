use vstd::prelude::*;

verus! {

/// One already-typed node of a structured configuration document or of a
/// decoded credential feed. Scalars the loader never reads (floats,
/// booleans, nulls) all land on `Other`; `Binary` carries string data that
/// is not valid UTF-8.
pub enum ConfigValue {
    Text(String),
    Integer(i64),
    Sequence(Vec<ConfigValue>),
    Mapping(Vec<(String, ConfigValue)>),
    Binary(Vec<u8>),
    Other,
}

} // verus!
