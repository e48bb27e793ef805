use vstd::prelude::*;

verus! {

/// A plain model of a JSON value, rich enough to carry any field of a
/// provider's token-endpoint response through the engine unchanged.
///
/// The engine itself only ever reads strings and integers out of a response
/// body; every other value is held opaquely and handed on exactly as it
/// arrived. Numbers outside the `i64` range (including fractional ones) are
/// kept as their decimal source text in `Num`, so nothing is rounded or
/// re-encoded behind the application's back.
#[derive(PartialEq, Debug)]
pub enum JsonValue {
    /// The JSON constant `null`.
    Null,
    /// A JSON boolean.
    Bool(bool),
    /// A JSON number that is an integer in the `i64` range.
    Int(i64),
    /// Any other JSON number, kept as its decimal text.
    Num(String),
    /// A JSON string.
    Str(String),
    /// A JSON array.
    Arr(Vec<JsonValue>),
    /// A JSON object, as its fields in source order.
    Obj(Vec<(String, JsonValue)>),
}

} // verus!
