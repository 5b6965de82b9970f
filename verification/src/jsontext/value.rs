use vstd::prelude::*;

verus! {

/// A value as the tolerant decoder classifies it: the scalar shapes the
/// envelope schema uses are kept, every other well-formed value is recorded
/// only by kind.
pub enum JsonVal {
    Null,
    Bool(bool),
    /// A plain nonnegative integer literal whose value fits 64 bits.
    UInt(nat),
    /// A well-formed number literal of any other shape: negative, fractional,
    /// with an exponent, or too large for 64 bits.
    NumOther,
    Str(Seq<char>),
    /// A well-formed array or object, which the schema ignores.
    Composite,
}


/// A parsed value as the executable scanner yields it.
pub enum JsonValue {
    Null,
    Bool(bool),
    UInt(u64),
    NumOther,
    Str(Vec<char>),
    Composite,
}

impl View for JsonValue {
    type V = JsonVal;

    open spec fn view(&self) -> JsonVal {
        match self {
            JsonValue::Null => JsonVal::Null,
            JsonValue::Bool(b) => JsonVal::Bool(*b),
            JsonValue::UInt(n) => JsonVal::UInt(*n as nat),
            JsonValue::NumOther => JsonVal::NumOther,
            JsonValue::Str(t) => JsonVal::Str(t@),
            JsonValue::Composite => JsonVal::Composite,
        }
    }
}


} // verus!
