use vstd::prelude::*;
use vstd::string::*;

verus! {

/// The declared type of a record field.
#[derive(Clone, Copy, Debug, PartialEq, Eq, Structural)]
pub enum FieldType {
    Text,
    UInt,
    Int,
    Bool,
    /// A non-integral number, kept as its decimal text.
    Decimal,
}

/// A value held in one field of a record.
#[derive(Clone, Debug, PartialEq, Eq)]
pub enum FieldValue {
    Text(String),
    UInt(u64),
    Int(i64),
    Bool(bool),
    /// A number written in decimal notation, such as `29.99`; the library
    /// only moves and compares it, never computes with it.
    Decimal(String),
}

/// The type that a value has.
pub open spec fn type_of(v: FieldValue) -> FieldType {
    match v {
        FieldValue::Text(_) => FieldType::Text,
        FieldValue::UInt(_) => FieldType::UInt,
        FieldValue::Int(_) => FieldType::Int,
        FieldValue::Bool(_) => FieldType::Bool,
        FieldValue::Decimal(_) => FieldType::Decimal,
    }
}

pub open spec fn digit_char(d: nat) -> char {
    seq!['0', '1', '2', '3', '4', '5', '6', '7', '8', '9'][d as int]
}

/// The decimal digits of `n`, without leading zeros.
pub open spec fn decimal(n: nat) -> Seq<char>
    decreases n,
{
    if n < 10 {
        seq![digit_char(n)]
    } else {
        decimal(n / 10).push(digit_char(n % 10))
    }
}

/// The decimal text of a signed integer.
pub open spec fn signed_decimal(n: int) -> Seq<char> {
    if n < 0 {
        seq!['-'] + decimal((-n) as nat)
    } else {
        decimal(n as nat)
    }
}

pub open spec fn bool_text(b: bool) -> Seq<char> {
    if b {
        seq!['t', 'r', 'u', 'e']
    } else {
        seq!['f', 'a', 'l', 's', 'e']
    }
}

/// The text by which a key value is handed to the backend's filters.
pub open spec fn key_text_of(v: FieldValue) -> Seq<char> {
    match v {
        FieldValue::Text(s) => s@,
        FieldValue::UInt(n) => decimal(n as nat),
        FieldValue::Int(n) => signed_decimal(n as int),
        FieldValue::Bool(b) => bool_text(b),
        FieldValue::Decimal(s) => s@,
    }
}

/// Relies on `u64`'s `Display` (through `ToString`): decimal digits, no
/// sign, no leading zeros.
#[verifier::external_body]
fn u64_text(n: u64) -> (r: String)
    ensures
        r@ == decimal(n as nat),
{
    n.to_string()
}

/// Relies on `i64`'s `Display` (through `ToString`): a `-` before the
/// digits of a negative number, no leading zeros.
#[verifier::external_body]
fn i64_text(n: i64) -> (r: String)
    ensures
        r@ == signed_decimal(n as int),
{
    n.to_string()
}

pub fn bool_string(b: bool) -> (r: String)
    ensures
        r@ == bool_text(b),
{
    let r = if b {
        String::from_str("true")
    } else {
        String::from_str("false")
    };
    proof {
        reveal_strlit("true");
        reveal_strlit("false");
    }
    r
}

impl FieldValue {
    pub fn field_type(&self) -> (r: FieldType)
        ensures
            r == type_of(*self),
    {
        match self {
            FieldValue::Text(_) => FieldType::Text,
            FieldValue::UInt(_) => FieldType::UInt,
            FieldValue::Int(_) => FieldType::Int,
            FieldValue::Bool(_) => FieldType::Bool,
            FieldValue::Decimal(_) => FieldType::Decimal,
        }
    }

    /// A copy of the value that shares nothing with it.
    pub fn duplicate(&self) -> (r: FieldValue)
        ensures
            r == *self,
    {
        match self {
            FieldValue::Text(s) => FieldValue::Text(s.clone()),
            FieldValue::UInt(n) => FieldValue::UInt(*n),
            FieldValue::Int(n) => FieldValue::Int(*n),
            FieldValue::Bool(b) => FieldValue::Bool(*b),
            FieldValue::Decimal(s) => FieldValue::Decimal(s.clone()),
        }
    }

    /// The value as text, the form in which keys reach the backend.
    pub fn key_text(&self) -> (r: String)
        ensures
            r@ == key_text_of(*self),
    {
        match self {
            FieldValue::Text(s) => s.clone(),
            FieldValue::UInt(n) => u64_text(*n),
            FieldValue::Int(n) => i64_text(*n),
            FieldValue::Bool(b) => bool_string(*b),
            FieldValue::Decimal(s) => s.clone(),
        }
    }
}

/// The field type of a Rust type, by the last segment of its path:
/// strings and UUIDs are text, the unsigned and signed integer types are
/// `UInt` and `Int`, and the float types are `Decimal`.
pub open spec fn rust_field_type(n: Seq<char>) -> Option<FieldType> {
    if n == "String"@ || n == "Uuid"@ {
        Some(FieldType::Text)
    } else if n == "u8"@ || n == "u16"@ || n == "u32"@ || n == "u64"@ || n == "usize"@ {
        Some(FieldType::UInt)
    } else if n == "i8"@ || n == "i16"@ || n == "i32"@ || n == "i64"@ || n == "isize"@ {
        Some(FieldType::Int)
    } else if n == "bool"@ {
        Some(FieldType::Bool)
    } else if n == "f32"@ || n == "f64"@ {
        Some(FieldType::Decimal)
    } else {
        None
    }
}

fn named(name: &String, lit: &str) -> (r: bool)
    ensures
        r == (name@ == lit@),
{
    *name == String::from_str(lit)
}

impl FieldType {
    /// The field type of a Rust type named `name`, where it has one.
    pub fn for_rust_type(name: &String) -> (r: Option<FieldType>)
        ensures
            r == rust_field_type(name@),
    {
        if named(name, "String") || named(name, "Uuid") {
            Some(FieldType::Text)
        } else if named(name, "u8") || named(name, "u16") || named(name, "u32") || named(name, "u64")
            || named(name, "usize") {
            Some(FieldType::UInt)
        } else if named(name, "i8") || named(name, "i16") || named(name, "i32") || named(name, "i64")
            || named(name, "isize") {
            Some(FieldType::Int)
        } else if named(name, "bool") {
            Some(FieldType::Bool)
        } else if named(name, "f32") || named(name, "f64") {
            Some(FieldType::Decimal)
        } else {
            None
        }
    }
}

/// Whether a value read from the backend can stand in a field of type `t`:
/// its own type, or an integer where a wider number type is declared.
pub open spec fn accepts(t: FieldType, v: FieldValue) -> bool {
    match v {
        FieldValue::UInt(n) => t == FieldType::UInt || t == FieldType::Decimal || (t
            == FieldType::Int && n <= i64::MAX),
        FieldValue::Int(_) => t == FieldType::Int || t == FieldType::Decimal,
        _ => t == type_of(v),
    }
}

/// `out` is what a value `v` that `t` accepts becomes in a field of type `t`.
pub open spec fn conformed(t: FieldType, v: FieldValue, out: FieldValue) -> bool {
    if type_of(v) == t {
        out == v
    } else {
        match v {
            FieldValue::UInt(n) => if t == FieldType::Int {
                out == FieldValue::Int(n as i64)
            } else {
                out is Decimal && out->Decimal_0@ == decimal(n as nat)
            },
            FieldValue::Int(n) => out is Decimal && out->Decimal_0@ == signed_decimal(n as int),
            _ => false,
        }
    }
}

impl FieldValue {
    /// Converts a value read from the backend to the declared type `t`, or
    /// `None` where `t` does not accept it.
    pub fn conform(&self, t: FieldType) -> (r: Option<FieldValue>)
        ensures
            r is Some <==> accepts(t, *self),
            r is Some ==> conformed(t, *self, r->0),
            r is Some ==> type_of(r->0) == t,
    {
        match self {
            FieldValue::UInt(n) => {
                match t {
                    FieldType::UInt => Some(FieldValue::UInt(*n)),
                    FieldType::Int => if *n <= i64::MAX as u64 {
                        Some(FieldValue::Int(*n as i64))
                    } else {
                        None
                    },
                    FieldType::Decimal => Some(FieldValue::Decimal(u64_text(*n))),
                    _ => None,
                }
            },
            FieldValue::Int(n) => {
                match t {
                    FieldType::Int => Some(FieldValue::Int(*n)),
                    FieldType::Decimal => Some(FieldValue::Decimal(i64_text(*n))),
                    _ => None,
                }
            },
            _ => {
                if self.field_type() == t {
                    Some(self.duplicate())
                } else {
                    None
                }
            },
        }
    }
}

} // verus!
