//! The text buffer of generation, and the rendering of type references and
//! literal values.

use crate::ir::{GenericParameter, TypeKind, TypeRef, ValueRef};
use crate::name::{internal_path_of, join_with, to_internal_name};
use vstd::prelude::*;

verus! {

broadcast use vstd::std_specs::vec::group_vec_axioms;

/// Why generation gave up.
#[derive(Debug, PartialEq, Eq)]
pub enum GenError {
    /// A built-in type code that has no Rust type in the table.
    UnsupportedType(i32),
    /// An empty name where a statement or a referenced type needs one.
    InvalidName,
}

/// The built-in types that the generator knows how to render.
#[derive(Clone, Copy, Debug, PartialEq, Eq, Structural)]
pub enum KnownType {
    Object,
    String,
    Guid,
    Uri,
    Boolean,
    UInt8,
    Int8,
    Int16,
    UInt16,
    Int32,
    UInt32,
    Int64,
    UInt64,
    Float32,
    Float64,
    DateOnly,
    TimeOnly,
    DateTimeOffset,
    TimeSpan,
    Array,
    StringMap,
    Query,
    Command,
    Attribute,
    AuthorizeWhenAttribute,
    AuthorizeWhenHasAnyOfAttribute,
}

/// The built-in type that a wire code stands for, if the table has one.
pub open spec fn known_of_code(code: i32) -> Option<KnownType> {
    if code == 0 {
        Some(KnownType::Object)
    } else if code == 1 {
        Some(KnownType::String)
    } else if code == 2 {
        Some(KnownType::Guid)
    } else if code == 3 {
        Some(KnownType::Uri)
    } else if code == 4 {
        Some(KnownType::Boolean)
    } else if code == 100 {
        Some(KnownType::UInt8)
    } else if code == 101 {
        Some(KnownType::Int8)
    } else if code == 102 {
        Some(KnownType::Int16)
    } else if code == 103 {
        Some(KnownType::UInt16)
    } else if code == 104 {
        Some(KnownType::Int32)
    } else if code == 105 {
        Some(KnownType::UInt32)
    } else if code == 106 {
        Some(KnownType::Int64)
    } else if code == 107 {
        Some(KnownType::UInt64)
    } else if code == 150 {
        Some(KnownType::Float32)
    } else if code == 151 {
        Some(KnownType::Float64)
    } else if code == 200 {
        Some(KnownType::DateOnly)
    } else if code == 201 {
        Some(KnownType::TimeOnly)
    } else if code == 202 {
        Some(KnownType::DateTimeOffset)
    } else if code == 203 {
        Some(KnownType::TimeSpan)
    } else if code == 300 {
        Some(KnownType::Array)
    } else if code == 301 {
        Some(KnownType::StringMap)
    } else if code == 1000 {
        Some(KnownType::Query)
    } else if code == 1001 {
        Some(KnownType::Command)
    } else if code == 1100 {
        Some(KnownType::Attribute)
    } else if code == 1101 {
        Some(KnownType::AuthorizeWhenAttribute)
    } else if code == 1102 {
        Some(KnownType::AuthorizeWhenHasAnyOfAttribute)
    } else {
        None
    }
}

/// The Rust type that renders a built-in type.
pub open spec fn known_text(k: KnownType) -> Seq<char> {
    match k {
        KnownType::Object => "serde_json::Value"@,
        KnownType::String => "String"@,
        KnownType::Guid => "String"@,
        KnownType::Uri => "String"@,
        KnownType::Boolean => "bool"@,
        KnownType::UInt8 => "u8"@,
        KnownType::Int8 => "i8"@,
        KnownType::Int16 => "i16"@,
        KnownType::UInt16 => "u16"@,
        KnownType::Int32 => "i32"@,
        KnownType::UInt32 => "u32"@,
        KnownType::Int64 => "i64"@,
        KnownType::UInt64 => "u64"@,
        KnownType::Float32 => "f32"@,
        KnownType::Float64 => "f64"@,
        KnownType::DateOnly => "String"@,
        KnownType::TimeOnly => "String"@,
        KnownType::DateTimeOffset => "String"@,
        KnownType::TimeSpan => "String"@,
        KnownType::Array => "Vec"@,
        KnownType::StringMap => "std::collections::HashMap"@,
        KnownType::Query => "Box<dyn cqrs_server::Query>"@,
        KnownType::Command => "Box<dyn cqrs_server::Command>"@,
        KnownType::Attribute => "()"@,
        KnownType::AuthorizeWhenAttribute => "()"@,
        KnownType::AuthorizeWhenHasAnyOfAttribute => "()"@,
    }
}

impl KnownType {
    /// The built-in type of a wire code; `None` where the table has none.
    pub fn from_code(code: i32) -> (r: Option<KnownType>)
        ensures
            r == known_of_code(code),
    {
        match code {
            0 => Some(KnownType::Object),
            1 => Some(KnownType::String),
            2 => Some(KnownType::Guid),
            3 => Some(KnownType::Uri),
            4 => Some(KnownType::Boolean),
            100 => Some(KnownType::UInt8),
            101 => Some(KnownType::Int8),
            102 => Some(KnownType::Int16),
            103 => Some(KnownType::UInt16),
            104 => Some(KnownType::Int32),
            105 => Some(KnownType::UInt32),
            106 => Some(KnownType::Int64),
            107 => Some(KnownType::UInt64),
            150 => Some(KnownType::Float32),
            151 => Some(KnownType::Float64),
            200 => Some(KnownType::DateOnly),
            201 => Some(KnownType::TimeOnly),
            202 => Some(KnownType::DateTimeOffset),
            203 => Some(KnownType::TimeSpan),
            300 => Some(KnownType::Array),
            301 => Some(KnownType::StringMap),
            1000 => Some(KnownType::Query),
            1001 => Some(KnownType::Command),
            1100 => Some(KnownType::Attribute),
            1101 => Some(KnownType::AuthorizeWhenAttribute),
            1102 => Some(KnownType::AuthorizeWhenHasAnyOfAttribute),
            _ => None,
        }
    }

    /// The Rust type that renders this built-in type.
    pub fn rust_type(self) -> (r: &'static str)
        ensures
            r@ == known_text(self),
    {
        match self {
            KnownType::Object => "serde_json::Value",
            KnownType::String => "String",
            KnownType::Guid => "String",
            KnownType::Uri => "String",
            KnownType::Boolean => "bool",
            KnownType::UInt8 => "u8",
            KnownType::Int8 => "i8",
            KnownType::Int16 => "i16",
            KnownType::UInt16 => "u16",
            KnownType::Int32 => "i32",
            KnownType::UInt32 => "u32",
            KnownType::Int64 => "i64",
            KnownType::UInt64 => "u64",
            KnownType::Float32 => "f32",
            KnownType::Float64 => "f64",
            KnownType::DateOnly => "String",
            KnownType::TimeOnly => "String",
            KnownType::DateTimeOffset => "String",
            KnownType::TimeSpan => "String",
            KnownType::Array => "Vec",
            KnownType::StringMap => "std::collections::HashMap",
            KnownType::Query => "Box<dyn cqrs_server::Query>",
            KnownType::Command => "Box<dyn cqrs_server::Command>",
            KnownType::Attribute => "()",
            KnownType::AuthorizeWhenAttribute => "()",
            KnownType::AuthorizeWhenHasAnyOfAttribute => "()",
        }
    }
}


/// Four spaces for each level.
pub open spec fn indent_text(n: nat) -> Seq<char>
    decreases n,
{
    if n == 0 {
        Seq::empty()
    } else {
        indent_text((n - 1) as nat) + "    "@
    }
}

/// The character of a decimal digit.
pub open spec fn digit_char(d: nat) -> char {
    if d == 0 {
        '0'
    } else if d == 1 {
        '1'
    } else if d == 2 {
        '2'
    } else if d == 3 {
        '3'
    } else if d == 4 {
        '4'
    } else if d == 5 {
        '5'
    } else if d == 6 {
        '6'
    } else if d == 7 {
        '7'
    } else if d == 8 {
        '8'
    } else {
        '9'
    }
}

/// The decimal digits of a natural number, without leading zeros.
pub open spec fn nat_text(n: nat) -> Seq<char>
    decreases n,
{
    if n < 10 {
        seq![digit_char(n)]
    } else {
        nat_text(n / 10).push(digit_char(n % 10))
    }
}

/// The decimal text of an integer, with a leading `-` when negative.
pub open spec fn int_text(n: int) -> Seq<char> {
    if n < 0 {
        seq!['-'] + nat_text((-n) as nat)
    } else {
        nat_text(n as nat)
    }
}

/// A reference to another generated type, from the crate root.
pub open spec fn internal_ref_text(name: Seq<char>) -> Seq<char> {
    "crate::"@ + internal_path_of(name)
}

/// The first `n` type arguments rendered and separated by `, `; `None` when
/// one of them names an unsupported built-in type.
pub open spec fn args_joined(v: Vec<TypeRef>, n: nat) -> Option<Seq<char>>
    decreases v, n,
{
    if n == 0 || n > v.len() {
        Some(Seq::empty())
    } else {
        match (args_joined(v, (n - 1) as nat), type_ref_text(v[n - 1])) {
            (Some(prev), Some(last)) => Some(
                if n == 1 {
                    last
                } else {
                    prev + ", "@ + last
                },
            ),
            _ => None,
        }
    }
}

/// The type arguments in angle brackets, or nothing when there are none.
pub open spec fn args_text(v: Vec<TypeRef>) -> Option<Seq<char>>
    decreases v, v.len() + 1,
{
    if v.len() == 0 {
        Some(Seq::empty())
    } else {
        match args_joined(v, v.len() as nat) {
            Some(j) => Some("<"@ + j + ">"@),
            None => None,
        }
    }
}

/// The Rust type that renders a type reference; `None` when it, or one of
/// its arguments, names a built-in type that the table lacks or refers to
/// another type by an empty name.
pub open spec fn type_ref_text(t: TypeRef) -> Option<Seq<char>>
    decreases t, 0nat,
{
    let inner = match t.kind {
        TypeKind::Generic { name } => Some(name@),
        TypeKind::Internal { name, arguments } => if name@.len() == 0 {
            None
        } else {
            match args_text(arguments) {
                Some(a) => Some(internal_ref_text(name@) + a),
                None => None,
            }
        },
        TypeKind::Known { code, arguments } => match (known_of_code(code), args_text(arguments)) {
            (Some(k), Some(a)) => Some(known_text(k) + a),
            _ => None,
        },
    };
    match inner {
        Some(i) => Some(
            if t.nullable {
                "Option<"@ + i + ">"@
            } else {
                i
            },
        ),
        None => None,
    }
}

/// The names of generic parameters in angle brackets, or nothing when there
/// are none.
pub open spec fn generic_params_text(ps: Seq<GenericParameter>) -> Seq<char> {
    if ps.len() == 0 {
        Seq::empty()
    } else {
        "<"@ + join_with(ps.map_values(|p: GenericParameter| p.name@), ", "@) + ">"@
    }
}

/// The literal text of a value.
pub open spec fn value_text(v: ValueRef) -> Seq<char> {
    match v {
        ValueRef::Null => "None"@,
        ValueRef::Number(n) => int_text(n as int),
        ValueRef::FloatingPoint(f) => f@,
        ValueRef::String(s) => "\""@ + s@ + "\""@,
        ValueRef::Bool(b) => if b {
            "true"@
        } else {
            "false"@
        },
    }
}

/// The Rust type of a value's literal.
pub open spec fn value_type_text(v: ValueRef) -> Seq<char> {
    match v {
        ValueRef::Null => "Option<()>"@,
        ValueRef::Number(_) => "i64"@,
        ValueRef::FloatingPoint(_) => "f64"@,
        ValueRef::String(_) => "&'static str"@,
        ValueRef::Bool(_) => "bool"@,
    }
}

/// A growing buffer of generated text.
pub struct CodeBuilder {
    data: String,
}

impl View for CodeBuilder {
    type V = Seq<char>;

    closed spec fn view(&self) -> Seq<char> {
        self.data@
    }
}

impl CodeBuilder {
    /// An empty buffer.
    pub fn new() -> (r: Self)
        ensures
            r@ == Seq::<char>::empty(),
    {
        CodeBuilder { data: String::new() }
    }

    /// Appends four spaces for each level.
    pub fn indent(&mut self, size: usize)
        ensures
            final(self)@ == old(self)@ + indent_text(size as nat),
    {
        for k in 0..size
            invariant
                self@ == old(self)@ + indent_text(k as nat),
        {
            self.data.append("    ");
            assert(self@ =~= old(self)@ + indent_text((k + 1) as nat));
        }
    }

    /// Ends the line.
    pub fn finish(&mut self)
        ensures
            final(self)@ == old(self)@ + "\n"@,
    {
        self.data.append("\n");
    }

    /// Appends a text as it is.
    pub fn append(&mut self, data: &str)
        ensures
            final(self)@ == old(self)@ + data@,
    {
        self.data.append(data);
    }

    /// The text built so far.
    pub fn build(self) -> (r: String)
        ensures
            r@ == self@,
    {
        self.data
    }

    /// Appends the Rust type of a built-in type.
    pub fn append_known_type(&mut self, known: KnownType)
        ensures
            final(self)@ == old(self)@ + known_text(known),
    {
        self.data.append(known.rust_type());
    }

    fn append_digits(&mut self, n: u64)
        ensures
            final(self)@ == old(self)@ + nat_text(n as nat),
        decreases n,
    {
        if n >= 10 {
            self.append_digits(n / 10);
        }
        let d = n % 10;
        let digit = if d == 0 {
            "0"
        } else if d == 1 {
            "1"
        } else if d == 2 {
            "2"
        } else if d == 3 {
            "3"
        } else if d == 4 {
            "4"
        } else if d == 5 {
            "5"
        } else if d == 6 {
            "6"
        } else if d == 7 {
            "7"
        } else if d == 8 {
            "8"
        } else {
            "9"
        };
        proof {
            reveal_strlit("0");
            reveal_strlit("1");
            reveal_strlit("2");
            reveal_strlit("3");
            reveal_strlit("4");
            reveal_strlit("5");
            reveal_strlit("6");
            reveal_strlit("7");
            reveal_strlit("8");
            reveal_strlit("9");
        }
        assert(digit@ =~= seq![digit_char(d as nat)]);
        self.data.append(digit);
        assert(self@ =~= old(self)@ + nat_text(n as nat));
    }

    /// Appends the decimal text of an integer.
    pub fn append_integer(&mut self, n: i64)
        ensures
            final(self)@ == old(self)@ + int_text(n as int),
    {
        if n < 0 {
            self.data.append("-");
            let magnitude: u64 = (-(n as i128)) as u64;
            self.append_digits(magnitude);
            proof {
                reveal_strlit("-");
            }
            assert(self@ =~= old(self)@ + int_text(n as int));
        } else {
            self.append_digits(n as u64);
        }
    }

    /// Appends the literal text of a value.
    pub fn append_value_ref_value(&mut self, value: &ValueRef)
        ensures
            final(self)@ == old(self)@ + value_text(*value),
    {
        match value {
            ValueRef::Null => self.data.append("None"),
            ValueRef::Number(n) => self.append_integer(*n),
            ValueRef::FloatingPoint(f) => self.data.append(f.as_str()),
            ValueRef::String(s) => {
                self.data.append("\"");
                self.data.append(s.as_str());
                self.data.append("\"");
                assert(self@ =~= old(self)@ + value_text(*value));
            },
            ValueRef::Bool(b) => if *b {
                self.data.append("true")
            } else {
                self.data.append("false")
            },
        }
    }

    /// Appends the Rust type of a value's literal.
    pub fn append_value_ref_type(&mut self, value: &ValueRef)
        ensures
            final(self)@ == old(self)@ + value_type_text(*value),
    {
        let t = match value {
            ValueRef::Null => "Option<()>",
            ValueRef::Number(_) => "i64",
            ValueRef::FloatingPoint(_) => "f64",
            ValueRef::String(_) => "&'static str",
            ValueRef::Bool(_) => "bool",
        };
        self.data.append(t);
    }

    /// Appends a reference to another generated type, from the crate root.
    pub fn append_internal_name(&mut self, name: &str)
        requires
            name@.len() > 0,
        ensures
            final(self)@ == old(self)@ + internal_ref_text(name@),
    {
        self.data.append("crate::");
        let path = to_internal_name(name);
        self.data.append(path.as_str());
        assert(self@ =~= old(self)@ + internal_ref_text(name@));
    }

    /// Appends the names of generic parameters in angle brackets, or nothing
    /// when there are none.
    pub fn append_generic_parameters(&mut self, args: &Vec<GenericParameter>)
        ensures
            final(self)@ == old(self)@ + generic_params_text(args@),
    {
        let n = args.len();
        if n == 0 {
            assert(self@ =~= old(self)@ + generic_params_text(args@));
            return;
        }
        let ghost names = args@.map_values(|p: GenericParameter| p.name@);
        self.data.append("<");
        for i in 0..n
            invariant
                n == args.len(),
                names == args@.map_values(|p: GenericParameter| p.name@),
                self@ == old(self)@ + "<"@ + join_with(names.take(i as int), ", "@),
        {
            if i > 0 {
                self.data.append(", ");
            }
            self.data.append(args[i].name.as_str());
            assert(names.take(i + 1 as int).drop_last() =~= names.take(i as int));
            assert(i == 0 ==> join_with(names.take(1), ", "@) == names[0]);
            assert(self@ =~= old(self)@ + "<"@ + join_with(names.take(i + 1 as int), ", "@));
        }
        self.data.append(">");
        assert(names.take(n as int) =~= names);
        assert(self@ =~= old(self)@ + generic_params_text(args@));
    }

    /// Appends the Rust type that renders a type reference. Fails on a
    /// built-in type that the table lacks, or on a reference to another
    /// type by an empty name, with what came before left in the buffer.
    pub fn append_type_ref(&mut self, type_ref: &TypeRef) -> (r: Result<(), GenError>)
        ensures
            r is Ok <==> type_ref_text(*type_ref) is Some,
            r is Ok ==> final(self)@ == old(self)@ + type_ref_text(*type_ref)->0,
            r matches Err(GenError::UnsupportedType(c)) ==> known_of_code(c) is None,
        decreases type_ref, 0nat,
    {
        if type_ref.nullable {
            self.data.append("Option<");
        }
        match &type_ref.kind {
            TypeKind::Generic { name } => {
                self.data.append(name.as_str());
            },
            TypeKind::Internal { name, arguments } => {
                if name.as_str().is_empty() {
                    return Err(GenError::InvalidName);
                }
                self.append_internal_name(name.as_str());
                let r = self.append_generic_arguments(arguments);
                if r.is_err() {
                    return r;
                }
            },
            TypeKind::Known { code, arguments } => {
                match KnownType::from_code(*code) {
                    Some(k) => self.append_known_type(k),
                    None => {
                        return Err(GenError::UnsupportedType(*code));
                    },
                }
                let r = self.append_generic_arguments(arguments);
                if r.is_err() {
                    return r;
                }
            },
        }
        if type_ref.nullable {
            self.data.append(">");
        }
        assert(self@ =~= old(self)@ + type_ref_text(*type_ref)->0);
        Ok(())
    }

    /// Appends type arguments in angle brackets, or nothing when there are
    /// none. Fails on a built-in type that the table lacks.
    pub fn append_generic_arguments(&mut self, args: &Vec<TypeRef>) -> (r: Result<(), GenError>)
        ensures
            r is Ok <==> args_text(*args) is Some,
            r is Ok ==> final(self)@ == old(self)@ + args_text(*args)->0,
            r matches Err(GenError::UnsupportedType(c)) ==> known_of_code(c) is None,
        decreases args, args.len() + 1,
    {
        let n = args.len();
        if n == 0 {
            assert(self@ =~= old(self)@ + args_text(*args)->0);
            return Ok(());
        }
        self.data.append("<");
        for i in 0..n
            invariant
                n == args.len(),
                args_joined(*args, i as nat) is Some,
                self@ == old(self)@ + "<"@ + args_joined(*args, i as nat)->0,
        {
            if i > 0 {
                self.data.append(", ");
            }
            let r = self.append_type_ref(&args[i]);
            if r.is_err() {
                proof {
                    lemma_args_joined_fails(*args, (i + 1) as nat, n as nat);
                }
                return r;
            }
            assert(self@ =~= old(self)@ + "<"@ + args_joined(*args, (i + 1) as nat)->0);
        }
        self.data.append(">");
        assert(self@ =~= old(self)@ + args_text(*args)->0);
        Ok(())
    }
}

/// A nullable reference renders as `Option<..>` around what the same
/// reference renders as when not nullable.
pub proof fn lemma_nullable_wraps(nullable: TypeRef, plain: TypeRef)
    requires
        nullable.nullable,
        !plain.nullable,
        nullable.kind == plain.kind,
    ensures
        type_ref_text(nullable) == match type_ref_text(plain) {
            Some(t) => Some("Option<"@ + t + ">"@),
            None => None,
        },
{
}

/// A built-in type that the table lacks never renders, whatever its
/// arguments and nullability: there is no fallback type.
pub proof fn lemma_unsupported_known_type(t: TypeRef)
    requires
        t.kind is Known,
        known_of_code(t.kind->code) is None,
    ensures
        type_ref_text(t) is None,
{
}

/// Once a prefix of the arguments fails to render, every longer one fails.
proof fn lemma_args_joined_fails(v: Vec<TypeRef>, i: nat, n: nat)
    requires
        0 < i <= n <= v.len(),
        args_joined(v, i) is None,
    ensures
        args_joined(v, n) is None,
    decreases n - i,
{
    if i < n {
        lemma_args_joined_fails(v, i + 1, n);
    }
}

} // verus!
