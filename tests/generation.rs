use cqrs_generator::code_builder::{CodeBuilder, GenError, KnownType};
use cqrs_generator::hierarchy::{from_export, generate_code, Hierarchy};
use cqrs_generator::ir::{
    Constant, Content, EnumMember, ErrorCode, Export, GenericParameter, Property, Statement,
    TypeDescriptor, TypeKind, TypeRef, ValueRef,
};
use cqrs_generator::name::{
    get_type, split_fullname, to_const, to_field, to_internal_name, to_namespace, to_type,
};
use cqrs_generator::stmt_builder::StmtBuilder;

const ENUM_DERIVE: &str =
    "#[derive(Copy, Clone, Debug, Serialize_repr, Deserialize_repr, PartialEq)]";

fn empty_descriptor() -> TypeDescriptor {
    TypeDescriptor {
        constants: vec![],
        properties: vec![],
        extends: vec![],
        generic_parameters: vec![],
    }
}

fn known(code: i32, nullable: bool) -> TypeRef {
    TypeRef { nullable, kind: TypeKind::Known { code, arguments: vec![] } }
}

fn dto(name: &str) -> Statement {
    Statement { name: name.to_string(), content: Content::Dto { descriptor: empty_descriptor() } }
}

fn export_of(statements: Vec<Statement>) -> Export {
    Export { project_name: "Project".to_string(), statements }
}

fn render(t: &TypeRef) -> Result<String, GenError> {
    let mut b = CodeBuilder::new();
    b.append_type_ref(t)?;
    Ok(b.build())
}

fn emit(stmt: &Statement) -> Result<String, GenError> {
    let mut b = StmtBuilder::new();
    b.append_statemet(stmt)?;
    Ok(b.build())
}

#[test]
fn casing_helpers() {
    assert_eq!(to_namespace("FooBar"), "foo_bar");
    assert_eq!(to_type("foo_bar"), "FooBar");
    assert_eq!(to_const("fooBar"), "FOO_BAR");
    assert_eq!(to_field("SiteName"), "site_name");
    assert_eq!(to_field("Type"), "r#type");
}

#[test]
fn dotted_names() {
    let f = split_fullname("Manager.Configuration.CreateSite");
    assert_eq!(f.namespaces, vec!["manager".to_string(), "configuration".to_string()]);
    assert_eq!(f.name, "CreateSite");
    let root = split_fullname("Root");
    assert!(root.namespaces.is_empty());
    assert_eq!(root.name, "Root");
    assert_eq!(to_internal_name("Shared.AddressDto"), "shared::AddressDto");
    assert_eq!(to_internal_name("Single"), "Single");
    assert_eq!(get_type("a.b.LeafName"), "LeafName");
    assert_eq!(get_type("LeafName"), "LeafName");
}

#[test]
fn known_type_codes() {
    assert_eq!(KnownType::from_code(4), Some(KnownType::Boolean));
    assert_eq!(KnownType::from_code(106), Some(KnownType::Int64));
    assert_eq!(KnownType::from_code(999), None);
    assert_eq!(KnownType::StringMap.rust_type(), "std::collections::HashMap");
}

#[test]
fn nullable_rendering() {
    assert_eq!(render(&known(4, true)).unwrap(), "Option<bool>");
    assert_eq!(render(&known(4, false)).unwrap(), "bool");
}

#[test]
fn nested_type_arguments() {
    let t = TypeRef {
        nullable: false,
        kind: TypeKind::Known { code: 301, arguments: vec![known(1, false), known(104, true)] },
    };
    assert_eq!(render(&t).unwrap(), "std::collections::HashMap<String, Option<i32>>");
    let internal = TypeRef {
        nullable: true,
        kind: TypeKind::Internal {
            name: "Shared.PageOf".to_string(),
            arguments: vec![TypeRef {
                nullable: false,
                kind: TypeKind::Generic { name: "T".to_string() },
            }],
        },
    };
    assert_eq!(render(&internal).unwrap(), "Option<crate::shared::PageOf<T>>");
}

#[test]
fn unsupported_type() {
    assert_eq!(render(&known(12345, false)), Err(GenError::UnsupportedType(12345)));
    let nested = TypeRef {
        nullable: false,
        kind: TypeKind::Known { code: 300, arguments: vec![known(-7, true)] },
    };
    assert_eq!(render(&nested), Err(GenError::UnsupportedType(-7)));
    let export = export_of(vec![Statement {
        name: "Q".to_string(),
        content: Content::Query { descriptor: empty_descriptor(), return_type: known(777, false) },
    }]);
    assert_eq!(generate_code(export), Err(GenError::UnsupportedType(777)));
}

#[test]
fn value_literals() {
    let mut b = CodeBuilder::new();
    b.append_value_ref_value(&ValueRef::Number(-1234));
    b.append(" ");
    b.append_value_ref_value(&ValueRef::Number(i64::MIN));
    b.append(" ");
    b.append_value_ref_value(&ValueRef::Number(0));
    b.append(" ");
    b.append_value_ref_value(&ValueRef::Bool(false));
    b.append(" ");
    b.append_value_ref_value(&ValueRef::Null);
    b.append(" ");
    b.append_value_ref_value(&ValueRef::FloatingPoint("2.5".to_string()));
    assert_eq!(b.build(), "-1234 -9223372036854775808 0 false None 2.5");
    let mut t = CodeBuilder::new();
    t.append_value_ref_type(&ValueRef::Null);
    t.append_value_ref_type(&ValueRef::Number(1));
    t.append_value_ref_type(&ValueRef::String("x".to_string()));
    assert_eq!(t.build(), "Option<()>i64&'static str");
}

#[test]
fn enum_fidelity() {
    let stmt = Statement {
        name: "Colors.Color".to_string(),
        content: Content::Enum {
            members: vec![
                EnumMember { name: "Red".to_string(), value: 0 },
                EnumMember { name: "Green".to_string(), value: 1 },
            ],
        },
    };
    let expected = format!(
        "{}\n#[repr(i64)]\n#[allow(non_camel_case_types)]\npub enum Color {{\n    Red = 0,\n    Green = 1,\n}}\n",
        ENUM_DERIVE
    );
    assert_eq!(emit(&stmt).unwrap(), expected);
}

#[test]
fn enum_gaps_keep_discriminants() {
    let stmt = Statement {
        name: "Level".to_string(),
        content: Content::Enum {
            members: vec![
                EnumMember { name: "High".to_string(), value: 10 },
                EnumMember { name: "Low".to_string(), value: -3 },
            ],
        },
    };
    let text = emit(&stmt).unwrap();
    assert!(text.contains("    High = 10,\n    Low = -3,\n"));
}

fn command(name: &str, error_codes: Vec<ErrorCode>) -> Statement {
    Statement {
        name: name.to_string(),
        content: Content::Command { descriptor: empty_descriptor(), error_codes },
    }
}

#[test]
fn error_code_flattening() {
    let codes = vec![ErrorCode::Group {
        name: "Validation".to_string(),
        inner_codes: vec![
            ErrorCode::Single { name: "Empty".to_string(), code: 1 },
            ErrorCode::Group {
                name: "Range".to_string(),
                inner_codes: vec![ErrorCode::Single { name: "TooLong".to_string(), code: 2 }],
            },
        ],
    }];
    let text = emit(&command("Sites.CreateSite", codes)).unwrap();
    let enum_block = format!(
        "{}\n#[repr(i64)]\npub enum CreateSiteErrorCodes {{\n    ValidationEmpty = 1,\n    ValidationRangeTooLong = 2,\n}}\n",
        ENUM_DERIVE
    );
    assert!(text.contains(&enum_block));
}

#[test]
fn empty_error_codes() {
    let text = emit(&command("DoIt", vec![])).unwrap();
    let enum_block = format!(
        "{}\n#[repr(i64)]\npub enum DoItErrorCodes {{\n    __MarkerForEmptyErrorCodes = 0,\n}}\n",
        ENUM_DERIVE
    );
    assert!(text.contains(&enum_block));
}

#[test]
fn command_full_text() {
    let text = emit(&command("a.DoIt", vec![ErrorCode::Single { name: "Bad".to_string(), code: 5 }]))
        .unwrap();
    let expected = format!(
        "#[derive(Clone, Debug, Serialize, Deserialize)]\n#[serde(rename_all = \"PascalCase\")]\npub struct DoIt {{\n}}\n{}\n#[repr(i64)]\npub enum DoItErrorCodes {{\n    Bad = 5,\n}}\nimpl cqrs_server::Command for DoIt {{\n    type ErrorCodes = DoItErrorCodes;\n    \n    fn name() -> &'static str {{\n        \"a.DoIt\"\n    }}\n}}\n",
        ENUM_DERIVE
    );
    assert_eq!(text, expected);
}

#[test]
fn query_with_generics() {
    let descriptor = TypeDescriptor {
        constants: vec![],
        properties: vec![Property { name: "PageSize".to_string(), type_ref: known(104, false) }],
        extends: vec![],
        generic_parameters: vec![GenericParameter { name: "T".to_string() }],
    };
    let stmt = Statement {
        name: "Tech.MyWorkFor".to_string(),
        content: Content::Query {
            descriptor,
            return_type: TypeRef {
                nullable: false,
                kind: TypeKind::Known { code: 300, arguments: vec![known(1, false)] },
            },
        },
    };
    let expected = "#[derive(Clone, Debug, Serialize, Deserialize)]\n#[serde(rename_all = \"PascalCase\")]\npub struct MyWorkFor<T> {\n    pub page_size: i32, \n    t: std::marker::PhantomData<T>,\n}\nimpl<T> cqrs_server::Query for MyWorkFor {\n    type Result = Vec<String>;\n    \n    fn name() -> &'static str {\n        \"Tech.MyWorkFor\"\n    }\n}\n";
    assert_eq!(emit(&stmt).unwrap(), expected);
}

#[test]
fn constant_round_trip() {
    let descriptor = TypeDescriptor {
        constants: vec![Constant { name: "Foo".to_string(), value: ValueRef::String("bar".to_string()) }],
        properties: vec![],
        extends: vec![],
        generic_parameters: vec![],
    };
    let stmt = Statement { name: "Limits".to_string(), content: Content::Dto { descriptor } };
    let text = emit(&stmt).unwrap();
    let expected_props = "#[allow(unused_imports, dead_code)]\npub mod limits_props {\n    use serde::{Serialize, Deserialize};\n    use serde_repr::{Serialize_repr, Deserialize_repr};\n    pub const FOO: &'static str = \"bar\";\n}\n";
    assert!(text.starts_with(expected_props));
}

#[test]
fn extends_only_internal() {
    let descriptor = TypeDescriptor {
        constants: vec![],
        properties: vec![],
        extends: vec![
            TypeRef {
                nullable: false,
                kind: TypeKind::Internal { name: "Shared.BaseDto".to_string(), arguments: vec![] },
            },
            known(1, false),
        ],
        generic_parameters: vec![],
    };
    let stmt = Statement { name: "Child".to_string(), content: Content::Dto { descriptor } };
    let text = emit(&stmt).unwrap();
    assert!(text.contains("pub struct Child {\n    pub base_dto: crate::shared::BaseDto, \n}\n"));
}

#[test]
fn namespace_nesting() {
    let h = from_export(export_of(vec![dto("a.b.C"), dto("C")]));
    let Hierarchy::Namespace { level, children, .. } = &h else { panic!("root is a module") };
    assert_eq!(*level, 0);
    assert_eq!(children.len(), 2);
    let Hierarchy::Namespace { level, name, children: inner } = &children[0] else {
        panic!("first child is module a")
    };
    assert_eq!((*level, name.as_str()), (1, "a"));
    let Hierarchy::Namespace { level, name, children: leaves } = &inner[0] else {
        panic!("a holds module b")
    };
    assert_eq!((*level, name.as_str()), (2, "b"));
    assert!(matches!(&leaves[0], Hierarchy::Statement(s) if s.name == "a.b.C"));
    assert!(matches!(&children[1], Hierarchy::Statement(s) if s.name == "C"));
}

#[test]
fn nested_module_text() {
    let text = generate_code(export_of(vec![dto("a.b.C")])).unwrap();
    let expected = "#[allow(unused_imports, dead_code)]\npub mod a {\n    use serde::{Serialize, Deserialize};\n    use serde_repr::{Serialize_repr, Deserialize_repr};\n    #[allow(unused_imports, dead_code)]\n    pub mod b {\n        use serde::{Serialize, Deserialize};\n        use serde_repr::{Serialize_repr, Deserialize_repr};\n        #[derive(Clone, Debug, Serialize, Deserialize)]\n        #[serde(rename_all = \"PascalCase\")]\n        pub struct C {\n        }\n    }\n}\n";
    assert_eq!(text, expected);
}

#[test]
fn order_preservation() {
    let text = generate_code(export_of(vec![
        dto("x.First"),
        dto("y.Other"),
        dto("x.Second"),
        dto("x.Third"),
    ]))
    .unwrap();
    let first = text.find("pub struct First").unwrap();
    let second = text.find("pub struct Second").unwrap();
    let third = text.find("pub struct Third").unwrap();
    let other = text.find("pub struct Other").unwrap();
    assert!(first < second && second < third);
    assert!(third < other);
    assert_eq!(text.matches("pub mod x {").count(), 1);
}

#[test]
fn idempotence() {
    let make = || export_of(vec![dto("a.One"), dto("Two"), command("a.b.Three", vec![])]);
    assert_eq!(generate_code(make()).unwrap(), generate_code(make()).unwrap());
}

#[test]
fn other_statements_emit_nothing() {
    let text = generate_code(export_of(vec![Statement {
        name: "ignored.Thing".to_string(),
        content: Content::Other,
    }]))
    .unwrap();
    assert!(!text.contains("Thing"));
}

#[test]
fn empty_statement_name_is_refused() {
    let export = export_of(vec![dto("a.Fine"), dto("")]);
    assert_eq!(generate_code(export), Err(GenError::InvalidName));
    assert_eq!(emit(&dto("")), Err(GenError::InvalidName));
}

#[test]
fn empty_internal_reference_is_refused() {
    let t = TypeRef {
        nullable: false,
        kind: TypeKind::Internal { name: String::new(), arguments: vec![] },
    };
    assert_eq!(render(&t), Err(GenError::InvalidName));
    let descriptor = TypeDescriptor {
        constants: vec![],
        properties: vec![],
        extends: vec![TypeRef {
            nullable: false,
            kind: TypeKind::Internal { name: String::new(), arguments: vec![] },
        }],
        generic_parameters: vec![],
    };
    let stmt = Statement { name: "Child".to_string(), content: Content::Dto { descriptor } };
    assert_eq!(emit(&stmt), Err(GenError::InvalidName));
}

#[test]
fn modules_in_first_appearance_order() {
    let text = generate_code(export_of(vec![dto("zeta.One"), dto("alpha.Two"), dto("zeta.Three")]))
        .unwrap();
    let zeta = text.find("pub mod zeta {").unwrap();
    let alpha = text.find("pub mod alpha {").unwrap();
    let three = text.find("pub struct Three").unwrap();
    assert!(zeta < three && three < alpha);
    assert_eq!(text.matches("pub mod zeta {").count(), 1);
}
