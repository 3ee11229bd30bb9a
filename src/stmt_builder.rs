//! Emission of one statement (enumeration, data object, query or command)
//! as Rust source, at the current indentation.

use crate::code_builder::{
    known_of_code, args_text, generic_params_text, indent_text, int_text, internal_ref_text, type_ref_text,
    value_text, value_type_text, CodeBuilder, GenError,
};
use crate::ir::{
    Constant, Content, EnumMember, ErrorCode, GenericParameter, Property, Statement,
    TypeDescriptor, TypeKind, TypeRef,
};
use crate::name::{
    field_name_of, get_type, leaf_of, pascal_case_of, snake_case_of, to_const, to_field,
    to_namespace, to_type, upper_snake_case_of,
};
use vstd::prelude::*;

verus! {

broadcast use vstd::std_specs::vec::group_vec_axioms;

/// One line of output at an indentation level.
pub open spec fn line(n: nat, content: Seq<char>) -> Seq<char> {
    indent_text(n) + content + "\n"@
}

/// The texts of the parts, one after another.
pub open spec fn concat_all(parts: Seq<Seq<char>>) -> Seq<char>
    decreases parts.len(),
{
    if parts.len() == 0 {
        Seq::empty()
    } else {
        concat_all(parts.drop_last()) + parts.last()
    }
}

/// The texts of the parts, one after another; `None` if any part is `None`.
pub open spec fn cat_all(parts: Seq<Option<Seq<char>>>) -> Option<Seq<char>>
    decreases parts.len(),
{
    if parts.len() == 0 {
        Some(Seq::empty())
    } else {
        match (cat_all(parts.drop_last()), parts.last()) {
            (Some(a), Some(b)) => Some(a + b),
            _ => None,
        }
    }
}

/// Two optional texts one after the other.
pub open spec fn opt_cat(a: Option<Seq<char>>, b: Option<Seq<char>>) -> Option<Seq<char>> {
    match (a, b) {
        (Some(x), Some(y)) => Some(x + y),
        _ => None,
    }
}

pub proof fn lemma_cat_all_prefix_none(parts: Seq<Option<Seq<char>>>, i: int)
    requires
        0 <= i <= parts.len(),
        cat_all(parts.take(i)) is None,
    ensures
        cat_all(parts) is None,
    decreases parts.len() - i,
{
    if i < parts.len() {
        assert(parts.take(i + 1).drop_last() =~= parts.take(i));
        lemma_cat_all_prefix_none(parts, i + 1);
    } else {
        assert(parts.take(i) =~= parts);
    }
}

pub proof fn lemma_concat_all_append(a: Seq<Seq<char>>, b: Seq<Seq<char>>)
    ensures
        concat_all(a + b) == concat_all(a) + concat_all(b),
    decreases b.len(),
{
    if b.len() == 0 {
        assert(a + b =~= a);
        assert(concat_all(a) + concat_all(b) =~= concat_all(a));
    } else {
        assert((a + b).drop_last() =~= a + b.drop_last());
        lemma_concat_all_append(a, b.drop_last());
        assert(concat_all(a + b) =~= concat_all(a) + concat_all(b));
    }
}

pub open spec fn enum_derive() -> Seq<char> {
    "#[derive(Copy, Clone, Debug, Serialize_repr, Deserialize_repr, PartialEq)]"@
}

/// The line of one enumeration member.
pub open spec fn member_line(n: nat, m: (Seq<char>, i64)) -> Seq<char> {
    line(n, m.0 + " = "@ + int_text(m.1 as int) + ","@)
}

/// The lines of enumeration members, in order.
pub open spec fn member_lines(n: nat, ms: Seq<(Seq<char>, i64)>) -> Seq<char> {
    concat_all(ms.map_values(|m: (Seq<char>, i64)| member_line(n, m)))
}

/// The members that an enumeration statement declares, as name and value.
pub open spec fn enum_members(ms: Seq<EnumMember>) -> Seq<(Seq<char>, i64)> {
    ms.map_values(|m: EnumMember| (m.name@, m.value))
}

/// The text of a module opened at level `n`.
#[verifier::opaque]
pub open spec fn descend_text(n: nat, ns: Seq<char>) -> Seq<char> {
    line(n, "#[allow(unused_imports, dead_code)]"@) + line(n, "pub mod "@ + ns + " {"@) + line(
        n + 1,
        "use serde::{Serialize, Deserialize};"@,
    ) + line(n + 1, "use serde_repr::{Serialize_repr, Deserialize_repr};"@)
}

/// The text of an enumeration statement at level `n`.
#[verifier::opaque]
pub open spec fn enum_text(n: nat, name: Seq<char>, ms: Seq<EnumMember>) -> Seq<char> {
    line(n, enum_derive()) + line(n, "#[repr(i64)]"@) + line(n, "#[allow(non_camel_case_types)]"@)
        + line(n, "pub enum "@ + pascal_case_of(leaf_of(name)) + " {"@) + member_lines(
        n + 1,
        enum_members(ms),
    ) + line(n, "}"@)
}

/// The declaration of one constant.
pub open spec fn const_line(n: nat, c: Constant) -> Seq<char> {
    line(
        n,
        "pub const "@ + upper_snake_case_of(c.name@) + ": "@ + value_type_text(c.value) + " = "@
            + value_text(c.value) + ";"@,
    )
}

/// The module of constants that precedes a type, or nothing without constants.
#[verifier::opaque]
pub open spec fn constants_text(n: nat, name: Seq<char>, cs: Seq<Constant>) -> Seq<char> {
    if cs.len() == 0 {
        Seq::empty()
    } else {
        descend_text(n, snake_case_of(leaf_of(name)) + "_props"@) + concat_all(
            cs.map_values(|c: Constant| const_line(n + 1, c)),
        ) + line(n, "}"@)
    }
}

/// The field that composes an `Internal` base type; nothing for another kind.
pub open spec fn extend_line(n: nat, e: TypeRef) -> Option<Seq<char>> {
    match e.kind {
        TypeKind::Internal { name, arguments } => if name@.len() == 0 {
            None
        } else {
            match args_text(arguments) {
            Some(a) => Some(
                line(
                    n,
                    "pub "@ + field_name_of(leaf_of(name@)) + ": "@ + internal_ref_text(name@) + a
                        + ", "@,
                ),
            ),
            None => None,
            }
        },
        _ => Some(Seq::empty()),
    }
}

/// The field of one property.
pub open spec fn property_line(n: nat, p: Property) -> Option<Seq<char>> {
    match type_ref_text(p.type_ref) {
        Some(t) => Some(line(n, "pub "@ + field_name_of(p.name@) + ": "@ + t + ", "@)),
        None => None,
    }
}

/// The marker field that keeps a generic parameter in use.
pub open spec fn marker_line(n: nat, g: GenericParameter) -> Seq<char> {
    line(n, field_name_of(g.name@) + ": "@ + "std::marker::PhantomData<"@ + g.name@ + ">,"@)
}

/// The fields of a structure, in order: bases, properties, markers.
#[verifier::opaque]
pub open spec fn fields_text(n: nat, d: TypeDescriptor) -> Option<Seq<char>> {
    opt_cat(
        opt_cat(
            cat_all(d.extends@.map_values(|e: TypeRef| extend_line(n, e))),
            cat_all(d.properties@.map_values(|p: Property| property_line(n, p))),
        ),
        Some(concat_all(d.generic_parameters@.map_values(|g: GenericParameter| marker_line(n, g)))),
    )
}

/// The text of a described type at level `n`: its constants, then its structure.
#[verifier::opaque]
pub open spec fn type_text(n: nat, name: Seq<char>, d: TypeDescriptor) -> Option<Seq<char>> {
    opt_cat(
        Some(
            constants_text(n, name, d.constants@) + line(
                n,
                "#[derive(Clone, Debug, Serialize, Deserialize)]"@,
            ) + line(n, "#[serde(rename_all = \"PascalCase\")]"@) + line(
                n,
                "pub struct "@ + pascal_case_of(leaf_of(name)) + generic_params_text(
                    d.generic_parameters@,
                ) + " {"@,
            ),
        ),
        opt_cat(fields_text(n + 1, d), Some(line(n, "}"@))),
    )
}

/// The `name()` accessor of a request type: the dotted name as written.
#[verifier::opaque]
pub open spec fn name_fn_text(n: nat, name: Seq<char>) -> Seq<char> {
    line(n, Seq::empty()) + line(n, "fn name() -> &'static str {"@) + line(
        n + 1,
        "\""@ + name + "\""@,
    ) + line(n, "}"@)
}

/// The text of a query statement at level `n`.
#[verifier::opaque]
pub open spec fn query_text(
    n: nat,
    name: Seq<char>,
    d: TypeDescriptor,
    ret: TypeRef,
) -> Option<Seq<char>> {
    opt_cat(
        type_text(n, name, d),
        opt_cat(
            Some(
                line(
                    n,
                    "impl"@ + generic_params_text(d.generic_parameters@)
                        + " cqrs_server::Query for "@ + pascal_case_of(leaf_of(name)) + " {"@,
                ),
            ),
            match type_ref_text(ret) {
                Some(t) => Some(
                    line(n + 1, "type Result = "@ + t + ";"@) + name_fn_text(n + 1, name) + line(
                        n,
                        "}"@,
                    ),
                ),
                None => None,
            },
        ),
    )
}

/// The members that an error-code tree flattens to: every group's name
/// prefixes the names below it.
pub open spec fn flatten_code(prefix: Seq<char>, c: ErrorCode) -> Seq<(Seq<char>, i64)>
    decreases c, 0nat,
{
    match c {
        ErrorCode::Single { name, code } => seq![(prefix + name@, code)],
        ErrorCode::Group { name, inner_codes } => flatten_codes(
            prefix + name@,
            inner_codes,
            inner_codes.len() as nat,
        ),
    }
}

/// The members that the first `k` trees of a forest flatten to, in order.
pub open spec fn flatten_codes(prefix: Seq<char>, v: Vec<ErrorCode>, k: nat) -> Seq<
    (Seq<char>, i64),
>
    decreases v, k,
{
    if k == 0 || k > v.len() {
        Seq::empty()
    } else {
        flatten_codes(prefix, v, (k - 1) as nat) + flatten_code(prefix, v[k - 1])
    }
}

/// The members of a command's error-code enumeration: the flattened forest,
/// or one placeholder with value 0 when the forest is empty.
pub open spec fn error_members(codes: Vec<ErrorCode>) -> Seq<(Seq<char>, i64)> {
    if codes.len() == 0 {
        seq![("__MarkerForEmptyErrorCodes"@, 0i64)]
    } else {
        flatten_codes(Seq::empty(), codes, codes.len() as nat)
    }
}

/// The enumeration of a command's error codes, named after its type `ty`.
pub open spec fn error_enum_text(n: nat, ty: Seq<char>, codes: Vec<ErrorCode>) -> Seq<char> {
    line(n, enum_derive()) + line(n, "#[repr(i64)]"@) + line(
        n,
        "pub enum "@ + ty + "ErrorCodes"@ + " {"@,
    ) + member_lines(n + 1, error_members(codes)) + line(n, "}"@)
}

/// The `cqrs_server::Command` implementation of a command's type `ty`.
pub open spec fn command_impl_text(
    n: nat,
    ty: Seq<char>,
    generics: Seq<GenericParameter>,
    name: Seq<char>,
) -> Seq<char> {
    line(n, "impl"@ + generic_params_text(generics) + " cqrs_server::Command for "@ + ty + " {"@)
        + line(n + 1, "type ErrorCodes = "@ + ty + "ErrorCodes"@ + ";"@) + name_fn_text(n + 1, name)
        + line(n, "}"@)
}

/// A command without error codes still gets a non-empty enumeration: one
/// placeholder member of value 0.
pub proof fn lemma_empty_error_codes(codes: Vec<ErrorCode>)
    requires
        codes.len() == 0,
    ensures
        error_members(codes) == seq![("__MarkerForEmptyErrorCodes"@, 0i64)],
        error_members(codes).len() == 1,
{
}

/// The text of a command statement at level `n`.
#[verifier::opaque]
pub open spec fn command_text(
    n: nat,
    name: Seq<char>,
    d: TypeDescriptor,
    codes: Vec<ErrorCode>,
) -> Option<Seq<char>> {
    let ty = pascal_case_of(leaf_of(name));
    opt_cat(
        type_text(n, name, d),
        Some(
            error_enum_text(n, ty, codes) + command_impl_text(
                n,
                ty,
                d.generic_parameters@,
                name,
            ),
        ),
    )
}

/// The text of any statement at level `n`; `None` when the statement has an
/// empty name, or names a built-in type that the table lacks, or refers to
/// another type by an empty name.
pub open spec fn statement_text(n: nat, s: Statement) -> Option<Seq<char>> {
    if s.name@.len() == 0 {
        None
    } else {
        statement_kind_text(n, s)
    }
}

/// The text of a statement with a name, by its kind.
pub open spec fn statement_kind_text(n: nat, s: Statement) -> Option<Seq<char>> {
    match s.content {
        Content::Enum { members } => Some(enum_text(n, s.name@, members@)),
        Content::Dto { descriptor } => type_text(n, s.name@, descriptor),
        Content::Query { descriptor, return_type } => query_text(
            n,
            s.name@,
            descriptor,
            return_type,
        ),
        Content::Command { descriptor, error_codes } => command_text(
            n,
            s.name@,
            descriptor,
            error_codes,
        ),
        Content::Other => Some(Seq::empty()),
    }
}


pub proof fn lemma_member_lines_append(n: nat, a: Seq<(Seq<char>, i64)>, b: Seq<(Seq<char>, i64)>)
    ensures
        member_lines(n, a + b) == member_lines(n, a) + member_lines(n, b),
{
    let f = |m: (Seq<char>, i64)| member_line(n, m);
    assert((a + b).map_values(f) =~= a.map_values(f) + b.map_values(f));
    lemma_concat_all_append(a.map_values(f), b.map_values(f));
}

/// Writes statements into one text, tracking the indentation level.
pub struct StmtBuilder {
    builder: CodeBuilder,
    indent: usize,
}

impl StmtBuilder {
    /// The text written so far.
    pub closed spec fn text(&self) -> Seq<char> {
        self.builder@
    }

    /// The current indentation level.
    pub closed spec fn level(&self) -> nat {
        self.indent as nat
    }

    /// An empty text at level 0.
    pub fn new() -> (r: Self)
        ensures
            r.text() == Seq::<char>::empty(),
            r.level() == 0,
    {
        let builder = CodeBuilder::new();
        StmtBuilder { builder, indent: 0 }
    }

    /// Opens a module, with the imports that generated types use, one level
    /// deeper.
    pub fn descend(&mut self, namespace: &str)
        requires
            old(self).level() < usize::MAX,
        ensures
            final(self).text() == old(self).text() + descend_text(old(self).level(), namespace@),
            final(self).level() == old(self).level() + 1,
    {
        reveal(descend_text);
        let ghost n = self.level();
        self.put_line("#[allow(unused_imports, dead_code)]");
        self.line();
        self.put("pub mod ");
        self.put(namespace);
        self.put(" {");
        self.end_line();
        assert(self.text() =~= old(self).text() + line(n, "#[allow(unused_imports, dead_code)]"@)
            + line(n, "pub mod "@ + namespace@ + " {"@));
        self.indent();
        self.put_line("use serde::{Serialize, Deserialize};");
        self.put_line("use serde_repr::{Serialize_repr, Deserialize_repr};");
        assert(self.text() =~= old(self).text() + descend_text(n, namespace@));
    }

    /// Closes the innermost module.
    pub fn go_up(&mut self)
        requires
            old(self).level() > 0,
        ensures
            final(self).text() == old(self).text() + line((old(self).level() - 1) as nat, "}"@),
            final(self).level() == old(self).level() - 1,
    {
        self.dedent();
        self.put_line("}");
    }

    /// The text written.
    pub fn build(self) -> (r: String)
        ensures
            r@ == self.text(),
    {
        self.builder.build()
    }

    /// Starts a line at the current level.
    fn line(&mut self)
        ensures
            final(self).text() == old(self).text() + indent_text(old(self).level()),
            final(self).level() == old(self).level(),
    {
        self.builder.indent(self.indent);
    }

    fn put(&mut self, data: &str)
        ensures
            final(self).text() == old(self).text() + data@,
            final(self).level() == old(self).level(),
    {
        self.builder.append(data);
    }

    fn end_line(&mut self)
        ensures
            final(self).text() == old(self).text() + "\n"@,
            final(self).level() == old(self).level(),
    {
        self.builder.finish();
    }

    /// One whole line at the current level.
    fn put_line(&mut self, content: &str)
        ensures
            final(self).text() == old(self).text() + line(old(self).level(), content@),
            final(self).level() == old(self).level(),
    {
        self.line();
        self.put(content);
        self.end_line();
        assert(self.text() =~= old(self).text() + line(old(self).level(), content@));
    }

    fn indent(&mut self)
        requires
            old(self).level() < usize::MAX,
        ensures
            final(self).text() == old(self).text(),
            final(self).level() == old(self).level() + 1,
    {
        self.indent = self.indent + 1;
    }

    fn dedent(&mut self)
        requires
            old(self).level() > 0,
        ensures
            final(self).text() == old(self).text(),
            final(self).level() == old(self).level() - 1,
    {
        self.indent = self.indent - 1;
    }

    /// One enumeration member with its explicit value.
    fn append_member(&mut self, name: &str, value: i64)
        ensures
            final(self).text() == old(self).text() + member_line(old(self).level(), (name@, value)),
            final(self).level() == old(self).level(),
    {
        self.line();
        self.put(name);
        self.put(" = ");
        self.builder.append_integer(value);
        self.put(",");
        self.end_line();
        assert(self.text() =~= old(self).text() + member_line(old(self).level(), (name@, value)));
    }

    /// The `name()` accessor returning the dotted name as written.
    fn append_name_fn(&mut self, name: &str)
        requires
            old(self).level() < usize::MAX,
        ensures
            final(self).text() == old(self).text() + name_fn_text(old(self).level(), name@),
            final(self).level() == old(self).level(),
    {
        reveal(name_fn_text);
        let ghost n = self.level();
        self.line();
        self.end_line();
        self.put_line("fn name() -> &'static str {");
        self.indent();
        self.line();
        self.put("\"");
        self.put(name);
        self.put("\"");
        self.end_line();
        self.dedent();
        self.put_line("}");
        assert(indent_text(n) + Seq::<char>::empty() + "\n"@ =~= indent_text(n) + "\n"@);
        assert(self.text() =~= old(self).text() + name_fn_text(n, name@));
    }

    /// Emits an enumeration with one member per declared member, in order,
    /// each with its declared value.
    pub fn append_enum(&mut self, stmt: &Statement, members: &Vec<EnumMember>)
        requires
            stmt.name@.len() > 0,
            old(self).level() < usize::MAX,
        ensures
            final(self).text() == old(self).text() + enum_text(
                old(self).level(),
                stmt.name@,
                members@,
            ),
            final(self).level() == old(self).level(),
    {
        reveal(enum_text);
        let ghost n = self.level();
        self.put_line("#[derive(Copy, Clone, Debug, Serialize_repr, Deserialize_repr, PartialEq)]");
        self.put_line("#[repr(i64)]");
        self.put_line("#[allow(non_camel_case_types)]");
        let leaf = get_type(stmt.name.as_str());
        let ty = to_type(leaf.as_str());
        self.line();
        self.put("pub enum ");
        self.put(ty.as_str());
        self.put(" {");
        self.end_line();
        let ghost head = line(n, enum_derive()) + line(n, "#[repr(i64)]"@) + line(
            n,
            "#[allow(non_camel_case_types)]"@,
        ) + line(n, "pub enum "@ + pascal_case_of(leaf_of(stmt.name@)) + " {"@);
        assert(self.text() =~= old(self).text() + head);
        self.indent();
        let ghost parts = enum_members(members@).map_values(
            |m: (Seq<char>, i64)| member_line(n + 1, m),
        );
        let len = members.len();
        for i in 0..len
            invariant
                len == members.len(),
                self.level() == n + 1,
                parts == enum_members(members@).map_values(
                    |m: (Seq<char>, i64)| member_line(n + 1, m),
                ),
                self.text() == old(self).text() + head + concat_all(parts.take(i as int)),
        {
            self.append_member(members[i].name.as_str(), members[i].value);
            assert(parts.take(i + 1 as int).drop_last() =~= parts.take(i as int));
            assert(self.text() =~= old(self).text() + head + concat_all(parts.take(i + 1 as int)));
        }
        assert(parts.take(len as int) =~= parts);
        self.dedent();
        self.put_line("}");
        assert(self.text() =~= old(self).text() + enum_text(n, stmt.name@, members@));
    }

    /// Emits the members that one error-code tree flattens to.
    fn append_codes(&mut self, prefix: &str, code: &ErrorCode)
        ensures
            final(self).text() == old(self).text() + member_lines(
                old(self).level(),
                flatten_code(prefix@, *code),
            ),
            final(self).level() == old(self).level(),
        decreases code,
    {
        let ghost n = self.level();
        match code {
            ErrorCode::Single { name, code: value } => {
                let mut full = String::new();
                full.append(prefix);
                full.append(name.as_str());
                self.append_member(full.as_str(), *value);
                let ghost ms = flatten_code(prefix@, *code);
                let ghost parts = ms.map_values(|m: (Seq<char>, i64)| member_line(n, m));
                assert(ms.len() == 1 && ms[0] == (full@, *value));
                assert(parts.drop_last() =~= Seq::<Seq<char>>::empty());
                assert(parts.last() == member_line(n, (full@, *value)));
                assert(concat_all(parts) == concat_all(parts.drop_last()) + parts.last());
                assert(self.text() =~= old(self).text() + member_lines(n, ms));
            },
            ErrorCode::Group { name, inner_codes } => {
                let mut inner_prefix = String::new();
                inner_prefix.append(prefix);
                inner_prefix.append(name.as_str());
                let len = inner_codes.len();
                assert(member_lines(n, Seq::empty()) =~= Seq::<char>::empty());
                for i in 0..len
                    invariant
                        len == inner_codes.len(),
                        code is Group,
                        code->inner_codes == *inner_codes,
                        self.level() == n,
                        self.text() == old(self).text() + member_lines(
                            n,
                            flatten_codes(inner_prefix@, *inner_codes, i as nat),
                        ),
                {
                    assert(decreases_to!(*code => *inner_codes));
                    assert(decreases_to!(*inner_codes => inner_codes[i as int]));
                    self.append_codes(inner_prefix.as_str(), &inner_codes[i]);
                    proof {
                        lemma_member_lines_append(
                            n,
                            flatten_codes(inner_prefix@, *inner_codes, i as nat),
                            flatten_code(inner_prefix@, inner_codes[i as int]),
                        );
                    }
                    assert(self.text() =~= old(self).text() + member_lines(
                        n,
                        flatten_codes(inner_prefix@, *inner_codes, (i + 1) as nat),
                    ));
                }
                assert(inner_prefix@ == prefix@ + name@);
            },
        }
    }

    /// Emits the declaration of one constant, its type inferred from its
    /// value.
    fn append_constant(&mut self, c: &Constant)
        ensures
            final(self).text() == old(self).text() + const_line(old(self).level(), *c),
            final(self).level() == old(self).level(),
    {
        self.line();
        self.put("pub const ");
        let cname = to_const(c.name.as_str());
        self.put(cname.as_str());
        self.put(": ");
        self.builder.append_value_ref_type(&c.value);
        self.put(" = ");
        self.builder.append_value_ref_value(&c.value);
        self.put(";");
        self.end_line();
        assert(self.text() =~= old(self).text() + const_line(old(self).level(), *c));
    }

    /// Emits the module of constants, when there are any.
    fn append_constants(&mut self, leaf: &str, constants: &Vec<Constant>)
        requires
            old(self).level() < usize::MAX,
        ensures
            forall|name: Seq<char>|
                leaf_of(name) == leaf@ ==> final(self).text() == old(self).text()
                    + constants_text(old(self).level(), name, constants@),
            final(self).level() == old(self).level(),
    {
        reveal(constants_text);
        let ghost n = self.level();
        if constants.len() == 0 {
            assert(self.text() =~= old(self).text() + Seq::<char>::empty());
            return;
        }
        let mut ns = to_namespace(leaf);
        ns.append("_props");
        self.descend(ns.as_str());
        let ghost head = self.text();
        let ghost parts = constants@.map_values(|c: Constant| const_line(n + 1, c));
        let len = constants.len();
        for i in 0..len
            invariant
                len == constants.len(),
                self.level() == n + 1,
                parts == constants@.map_values(|c: Constant| const_line(n + 1, c)),
                self.text() == head + concat_all(parts.take(i as int)),
        {
            self.append_constant(&constants[i]);
            assert(parts.take(i + 1 as int).drop_last() =~= parts.take(i as int));
            assert(self.text() =~= head + concat_all(parts.take(i + 1 as int)));
        }
        assert(parts.take(len as int) =~= parts);
        self.go_up();
        assert forall|name: Seq<char>| leaf_of(name) == leaf@ implies self.text() == old(
            self,
        ).text() + constants_text(n, name, constants@) by {
            assert(self.text() =~= old(self).text() + constants_text(n, name, constants@));
        }
    }

    /// Emits the field that composes an `Internal` base type; nothing for
    /// another kind.
    fn append_extend(&mut self, e: &TypeRef) -> (r: Result<(), GenError>)
        ensures
            r matches Err(GenError::UnsupportedType(c)) ==> known_of_code(c) is None,
            r is Ok <==> extend_line(old(self).level(), *e) is Some,
            r is Ok ==> final(self).text() == old(self).text() + extend_line(
                old(self).level(),
                *e,
            )->0,
            final(self).level() == old(self).level(),
    {
        match &e.kind {
            TypeKind::Internal { name, arguments } => {
                if name.as_str().is_empty() {
                    return Err(GenError::InvalidName);
                }
                self.line();
                self.put("pub ");
                let leaf = get_type(name.as_str());
                let field = to_field(leaf.as_str());
                self.put(field.as_str());
                self.put(": ");
                self.builder.append_internal_name(name.as_str());
                let r = self.builder.append_generic_arguments(arguments);
                if r.is_err() {
                    return r;
                }
                self.put(", ");
                self.end_line();
                assert(self.text() =~= old(self).text() + extend_line(old(self).level(), *e)->0);
            },
            _ => {
                assert(self.text() =~= old(self).text() + extend_line(old(self).level(), *e)->0);
            },
        }
        Ok(())
    }

    /// Emits the field of one property.
    fn append_property(&mut self, p: &Property) -> (r: Result<(), GenError>)
        ensures
            r matches Err(GenError::UnsupportedType(c)) ==> known_of_code(c) is None,
            r is Ok <==> property_line(old(self).level(), *p) is Some,
            r is Ok ==> final(self).text() == old(self).text() + property_line(
                old(self).level(),
                *p,
            )->0,
            final(self).level() == old(self).level(),
    {
        self.line();
        self.put("pub ");
        let field = to_field(p.name.as_str());
        self.put(field.as_str());
        self.put(": ");
        let r = self.builder.append_type_ref(&p.type_ref);
        if r.is_err() {
            return r;
        }
        self.put(", ");
        self.end_line();
        assert(self.text() =~= old(self).text() + property_line(old(self).level(), *p)->0);
        Ok(())
    }

    /// Emits the marker field of one generic parameter.
    fn append_marker(&mut self, g: &GenericParameter)
        ensures
            final(self).text() == old(self).text() + marker_line(old(self).level(), *g),
            final(self).level() == old(self).level(),
    {
        self.line();
        let field = to_field(g.name.as_str());
        self.put(field.as_str());
        self.put(": ");
        self.put("std::marker::PhantomData<");
        self.put(g.name.as_str());
        self.put(">,");
        self.end_line();
        assert(self.text() =~= old(self).text() + marker_line(old(self).level(), *g));
    }

    /// Emits the fields of a structure: bases, properties, markers.
    fn append_fields(&mut self, descr: &TypeDescriptor) -> (r: Result<(), GenError>)
        ensures
            r matches Err(GenError::UnsupportedType(c)) ==> known_of_code(c) is None,
            r is Ok <==> fields_text(old(self).level(), *descr) is Some,
            r is Ok ==> final(self).text() == old(self).text() + fields_text(
                old(self).level(),
                *descr,
            )->0,
            final(self).level() == old(self).level(),
    {
        reveal(fields_text);
        let ghost n = self.level();
        let ghost eparts = descr.extends@.map_values(|e: TypeRef| extend_line(n, e));
        let len = descr.extends.len();
        for i in 0..len
            invariant
                len == descr.extends.len(),
                self.level() == n,
                n == old(self).level(),
                eparts == descr.extends@.map_values(|e: TypeRef| extend_line(n, e)),
                cat_all(eparts.take(i as int)) is Some,
                self.text() == old(self).text() + cat_all(eparts.take(i as int))->0,
        {
            assert(eparts.take(i + 1 as int).drop_last() =~= eparts.take(i as int));
            let r = self.append_extend(&descr.extends[i]);
            if r.is_err() {
                proof {
                    reveal(fields_text);
                    lemma_cat_all_prefix_none(eparts, i + 1);
                }
                return r;
            }
            assert(self.text() =~= old(self).text() + cat_all(eparts.take(i + 1 as int))->0);
        }
        assert(eparts.take(len as int) =~= eparts);
        let ghost after_extends = self.text();
        let ghost pparts = descr.properties@.map_values(|p: Property| property_line(n, p));
        let len = descr.properties.len();
        for i in 0..len
            invariant
                len == descr.properties.len(),
                self.level() == n,
                n == old(self).level(),
                pparts == descr.properties@.map_values(|p: Property| property_line(n, p)),
                cat_all(pparts.take(i as int)) is Some,
                self.text() == after_extends + cat_all(pparts.take(i as int))->0,
        {
            assert(pparts.take(i + 1 as int).drop_last() =~= pparts.take(i as int));
            let r = self.append_property(&descr.properties[i]);
            if r.is_err() {
                proof {
                    reveal(fields_text);
                    lemma_cat_all_prefix_none(pparts, i + 1);
                }
                return r;
            }
            assert(self.text() =~= after_extends + cat_all(pparts.take(i + 1 as int))->0);
        }
        assert(pparts.take(len as int) =~= pparts);
        let ghost after_props = self.text();
        let ghost gparts = descr.generic_parameters@.map_values(
            |g: GenericParameter| marker_line(n, g),
        );
        let len = descr.generic_parameters.len();
        for i in 0..len
            invariant
                len == descr.generic_parameters.len(),
                self.level() == n,
                n == old(self).level(),
                gparts == descr.generic_parameters@.map_values(
                    |g: GenericParameter| marker_line(n, g),
                ),
                self.text() == after_props + concat_all(gparts.take(i as int)),
        {
            self.append_marker(&descr.generic_parameters[i]);
            assert(gparts.take(i + 1 as int).drop_last() =~= gparts.take(i as int));
            assert(self.text() =~= after_props + concat_all(gparts.take(i + 1 as int)));
        }
        assert(gparts.take(len as int) =~= gparts);
        assert(self.text() =~= old(self).text() + fields_text(n, *descr)->0);
        Ok(())
    }

    /// Emits a described type: its module of constants, when it has any,
    /// then its structure.
    fn append_type(&mut self, descr: &TypeDescriptor, stmt: &Statement) -> (r: Result<
        (),
        GenError,
    >)
        requires
            stmt.name@.len() > 0,
            old(self).level() + 1 < usize::MAX,
        ensures
            r matches Err(GenError::UnsupportedType(c)) ==> known_of_code(c) is None,
            r is Ok <==> type_text(old(self).level(), stmt.name@, *descr) is Some,
            r is Ok ==> final(self).text() == old(self).text() + type_text(
                old(self).level(),
                stmt.name@,
                *descr,
            )->0,
            final(self).level() == old(self).level(),
    {
        reveal(type_text);
        let ghost n = self.level();
        let leaf_name = get_type(stmt.name.as_str());
        self.append_constants(leaf_name.as_str(), &descr.constants);
        self.put_line("#[derive(Clone, Debug, Serialize, Deserialize)]");
        self.put_line("#[serde(rename_all = \"PascalCase\")]");
        self.line();
        self.put("pub struct ");
        let ty = to_type(leaf_name.as_str());
        self.put(ty.as_str());
        self.builder.append_generic_parameters(&descr.generic_parameters);
        self.put(" {");
        self.end_line();
        let ghost head = constants_text(n, stmt.name@, descr.constants@) + line(
            n,
            "#[derive(Clone, Debug, Serialize, Deserialize)]"@,
        ) + line(n, "#[serde(rename_all = \"PascalCase\")]"@) + line(
            n,
            "pub struct "@ + pascal_case_of(leaf_of(stmt.name@)) + generic_params_text(
                descr.generic_parameters@,
            ) + " {"@,
        );
        assert(self.text() =~= old(self).text() + head);
        self.indent();
        let r = self.append_fields(descr);
        if r.is_err() {
            self.dedent();
            return r;
        }
        let ghost fields = fields_text(n + 1, *descr)->0;
        self.dedent();
        self.put_line("}");
        assert(type_text(n, stmt.name@, *descr) == Some(head + (fields + line(n, "}"@))));
        assert(self.text() =~= old(self).text() + (head + (fields + line(n, "}"@))));
        Ok(())
    }

    /// Emits the header of a trait implementation for the statement's type,
    /// over the type's own generic parameters.
    fn append_impl_header(
        &mut self,
        generics: &Vec<GenericParameter>,
        interface: &str,
        ty: &str,
    )
        ensures
            final(self).text() == old(self).text() + line(
                old(self).level(),
                "impl"@ + generic_params_text(generics@) + interface@ + ty@ + " {"@,
            ),
            final(self).level() == old(self).level(),
    {
        self.line();
        self.put("impl");
        self.builder.append_generic_parameters(generics);
        self.put(interface);
        self.put(ty);
        self.put(" {");
        self.end_line();
        assert(self.text() =~= old(self).text() + line(
            old(self).level(),
            "impl"@ + generic_params_text(generics@) + interface@ + ty@ + " {"@,
        ));
    }

    /// Emits a data object: its structure and nothing else.
    pub fn append_dto(&mut self, stmt: &Statement, descriptor: &TypeDescriptor) -> (r: Result<
        (),
        GenError,
    >)
        requires
            stmt.name@.len() > 0,
            old(self).level() + 1 < usize::MAX,
        ensures
            r matches Err(GenError::UnsupportedType(c)) ==> known_of_code(c) is None,
            r is Ok <==> type_text(old(self).level(), stmt.name@, *descriptor) is Some,
            r is Ok ==> final(self).text() == old(self).text() + type_text(
                old(self).level(),
                stmt.name@,
                *descriptor,
            )->0,
            final(self).level() == old(self).level(),
    {
        self.append_type(descriptor, stmt)
    }

    /// Emits a query: its structure, then its `cqrs_server::Query`
    /// implementation with the result type and the dotted name.
    pub fn append_query(
        &mut self,
        stmt: &Statement,
        descriptor: &TypeDescriptor,
        return_type: &TypeRef,
    ) -> (r: Result<(), GenError>)
        requires
            stmt.name@.len() > 0,
            old(self).level() + 2 < usize::MAX,
        ensures
            r matches Err(GenError::UnsupportedType(c)) ==> known_of_code(c) is None,
            r is Ok <==> query_text(old(self).level(), stmt.name@, *descriptor, *return_type) is Some,
            r is Ok ==> final(self).text() == old(self).text() + query_text(
                old(self).level(),
                stmt.name@,
                *descriptor,
                *return_type,
            )->0,
            final(self).level() == old(self).level(),
    {
        reveal(query_text);
        let ghost n = self.level();
        let r = self.append_type(descriptor, stmt);
        if r.is_err() {
            return r;
        }
        let ghost after_type = self.text();
        let leaf = get_type(stmt.name.as_str());
        let ty = to_type(leaf.as_str());
        self.append_impl_header(&descriptor.generic_parameters, " cqrs_server::Query for ", ty.as_str());
        let ghost after_header = self.text();
        self.indent();
        self.line();
        self.put("type Result = ");
        let r = self.builder.append_type_ref(return_type);
        if r.is_err() {
            self.dedent();
            return r;
        }
        let ghost t = type_ref_text(*return_type)->0;
        self.put(";");
        self.end_line();
        assert(self.text() =~= after_header + line(n + 1, "type Result = "@ + t + ";"@));
        self.append_name_fn(stmt.name.as_str());
        self.dedent();
        self.put_line("}");
        let ghost header = line(
            n,
            "impl"@ + generic_params_text(descriptor.generic_parameters@)
                + " cqrs_server::Query for "@ + pascal_case_of(leaf_of(stmt.name@)) + " {"@,
        );
        let ghost body = line(n + 1, "type Result = "@ + t + ";"@) + name_fn_text(n + 1, stmt.name@)
            + line(n, "}"@);
        assert(self.text() =~= after_type + (header + body));
        Ok(())
    }

    /// Emits a command: its structure, the enumeration of its flattened
    /// error codes, then its `cqrs_server::Command` implementation with that
    /// enumeration and the dotted name.
    pub fn append_command(
        &mut self,
        stmt: &Statement,
        descriptor: &TypeDescriptor,
        error_codes: &Vec<ErrorCode>,
    ) -> (r: Result<(), GenError>)
        requires
            stmt.name@.len() > 0,
            old(self).level() + 2 < usize::MAX,
        ensures
            r matches Err(GenError::UnsupportedType(c)) ==> known_of_code(c) is None,
            r is Ok <==> command_text(old(self).level(), stmt.name@, *descriptor, *error_codes) is Some,
            r is Ok ==> final(self).text() == old(self).text() + command_text(
                old(self).level(),
                stmt.name@,
                *descriptor,
                *error_codes,
            )->0,
            final(self).level() == old(self).level(),
    {
        reveal(command_text);
        let ghost n = self.level();
        let r = self.append_type(descriptor, stmt);
        if r.is_err() {
            return r;
        }
        let ghost after_type = self.text();
        let leaf = get_type(stmt.name.as_str());
        let ty = to_type(leaf.as_str());
        self.append_error_enum(ty.as_str(), error_codes);
        self.append_command_impl(ty.as_str(), &descriptor.generic_parameters, stmt.name.as_str());
        assert(self.text() =~= after_type + (error_enum_text(n, ty@, *error_codes)
            + command_impl_text(n, ty@, descriptor.generic_parameters@, stmt.name@)));
        Ok(())
    }

    /// Emits the enumeration of a command's error codes.
    fn append_error_enum(&mut self, ty: &str, error_codes: &Vec<ErrorCode>)
        requires
            old(self).level() < usize::MAX,
        ensures
            final(self).text() == old(self).text() + error_enum_text(
                old(self).level(),
                ty@,
                *error_codes,
            ),
            final(self).level() == old(self).level(),
    {
        let ghost n = self.level();
        self.put_line("#[derive(Copy, Clone, Debug, Serialize_repr, Deserialize_repr, PartialEq)]");
        self.put_line("#[repr(i64)]");
        self.line();
        self.put("pub enum ");
        self.put(ty);
        self.put("ErrorCodes");
        self.put(" {");
        self.end_line();
        let ghost head = line(n, enum_derive()) + line(n, "#[repr(i64)]"@) + line(
            n,
            "pub enum "@ + ty@ + "ErrorCodes"@ + " {"@,
        );
        assert(self.text() =~= old(self).text() + head);
        self.indent();
        self.append_error_members(error_codes);
        self.dedent();
        self.put_line("}");
        assert(self.text() =~= old(self).text() + error_enum_text(n, ty@, *error_codes));
    }

    /// Emits the `cqrs_server::Command` implementation of a command's type.
    fn append_command_impl(&mut self, ty: &str, generics: &Vec<GenericParameter>, name: &str)
        requires
            old(self).level() + 1 < usize::MAX,
        ensures
            final(self).text() == old(self).text() + command_impl_text(
                old(self).level(),
                ty@,
                generics@,
                name@,
            ),
            final(self).level() == old(self).level(),
    {
        let ghost n = self.level();
        self.append_impl_header(generics, " cqrs_server::Command for ", ty);
        let ghost after_header = self.text();
        self.indent();
        self.line();
        self.put("type ErrorCodes = ");
        self.put(ty);
        self.put("ErrorCodes");
        self.put(";");
        self.end_line();
        assert(self.text() =~= after_header + line(n + 1, "type ErrorCodes = "@ + ty@ + "ErrorCodes"@ + ";"@));
        self.append_name_fn(name);
        self.dedent();
        self.put_line("}");
        assert(self.text() =~= old(self).text() + command_impl_text(n, ty@, generics@, name@));
    }

    /// Emits the members of a command's error-code enumeration.
    fn append_error_members(&mut self, error_codes: &Vec<ErrorCode>)
        ensures
            final(self).text() == old(self).text() + member_lines(
                old(self).level(),
                error_members(*error_codes),
            ),
            final(self).level() == old(self).level(),
    {
        let ghost n = self.level();
        let len = error_codes.len();
        if len == 0 {
            self.append_member("__MarkerForEmptyErrorCodes", 0);
            let ghost parts = error_members(*error_codes).map_values(
                |m: (Seq<char>, i64)| member_line(n, m),
            );
            assert(parts.drop_last() =~= Seq::<Seq<char>>::empty());
            assert(parts.last() == member_line(n, ("__MarkerForEmptyErrorCodes"@, 0i64)));
            assert(concat_all(parts) == concat_all(parts.drop_last()) + parts.last());
            assert(self.text() =~= old(self).text() + concat_all(parts));
            return;
        }
        assert(member_lines(n, Seq::empty()) =~= Seq::<char>::empty());
        for i in 0..len
            invariant
                len == error_codes.len(),
                self.level() == n,
                n == old(self).level(),
                self.text() == old(self).text() + member_lines(
                    n,
                    flatten_codes(Seq::empty(), *error_codes, i as nat),
                ),
        {
            self.append_codes("", &error_codes[i]);
            proof {
                reveal_strlit("");
                lemma_member_lines_append(
                    n,
                    flatten_codes(Seq::empty(), *error_codes, i as nat),
                    flatten_code(Seq::empty(), error_codes[i as int]),
                );
            }
            assert(""@ =~= Seq::<char>::empty());
            assert(self.text() =~= old(self).text() + member_lines(
                n,
                flatten_codes(Seq::empty(), *error_codes, (i + 1) as nat),
            ));
        }
    }

    /// Emits one statement by its kind; a kind that generation does not
    /// know emits nothing. A statement with an empty name is refused.
    pub fn append_statemet(&mut self, stmt: &Statement) -> (r: Result<(), GenError>)
        requires
            old(self).level() + 2 < usize::MAX,
        ensures
            r matches Err(GenError::UnsupportedType(c)) ==> known_of_code(c) is None,
            stmt.name@.len() == 0 ==> r matches Err(GenError::InvalidName),
            r is Ok <==> statement_text(old(self).level(), *stmt) is Some,
            r is Ok ==> final(self).text() == old(self).text() + statement_text(
                old(self).level(),
                *stmt,
            )->0,
            final(self).level() == old(self).level(),
    {
        if stmt.name.as_str().is_empty() {
            return Err(GenError::InvalidName);
        }
        match &stmt.content {
            Content::Enum { members } => {
                self.append_enum(stmt, members);
                Ok(())
            },
            Content::Dto { descriptor } => self.append_dto(stmt, descriptor),
            Content::Query { descriptor, return_type } => self.append_query(
                stmt,
                descriptor,
                return_type,
            ),
            Content::Command { descriptor, error_codes } => self.append_command(
                stmt,
                descriptor,
                error_codes,
            ),
            Content::Other => {
                assert(self.text() =~= old(self).text() + Seq::<char>::empty());
                Ok(())
            },
        }
    }
}

} // verus!
