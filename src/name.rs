//! Identifier casing and dotted-name splitting.

use convert_case::{Case, Casing};
use vstd::prelude::*;

verus! {

broadcast use vstd::string::group_string_axioms;

/// The casings that identifiers are rendered in.
#[derive(Clone, Copy, Debug, PartialEq, Eq)]
pub enum TextCase {
    Snake,
    Pascal,
    UpperSnake,
}

/// A text in a casing, as the casing library computes it.
pub uninterp spec fn cased(s: Seq<char>, case: TextCase) -> Seq<char>;

/// The snake_case form of a text.
pub open spec fn snake_case_of(s: Seq<char>) -> Seq<char> {
    cased(s, TextCase::Snake)
}

/// The PascalCase form of a text.
pub open spec fn pascal_case_of(s: Seq<char>) -> Seq<char> {
    cased(s, TextCase::Pascal)
}

/// The UPPER_SNAKE_CASE form of a text.
pub open spec fn upper_snake_case_of(s: Seq<char>) -> Seq<char> {
    cased(s, TextCase::UpperSnake)
}

/// Relies on convert_case's `Casing::to_case`: the result depends on the text
/// and the casing alone.
#[verifier::external_body]
fn to_case(n: &str, case: TextCase) -> (r: String)
    ensures
        r@ == cased(n@, case),
{
    let target = match case {
        TextCase::Snake => Case::Snake,
        TextCase::Pascal => Case::Pascal,
        TextCase::UpperSnake => Case::UpperSnake,
    };
    n.to_case(target)
}

/// A module name: the snake_case form.
pub fn to_namespace(n: &str) -> (r: String)
    ensures
        r@ == snake_case_of(n@),
{
    to_case(n, TextCase::Snake)
}

/// A type name: the PascalCase form.
pub fn to_type(n: &str) -> (r: String)
    ensures
        r@ == pascal_case_of(n@),
{
    to_case(n, TextCase::Pascal)
}

/// A constant name: the UPPER_SNAKE_CASE form.
pub fn to_const(n: &str) -> (r: String)
    ensures
        r@ == upper_snake_case_of(n@),
{
    to_case(n, TextCase::UpperSnake)
}

/// The segments of a text cut at every `.`; there is always at least one.
pub open spec fn split_dots(s: Seq<char>) -> Seq<Seq<char>>
    decreases s.len(),
{
    if s.len() == 0 {
        seq![Seq::empty()]
    } else {
        let prev = split_dots(s.drop_last());
        if s.last() == '.' {
            prev.push(Seq::empty())
        } else {
            prev.update(prev.len() - 1, prev.last().push(s.last()))
        }
    }
}

pub proof fn lemma_split_dots_nonempty(s: Seq<char>)
    ensures
        split_dots(s).len() >= 1,
    decreases s.len(),
{
    if s.len() > 0 {
        lemma_split_dots_nonempty(s.drop_last());
    }
}

pub proof fn lemma_split_dots_len(s: Seq<char>)
    ensures
        split_dots(s).len() <= s.len() + 1,
    decreases s.len(),
{
    if s.len() > 0 {
        lemma_split_dots_len(s.drop_last());
        lemma_split_dots_nonempty(s.drop_last());
    }
}

/// Segments joined with a separator between each two.
pub open spec fn join_with(segs: Seq<Seq<char>>, sep: Seq<char>) -> Seq<char>
    decreases segs.len(),
{
    if segs.len() == 0 {
        Seq::empty()
    } else if segs.len() == 1 {
        segs[0]
    } else {
        join_with(segs.drop_last(), sep) + sep + segs.last()
    }
}

/// The views of a vector of strings.
pub open spec fn views(v: Seq<String>) -> Seq<Seq<char>> {
    v.map_values(|x: String| x@)
}

/// The last segment of a dotted name, as written.
pub open spec fn leaf_of(name: Seq<char>) -> Seq<char> {
    split_dots(name).last()
}

/// The module path of a dotted name: every segment snake-cased.
pub open spec fn namespaces_of(name: Seq<char>) -> Seq<Seq<char>> {
    split_dots(name).drop_last().map_values(|seg: Seq<char>| snake_case_of(seg))
}

/// The type name of a dotted name: its last segment snake-cased, then
/// Pascal-cased.
pub open spec fn type_name_of(name: Seq<char>) -> Seq<char> {
    pascal_case_of(snake_case_of(leaf_of(name)))
}

/// The Rust path of a generated type, relative to the crate root.
pub open spec fn internal_path_of(name: Seq<char>) -> Seq<char> {
    join_with(namespaces_of(name).push(type_name_of(name)), "::"@)
}

/// A field name: snake-cased, with the reserved word `type` escaped.
pub open spec fn field_name_of(n: Seq<char>) -> Seq<char> {
    if snake_case_of(n) == "type"@ {
        "r#type"@
    } else {
        snake_case_of(n)
    }
}

/// A dotted name cut into its module path and its type name.
pub struct FullName {
    pub namespaces: Vec<String>,
    pub name: String,
}

/// Cuts a text at every `.`.
pub fn split_segments(name: &str) -> (r: Vec<String>)
    ensures
        views(r@) == split_dots(name@),
        r@.len() >= 1,
{
    proof {
        lemma_split_dots_nonempty(name@);
    }
    let len = name.unicode_len();
    let mut parts: Vec<String> = Vec::new();
    let mut start: usize = 0;
    let mut i: usize = 0;
    assert(name@.take(0) =~= Seq::<char>::empty());
    assert(views(parts@).push(name@.subrange(0, 0)) =~= split_dots(name@.take(0)));
    while i < len
        invariant
            len == name@.len(),
            start <= i <= len,
            views(parts@).push(name@.subrange(start as int, i as int)) == split_dots(
                name@.take(i as int),
            ),
        decreases len - i,
    {
        let c = name.get_char(i);
        let ghost prefix = name@.take(i as int);
        assert(name@.take(i + 1 as int).drop_last() == prefix);
        assert(name@.take(i + 1 as int).last() == c);
        proof {
            lemma_split_dots_nonempty(prefix);
        }
        if c == '.' {
            let seg = name.substring_char(start, i);
            let ghost before = parts@;
            parts.push(seg.to_string());
            assert(views(parts@) =~= views(before).push(seg@));
            assert(split_dots(name@.take(i + 1 as int)) == split_dots(prefix).push(Seq::empty()));
            i = i + 1;
            start = i;
            assert(name@.subrange(start as int, i as int) =~= Seq::<char>::empty());
            assert(views(parts@).push(name@.subrange(start as int, i as int)) =~= split_dots(
                name@.take(i as int),
            ));
        } else {
            assert(name@.subrange(start as int, i + 1 as int) =~= name@.subrange(start as int, i as int).push(c));
            i = i + 1;
            assert(views(parts@).push(name@.subrange(start as int, i as int)) =~= split_dots(
                name@.take(i as int),
            ));
        }
    }
    let last = name.substring_char(start, len);
    parts.push(last.to_string());
    assert(name@.take(len as int) =~= name@);
    assert(views(parts@) =~= split_dots(name@));
    parts
}


/// Splits a dotted name into its snake-cased module path and its Pascal-cased
/// type name.
pub fn split_fullname(name: &str) -> (r: FullName)
    requires
        name@.len() > 0,
    ensures
        views(r.namespaces@) == namespaces_of(name@),
        r.name@ == type_name_of(name@),
{
    let parts = split_segments(name);
    let n = parts.len() - 1;
    let mut namespaces: Vec<String> = Vec::new();
    for k in 0..n
        invariant
            n == parts@.len() - 1,
            views(parts@) == split_dots(name@),
            views(namespaces@) =~= namespaces_of(name@).take(k as int),
    {
        let ghost before = namespaces@;
        namespaces.push(to_namespace(parts[k].as_str()));
        assert(views(namespaces@) =~= views(before).push(snake_case_of(parts@[k as int]@)));
    }
    assert(views(namespaces@) =~= namespaces_of(name@));
    let leaf = to_namespace(parts[n].as_str());
    FullName { namespaces, name: to_type(leaf.as_str()) }
}

/// The Rust path, relative to the crate root, of the type generated for a
/// dotted name: snake-cased modules, then the Pascal-cased type, joined by `::`.
pub fn to_internal_name(name: &str) -> (r: String)
    requires
        name@.len() > 0,
    ensures
        r@ == internal_path_of(name@),
{
    let parts = split_segments(name);
    let n = parts.len();
    let ghost segs = namespaces_of(name@).push(type_name_of(name@));
    let mut out = String::new();
    for k in 0..n
        invariant
            n == parts@.len(),
            views(parts@) == split_dots(name@),
            segs == namespaces_of(name@).push(type_name_of(name@)),
            segs.len() == n,
            out@ == join_with(segs.take(k as int), "::"@),
    {
        let seg = if k + 1 < n {
            to_namespace(parts[k].as_str())
        } else {
            let snake = to_namespace(parts[k].as_str());
            to_type(snake.as_str())
        };
        assert(seg@ == segs[k as int]);
        if k > 0 {
            out.append("::");
        }
        out.append(seg.as_str());
        assert(segs.take(k + 1 as int).drop_last() =~= segs.take(k as int));
        assert(k == 0 ==> out@ =~= segs.take(1)[0]);
    }
    assert(segs.take(n as int) =~= segs);
    out
}

/// The last segment of a dotted name, as written.
pub fn get_type(name: &str) -> (r: String)
    requires
        name@.len() > 0,
    ensures
        r@ == leaf_of(name@),
{
    let parts = split_segments(name);
    parts[parts.len() - 1].clone()
}

/// A field name: the snake_case form, with `type` escaped as a raw identifier.
pub fn to_field(n: &str) -> (r: String)
    ensures
        r@ == field_name_of(n@),
{
    let name = to_namespace(n);
    let reserved = "type".to_string();
    if name == reserved {
        "r#type".to_string()
    } else {
        name
    }
}

} // verus!
