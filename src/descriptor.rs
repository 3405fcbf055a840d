use vstd::prelude::*;

use crate::error::ClassFileError;
use crate::text::{chars_of, lit, push_char, push_str};

verus! {

/// A Java type as a descriptor denotes it. Class names are held dot-separated
/// (`java.lang.String`).
#[derive(Debug, PartialEq, Eq)]
pub enum Type {
    Void,
    Byte,
    Char,
    Double,
    Float,
    Int,
    Long,
    Short,
    Boolean,
    Array { inner: Box<Type> },
    Object { class_name: String },
    Generic { class_name: String, type_arguments: Vec<Type> },
}

/// The base-type letter of a primitive (or `void`), if `t` is one.
pub open spec fn base_letter(t: Type) -> Option<char> {
    match t {
        Type::Void => Some('V'),
        Type::Byte => Some('B'),
        Type::Char => Some('C'),
        Type::Double => Some('D'),
        Type::Float => Some('F'),
        Type::Int => Some('I'),
        Type::Long => Some('J'),
        Type::Short => Some('S'),
        Type::Boolean => Some('Z'),
        _ => None,
    }
}

/// The Java keyword of a primitive (or `void`).
pub open spec fn base_name(t: Type) -> Seq<char> {
    match t {
        Type::Void => "void"@,
        Type::Byte => "byte"@,
        Type::Char => "char"@,
        Type::Double => "double"@,
        Type::Float => "float"@,
        Type::Int => "int"@,
        Type::Long => "long"@,
        Type::Short => "short"@,
        _ => "boolean"@,
    }
}

/// A dot-separated class name in the slash-separated internal form.
pub open spec fn internal_form(s: Seq<char>) -> Seq<char> {
    s.map_values(|c: char| if c == '.' { '/' } else { c })
}

/// An internal class name in the dot-separated form.
pub open spec fn dotted(s: Seq<char>) -> Seq<char> {
    s.map_values(|c: char| if c == '/' { '.' } else { c })
}

/// The descriptor text that denotes `t`.
pub open spec fn descriptor_of(t: Type) -> Seq<char>
    decreases t, 0nat,
{
    match t {
        Type::Array { inner } => seq!['['] + descriptor_of(*inner),
        Type::Object { class_name } => seq!['L'] + internal_form(class_name@) + seq![';'],
        Type::Generic { class_name, type_arguments } => seq!['L'] + internal_form(class_name@)
            + seq!['<'] + descriptors_of(type_arguments@, type_arguments@.len()) + seq!['>', ';'],
        _ => seq![base_letter(t)->Some_0],
    }
}

/// The descriptors of the first `n` types of `s`, one after another.
pub open spec fn descriptors_of(s: Seq<Type>, n: nat) -> Seq<char>
    decreases s, n,
{
    if n == 0 || n > s.len() {
        Seq::empty()
    } else {
        descriptors_of(s, (n - 1) as nat) + descriptor_of(s[n - 1])
    }
}

/// The Java source rendering of `t`.
pub open spec fn java_of(t: Type) -> Seq<char>
    decreases t, 0nat,
{
    match t {
        Type::Array { inner } => java_of(*inner) + "[]"@,
        Type::Object { class_name } => class_name@,
        Type::Generic { class_name, type_arguments } => class_name@ + seq!['<'] + java_list(
            type_arguments@,
            type_arguments@.len(),
        ) + seq!['>'],
        _ => base_name(t),
    }
}

/// The Java renderings of the first `n` types of `s`, separated by `", "`.
pub open spec fn java_list(s: Seq<Type>, n: nat) -> Seq<char>
    decreases s, n,
{
    if n == 0 || n > s.len() {
        Seq::empty()
    } else if n == 1 {
        java_of(s[0])
    } else {
        java_list(s, (n - 1) as nat) + ", "@ + java_of(s[n - 1])
    }
}

proof fn lemma_descriptors_push(s: Seq<Type>, t: Type, n: nat)
    requires
        n <= s.len(),
    ensures
        descriptors_of(s.push(t), n) == descriptors_of(s, n),
    decreases n,
{
    if n > 0 {
        lemma_descriptors_push(s, t, (n - 1) as nat);
        assert(s.push(t)[n - 1] == s[n - 1]);
    }
}

proof fn lemma_valid_types_push(s: Seq<Type>, t: Type, n: nat)
    requires
        n <= s.len(),
    ensures
        valid_types(s.push(t), n) == valid_types(s, n),
    decreases n,
{
    if n > 0 {
        lemma_valid_types_push(s, t, (n - 1) as nat);
        assert(s.push(t)[n - 1] == s[n - 1]);
    }
}

/// `d` stands in `s` from index `i` on.
pub open spec fn prefix_at(s: Seq<char>, i: int, d: Seq<char>) -> bool {
    0 <= i && i + d.len() <= s.len() && s.subrange(i, i + d.len()) == d
}

/// The class name of an object or generic type.
pub open spec fn class_name_of(t: Type) -> Seq<char> {
    match t {
        Type::Object { class_name } => class_name@,
        Type::Generic { class_name, .. } => class_name@,
        _ => Seq::empty(),
    }
}

/// Where the parts of an `L...` descriptor stand when it is found at `i`.
proof fn lemma_object_layout(s: Seq<char>, i: int, t: Type)
    requires
        valid_type(t),
        t is Object || t is Generic,
        prefix_at(s, i, descriptor_of(t)),
    ensures
        ({
            let f = internal_form(class_name_of(t));
            &&& s[i] == 'L'
            &&& f.len() >= 1
            &&& dotted(f) == class_name_of(t)
            &&& forall|m: int| 0 <= m < f.len() ==> s[i + 1 + m] == #[trigger] f[m] && f[m] != ';'
                && f[m] != '<' && f[m] != '>' && f[m] != '.'
            &&& t is Object ==> s[i + 1 + f.len()] == ';' && descriptor_of(t).len() == f.len() + 2
            &&& t is Generic ==> {
                let a = t->Generic_type_arguments@;
                let ds = descriptors_of(a, a.len());
                &&& s[i + 1 + f.len()] == '<'
                &&& prefix_at(s, i + 2 + f.len(), ds)
                &&& s[i + 2 + f.len() + ds.len()] == '>'
                &&& s[i + 3 + f.len() + ds.len()] == ';'
                &&& descriptor_of(t).len() == f.len() + 4 + ds.len()
            }
        }),
{
    let n = class_name_of(t);
    let f = internal_form(n);
    let fl: int = f.len() as int;
    let d = descriptor_of(t);
    assert(s.subrange(i, i + d.len()) == d);
    assert(d[0] == 'L');
    assert(s.subrange(i, i + d.len())[0] == s[i]);
    assert(f.len() == n.len());
    assert forall|m: int| 0 <= m < fl implies s[i + 1 + m] == #[trigger] f[m] && f[m] != ';'
        && f[m] != '<' && f[m] != '>' && f[m] != '.' by {
        assert(d[1 + m] == f[m]);
        assert(s.subrange(i, i + d.len())[1 + m] == s[i + 1 + m]);
        assert(n[m] != ';' && n[m] != '<' && n[m] != '>' && n[m] != '/');
    }
    assert(dotted(f) =~= n) by {
        assert forall|m: int| 0 <= m < n.len() implies dotted(f)[m] == n[m] by {
            assert(n[m] != '/');
        }
    }
    if t is Object {
        assert(d =~= seq!['L'] + f + seq![';']);
        assert(d[1 + fl] == ';');
        assert(s.subrange(i, i + d.len())[1 + fl] == s[i + 1 + fl]);
    } else {
        let a = t->Generic_type_arguments@;
        let ds = descriptors_of(a, a.len());
        let dl: int = ds.len() as int;
        assert(d == seq!['L'] + f + seq!['<'] + ds + seq!['>', ';']);
        assert(d[1 + fl] == '<');
        assert(s.subrange(i, i + d.len())[1 + fl] == s[i + 1 + fl]);
        assert(s.subrange(i + 2 + fl, i + 2 + fl + dl) =~= ds) by {
            assert forall|m: int| 0 <= m < dl implies s[i + 2 + fl + m] == ds[m] by {
                assert(d[2 + fl + m] == ds[m]);
                assert(s.subrange(i, i + d.len())[2 + fl + m] == s[i + 2 + fl + m]);
            }
        }
        assert(d[2 + fl + dl] == '>');
        assert(d[3 + fl + dl] == ';');
        assert(s.subrange(i, i + d.len())[2 + fl + dl] == s[i + 2 + fl + dl]);
        assert(s.subrange(i, i + d.len())[3 + fl + dl] == s[i + 3 + fl + dl]);
    }
}

/// Parses one type starting at `i`; returns it with the index just past it. Whenever a
/// well-formed type's descriptor stands at `i`, that is what is parsed.
fn parse_type(cs: &Vec<char>, i: usize) -> (r: Option<(Type, usize)>)
    requires
        i <= cs@.len(),
    ensures
        r matches Some((t, j)) ==> i < j <= cs@.len() && cs@.subrange(i as int, j as int)
            == descriptor_of(t) && valid_type(t),
        forall|t: Type| valid_type(t) && #[trigger] prefix_at(cs@, i as int, descriptor_of(t))
            ==> (r matches Some((t2, j)) && j == i + descriptor_of(t).len()),
    decreases cs@.len() - i, 1nat,
{
    if i >= cs.len() {
        proof {
            assert forall|t: Type| valid_type(t) && #[trigger] prefix_at(cs@, i as int, descriptor_of(t)) implies false by {
                lemma_descriptor_shape(t);
            }
        }
        return None;
    }
    let c = cs[i];
    let t = if c == 'V' {
        Type::Void
    } else if c == 'B' {
        Type::Byte
    } else if c == 'C' {
        Type::Char
    } else if c == 'D' {
        Type::Double
    } else if c == 'F' {
        Type::Float
    } else if c == 'I' {
        Type::Int
    } else if c == 'J' {
        Type::Long
    } else if c == 'S' {
        Type::Short
    } else if c == 'Z' {
        Type::Boolean
    } else if c == '[' {
        let r = parse_type(cs, i + 1);
        proof {
            assert forall|t: Type| valid_type(t) && #[trigger] prefix_at(cs@, i as int, descriptor_of(t)) implies t is Array && (r matches Some((t2, j)) && j == i + 1 + descriptor_of(*t->Array_inner).len()) by {
                lemma_descriptor_shape(t);
                let d = descriptor_of(t);
                assert(cs@.subrange(i as int, i + d.len())[0] == cs@[i as int]);
                let inner = *t->Array_inner;
                assert(d == seq!['['] + descriptor_of(inner));
                assert(cs@.subrange(i + 1, i + 1 + descriptor_of(inner).len()) =~= descriptor_of(inner)) by {
                    assert forall|m: int| 0 <= m < descriptor_of(inner).len() implies cs@[i + 1 + m] == descriptor_of(inner)[m] by {
                        assert(d[1 + m] == descriptor_of(inner)[m]);
                        assert(cs@.subrange(i as int, i + d.len())[1 + m] == cs@[i + 1 + m]);
                    }
                }
                assert(prefix_at(cs@, i + 1, descriptor_of(inner)));
            }
        }
        let (inner, j) = r?;
        assert(cs@.subrange(i as int, j as int) =~= seq!['['] + cs@.subrange(i + 1, j as int));
        return Some((Type::Array { inner: Box::new(inner) }, j));
    } else if c == 'L' {
        return parse_object(cs, i);
    } else {
        proof {
            assert forall|t: Type| valid_type(t) && #[trigger] prefix_at(cs@, i as int, descriptor_of(t)) implies false by {
                lemma_descriptor_shape(t);
                let d = descriptor_of(t);
                assert(cs@.subrange(i as int, i + d.len())[0] == cs@[i as int]);
            }
        }
        return None;
    };
    proof {
        assert forall|t2: Type| valid_type(t2) && #[trigger] prefix_at(cs@, i as int, descriptor_of(t2)) implies descriptor_of(t2).len() == 1 by {
            lemma_descriptor_shape(t2);
            let d = descriptor_of(t2);
            assert(cs@.subrange(i as int, i + d.len())[0] == cs@[i as int]);
        }
    }
    assert(cs@.subrange(i as int, i + 1) =~= seq![c]);
    Some((t, i + 1))
}

/// Parses `L<name>;` or `L<name><<args>>;` starting at `i`.
fn parse_object(cs: &Vec<char>, i: usize) -> (r: Option<(Type, usize)>)
    requires
        i < cs@.len(),
        cs@[i as int] == 'L',
    ensures
        r matches Some((t, j)) ==> i < j <= cs@.len() && cs@.subrange(i as int, j as int)
            == descriptor_of(t) && valid_type(t),
        forall|t: Type| valid_type(t) && #[trigger] prefix_at(cs@, i as int, descriptor_of(t))
            ==> (r matches Some((t2, j)) && j == i + descriptor_of(t).len()),
    decreases cs@.len() - i, 0nat,
{
    let n = cs.len();
    let mut name = String::new();
    let mut k: usize = i + 1;
    while k < cs.len() && cs[k] != ';' && cs[k] != '<'
        invariant
            i < k <= cs@.len(),
            cs@[i as int] == 'L',
            name@ == dotted(cs@.subrange(i + 1, k as int)),
            forall|m: int| i + 1 <= m < k ==> #[trigger] cs@[m] != '.' && cs@[m] != ';' && cs@[m] != '<' && cs@[m] != '>',
        decreases cs@.len() - k,
    {
        let c = cs[k];
        if c == '.' || c == '>' {
            proof {
                assert forall|t: Type| valid_type(t) && #[trigger] prefix_at(cs@, i as int, descriptor_of(t)) implies false by {
                    lemma_descriptor_shape(t);
                    let d = descriptor_of(t);
                    assert(cs@.subrange(i as int, i + d.len())[0] == cs@[i as int]);
                    lemma_object_layout(cs@, i as int, t);
                    let f = internal_form(class_name_of(t));
                    if k > i + 1 + f.len() {
                        assert(cs@[i + 1 + f.len()] != ';' && cs@[i + 1 + f.len()] != '<');
                    }
                    assert(f[k - i - 1] == cs@[k as int]);
                }
            }
            return None;
        }
        let d = if c == '/' { '.' } else { c };
        push_char(&mut name, d);
        assert(cs@.subrange(i + 1, k + 1) =~= cs@.subrange(i + 1, k as int).push(c));
        assert(dotted(cs@.subrange(i + 1, k + 1)) =~= dotted(cs@.subrange(i + 1, k as int)).push(d));
        k = k + 1;
    }
    proof {
        assert forall|t: Type| valid_type(t) && #[trigger] prefix_at(cs@, i as int, descriptor_of(t)) implies
            k == i + 1 + internal_form(class_name_of(t)).len() && (t is Object || t is Generic) by {
            lemma_descriptor_shape(t);
            let d = descriptor_of(t);
            assert(cs@.subrange(i as int, i + d.len())[0] == cs@[i as int]);
            lemma_object_layout(cs@, i as int, t);
            let f = internal_form(class_name_of(t));
            if k > i + 1 + f.len() {
                assert(cs@[i + 1 + f.len()] != ';' && cs@[i + 1 + f.len()] != '<');
            }
            if k < i + 1 + f.len() {
                assert(f[k - i - 1] == cs@[k as int]);
            }
        }
    }
    if k >= cs.len() || k == i + 1 {
        proof {
            assert forall|t: Type| valid_type(t) && #[trigger] prefix_at(cs@, i as int, descriptor_of(t)) implies false by {
                lemma_object_layout(cs@, i as int, t);
            }
        }
        return None;
    }
    assert(internal_form(name@) =~= cs@.subrange(i + 1, k as int));
    assert(valid_class_name(name@)) by {
        assert forall|m: int| 0 <= m < name@.len() implies #[trigger] name@[m] != ';' && name@[m] != '<'
            && name@[m] != '>' && name@[m] != '/' by {
            assert(cs@.subrange(i + 1, k as int)[m] == cs@[i + 1 + m]);
            assert(cs@[i + 1 + m] != '.' && cs@[i + 1 + m] != ';' && cs@[i + 1 + m] != '<' && cs@[i + 1 + m] != '>');
        }
    }
    if cs[k] == ';' {
        proof {
            assert forall|t: Type| valid_type(t) && #[trigger] prefix_at(cs@, i as int, descriptor_of(t)) implies
                k + 1 == i + descriptor_of(t).len() by {
                lemma_object_layout(cs@, i as int, t);
            }
        }
        assert(cs@.subrange(i as int, k + 1) =~= seq!['L'] + internal_form(name@) + seq![';']);
        return Some((Type::Object { class_name: name }, k + 1));
    }
    proof {
        assert forall|t: Type| valid_type(t) && #[trigger] prefix_at(cs@, i as int, descriptor_of(t)) implies
            t is Generic by {
            lemma_object_layout(cs@, i as int, t);
        }
    }
    let mut args: Vec<Type> = Vec::new();
    let mut p: usize = k + 1;
    while p < cs.len() && cs[p] != '>'
        invariant
            i < k < p <= cs@.len(),
            cs@.subrange(k + 1, p as int) == descriptors_of(args@, args@.len()),
            valid_types(args@, args@.len()),
            valid_class_name(name@),
            forall|t: Type| valid_type(t) && #[trigger] prefix_at(cs@, i as int, descriptor_of(t)) ==>
                t is Generic && k == i + 1 + internal_form(class_name_of(t)).len()
                && args@.len() <= t->Generic_type_arguments@.len()
                && p == k + 1 + descriptors_of(t->Generic_type_arguments@, args@.len()).len(),
        decreases cs@.len() - p,
    {
        let ghost before = args@;
        let r = parse_type(cs, p);
        proof {
            assert forall|t: Type| valid_type(t) && #[trigger] prefix_at(cs@, i as int, descriptor_of(t)) implies
                args@.len() < t->Generic_type_arguments@.len() && (r matches Some((t2, q)) && q == p + descriptor_of(t->Generic_type_arguments@[args@.len() as int]).len()) by {
                lemma_object_layout(cs@, i as int, t);
                let a = t->Generic_type_arguments@;
                let na = args@.len();
                let ds = descriptors_of(a, a.len());
                lemma_descriptors_split(a, na);
                lemma_descriptors_split(a, a.len());
                assert(descriptors_from(a, a.len() as int) =~= Seq::<char>::empty());
                assert(ds =~= descriptors_of(a, na) + descriptors_from(a, na as int));
                if na == a.len() {
                    assert(cs@[p as int] == '>');
                    assert(false);
                }
                lemma_valid_types_each(a, a.len());
                let e = a[na as int];
                assert(descriptors_from(a, na as int) == descriptor_of(e) + descriptors_from(a, na as int + 1));
                let base = k + 1;
                assert(prefix_at(cs@, base as int, ds));
                assert(cs@.subrange(p as int, p + descriptor_of(e).len()) =~= descriptor_of(e)) by {
                    assert forall|m: int| 0 <= m < descriptor_of(e).len() implies cs@[p + m] == descriptor_of(e)[m] by {
                        assert(ds[descriptors_of(a, na).len() + m] == descriptor_of(e)[m]);
                        assert(cs@.subrange(base as int, base + ds.len())[descriptors_of(a, na).len() + m] == cs@[p + m]);
                    }
                }
                assert(prefix_at(cs@, p as int, descriptor_of(e)));
            }
        }
        let (t, q) = r?;
        proof {
            lemma_valid_types_push(args@, t, args@.len());
            lemma_descriptors_push(args@, t, args@.len());
            assert(cs@.subrange(k + 1, q as int) =~= cs@.subrange(k + 1, p as int) + cs@.subrange(
                p as int,
                q as int,
            ));
        }
        args.push(t);
        p = q;
        proof {
            assert forall|t3: Type| valid_type(t3) && #[trigger] prefix_at(cs@, i as int, descriptor_of(t3)) implies
                p == k + 1 + descriptors_of(t3->Generic_type_arguments@, args@.len()).len() by {
                let a = t3->Generic_type_arguments@;
                assert(descriptors_of(a, args@.len()) == descriptors_of(a, before.len()) + descriptor_of(a[before.len() as int]));
            }
        }
    }
    proof {
        assert forall|t: Type| valid_type(t) && #[trigger] prefix_at(cs@, i as int, descriptor_of(t)) implies
            args@.len() > 0 && p < n - 1 && cs@[p as int] == '>' && cs@[p + 1] == ';' && p + 2 == i + descriptor_of(t).len() by {
            lemma_object_layout(cs@, i as int, t);
            let a = t->Generic_type_arguments@;
            let na = args@.len();
            let ds = descriptors_of(a, a.len());
            lemma_descriptors_split(a, na);
            lemma_descriptors_split(a, a.len());
            assert(descriptors_from(a, a.len() as int) =~= Seq::<char>::empty());
            if na < a.len() {
                lemma_valid_types_each(a, a.len());
                let e = a[na as int];
                lemma_descriptor_shape(e);
                assert(descriptors_from(a, na as int) == descriptor_of(e) + descriptors_from(a, na as int + 1));
                assert(ds =~= descriptors_of(a, na) + descriptors_from(a, na as int));
                let base = k + 1;
                assert(cs@.subrange(base as int, base + ds.len())[descriptors_of(a, na).len() as int] == cs@[p as int]);
                assert(ds[descriptors_of(a, na).len() as int] == descriptor_of(e)[0]);
                assert(false);
            }
        }
    }
    if args.len() == 0 || p >= n - 1 || cs[p + 1] != ';' {
        return None;
    }
    assert(cs@.subrange(i as int, p + 2) =~= seq!['L'] + cs@.subrange(i + 1, k as int) + seq!['<']
        + cs@.subrange(k + 1, p as int) + seq!['>', ';']);
    Some((Type::Generic { class_name: name, type_arguments: args }, p + 2))
}

/// The Java rendering of a type.
pub fn java_string(t: &Type) -> (r: String)
    ensures
        r@ == java_of(*t),
    decreases t,
{
    match t {
        Type::Void => lit("void"),
        Type::Byte => lit("byte"),
        Type::Char => lit("char"),
        Type::Double => lit("double"),
        Type::Float => lit("float"),
        Type::Int => lit("int"),
        Type::Long => lit("long"),
        Type::Short => lit("short"),
        Type::Boolean => lit("boolean"),
        Type::Array { inner } => {
            let mut s = java_string(inner);
            push_str(&mut s, "[]");
            s
        },
        Type::Object { class_name } => lit(class_name.as_str()),
        Type::Generic { class_name, type_arguments } => {
            let mut s = lit(class_name.as_str());
            push_char(&mut s, '<');
            let list = java_list_string(type_arguments);
            push_str(&mut s, list.as_str());
            push_char(&mut s, '>');
            assert(s@ =~= class_name@ + seq!['<'] + java_list(type_arguments@, type_arguments@.len()) + seq!['>']);
            s
        },
    }
}

/// The Java renderings of `ts`, separated by `", "`.
pub fn java_list_string(ts: &Vec<Type>) -> (r: String)
    ensures
        r@ == java_list(ts@, ts@.len()),
    decreases ts, 0nat,
{
    let mut s = String::new();
    let mut k: usize = 0;
    while k < ts.len()
        invariant
            0 <= k <= ts@.len(),
            s@ == java_list(ts@, k as nat),
        decreases ts@.len() - k,
    {
        if k > 0 {
            push_str(&mut s, ", ");
        }
        assert(decreases_to!(ts => ts[k as int]));
        let item = java_string(&ts[k]);
        push_str(&mut s, item.as_str());
        assert(s@ =~= java_list(ts@, (k + 1) as nat));
        k = k + 1;
    }
    s
}

/// The descriptor text of a method with these parameter and return types.
pub open spec fn method_descriptor_of(params: Seq<Type>, ret: Type) -> Seq<char> {
    seq!['('] + descriptors_of(params, params.len()) + seq![')'] + descriptor_of(ret)
}

/// A parsed descriptor that renders in Java source syntax.
pub trait Descriptor {
    spec fn spec_java(&self) -> Seq<char>;

    fn java_string(&self) -> (r: String)
        ensures
            r@ == self.spec_java(),
    ;
}

/// The type of a field.
pub struct FieldDescriptor {
    pub field_type: Type,
}

impl Descriptor for FieldDescriptor {
    open spec fn spec_java(&self) -> Seq<char> {
        java_of(self.field_type)
    }

    fn java_string(&self) -> (r: String) {
        java_string(&self.field_type)
    }
}

/// The return type and the parameter types of a method.
pub struct MethodDescriptor {
    pub return_type: Type,
    pub parameter_types: Vec<Type>,
}

impl Descriptor for MethodDescriptor {
    /// `Return(Param, Param)`.
    open spec fn spec_java(&self) -> Seq<char> {
        java_of(self.return_type) + seq!['('] + java_list(
            self.parameter_types@,
            self.parameter_types@.len(),
        ) + seq![')']
    }

    fn java_string(&self) -> (r: String) {
        let mut s = java_string(&self.return_type);
        push_char(&mut s, '(');
        let list = java_list_string(&self.parameter_types);
        push_str(&mut s, list.as_str());
        push_char(&mut s, ')');
        assert(s@ =~= self.spec_java());
        s
    }
}

fn invalid(raw: &str) -> (r: ClassFileError)
    ensures
        r == (ClassFileError::InvalidDescriptor { descriptor: r->InvalidDescriptor_descriptor }),
        r->InvalidDescriptor_descriptor@ == raw@,
{
    ClassFileError::InvalidDescriptor { descriptor: lit(raw) }
}

/// Parses a field descriptor: exactly one type, nothing after it. What is parsed has the
/// input as its descriptor; and the descriptor of any well-formed type parses, to a type
/// that renders as that type does, so printing what was parsed gives the Java rendering.
pub fn parse_field_descriptor(raw_descriptor: &str) -> (r: Result<FieldDescriptor, ClassFileError>)
    ensures
        r matches Ok(d) ==> descriptor_of(d.field_type) == raw_descriptor@ && valid_type(d.field_type),
        r matches Err(e) ==> e is InvalidDescriptor && e->InvalidDescriptor_descriptor@
            == raw_descriptor@,
        forall|t: Type| valid_type(t) && descriptor_of(t) == raw_descriptor@ ==> (r matches Ok(d)
            && java_of(d.field_type) == java_of(t)),
{
    let cs = chars_of(raw_descriptor);
    let r = parse_type(&cs, 0);
    proof {
        assert forall|t: Type| valid_type(t) && descriptor_of(t) == raw_descriptor@ implies (r matches Some((t2, j))
            && j == cs@.len() && java_of(t2) == java_of(t)) by {
            assert(cs@.subrange(0, descriptor_of(t).len() as int) =~= cs@);
            assert(prefix_at(cs@, 0, descriptor_of(t)));
            let (t2, j) = r->Some_0;
            assert(cs@.subrange(0, j as int) =~= cs@);
            descriptor_determines_rendering(t2, t);
        }
    }
    match r {
        Some((t, j)) => {
            if j == cs.len() {
                assert(cs@.subrange(0, j as int) =~= cs@);
                Ok(FieldDescriptor { field_type: t })
            } else {
                Err(invalid(raw_descriptor))
            }
        },
        None => Err(invalid(raw_descriptor)),
    }
}

/// Parses a method descriptor: `(`, the parameter types, `)`, the return type. What is
/// parsed has the input as its descriptor, and the descriptor of any well-formed parameter
/// list and return type parses.
pub fn parse_method_descriptor(raw_descriptor: &str) -> (r: Result<MethodDescriptor, ClassFileError>)
    ensures
        r matches Ok(d) ==> method_descriptor_of(d.parameter_types@, d.return_type)
            == raw_descriptor@ && valid_type(d.return_type) && valid_types(
            d.parameter_types@,
            d.parameter_types@.len(),
        ),
        r matches Err(e) ==> e is InvalidDescriptor && e->InvalidDescriptor_descriptor@
            == raw_descriptor@,
        forall|params: Seq<Type>, ret: Type|
            valid_types(params, params.len()) && valid_type(ret) && #[trigger] method_descriptor_of(params, ret)
                == raw_descriptor@ ==> r is Ok,
        forall|params: Seq<Type>, ret: Type|
            valid_types(params, params.len()) && valid_type(ret) && #[trigger] method_descriptor_of(params, ret)
                == raw_descriptor@ ==> (r matches Ok(d) && d.parameter_types@.len() == params.len()
                && (forall|k: int| 0 <= k < params.len() ==> java_of(#[trigger] d.parameter_types@[k]) == java_of(params[k]))
                && java_of(d.return_type) == java_of(ret)),
{
    let cs = chars_of(raw_descriptor);
    let n = cs.len();
    if n == 0 || cs[0] != '(' {
        return Err(invalid(raw_descriptor));
    }
    let mut params: Vec<Type> = Vec::new();
    let mut p: usize = 1;
    while p < n && cs[p] != ')'
        invariant
            n == cs@.len(),
            cs@ == raw_descriptor@,
            1 <= p <= n,
            cs@[0] == '(',
            cs@.subrange(1, p as int) == descriptors_of(params@, params@.len()),
            valid_types(params@, params@.len()),
            forall|ps: Seq<Type>, rt: Type|
                valid_types(ps, ps.len()) && valid_type(rt) && #[trigger] method_descriptor_of(ps, rt) == cs@
                    ==> params@.len() <= ps.len() && p == 1 + descriptors_of(ps, params@.len()).len(),
        decreases n - p,
    {
        let ghost before = params@;
        let r = parse_type(&cs, p);
        proof {
            assert forall|ps: Seq<Type>, rt: Type|
                valid_types(ps, ps.len()) && valid_type(rt) && #[trigger] method_descriptor_of(ps, rt) == cs@
                implies params@.len() < ps.len() && (r matches Some((t2, q)) && q == p + descriptor_of(ps[params@.len() as int]).len()) by {
                let na = params@.len();
                let ds = descriptors_of(ps, ps.len());
                lemma_descriptors_split(ps, na);
                lemma_descriptors_split(ps, ps.len());
                assert(descriptors_from(ps, ps.len() as int) =~= Seq::<char>::empty());
                assert(ds =~= descriptors_of(ps, na) + descriptors_from(ps, na as int));
                assert(cs@ == seq!['('] + ds + seq![')'] + descriptor_of(rt));
                if na == ps.len() {
                    assert(cs@[p as int] == ')');
                    assert(false);
                }
                lemma_valid_types_each(ps, ps.len());
                let e = ps[na as int];
                assert(descriptors_from(ps, na as int) == descriptor_of(e) + descriptors_from(ps, na as int + 1));
                assert(cs@.subrange(p as int, p + descriptor_of(e).len()) =~= descriptor_of(e)) by {
                    assert forall|m: int| 0 <= m < descriptor_of(e).len() implies cs@[p + m] == descriptor_of(e)[m] by {
                        assert(ds[descriptors_of(ps, na).len() + m] == descriptor_of(e)[m]);
                        assert(cs@[1 + descriptors_of(ps, na).len() + m] == ds[descriptors_of(ps, na).len() + m]);
                    }
                }
                assert(prefix_at(cs@, p as int, descriptor_of(e)));
            }
        }
        match r {
            Some((t, q)) => {
                proof {
                    lemma_valid_types_push(params@, t, params@.len());
                    lemma_descriptors_push(params@, t, params@.len());
                    assert(cs@.subrange(1, q as int) =~= cs@.subrange(1, p as int) + cs@.subrange(
                        p as int,
                        q as int,
                    ));
                }
                params.push(t);
                p = q;
                proof {
                    assert forall|ps: Seq<Type>, rt: Type|
                        valid_types(ps, ps.len()) && valid_type(rt) && #[trigger] method_descriptor_of(ps, rt) == cs@
                        implies p == 1 + descriptors_of(ps, params@.len()).len() by {
                        assert(descriptors_of(ps, params@.len()) == descriptors_of(ps, before.len()) + descriptor_of(ps[before.len() as int]));
                    }
                }
            },
            None => return Err(invalid(raw_descriptor)),
        }
    }
    proof {
        assert forall|ps: Seq<Type>, rt: Type|
            valid_types(ps, ps.len()) && valid_type(rt) && #[trigger] method_descriptor_of(ps, rt) == cs@
            implies p < n && prefix_at(cs@, p + 1, descriptor_of(rt)) && p + 1 + descriptor_of(rt).len() == n by {
            let na = params@.len();
            let ds = descriptors_of(ps, ps.len());
            lemma_descriptors_split(ps, na);
            lemma_descriptors_split(ps, ps.len());
            assert(descriptors_from(ps, ps.len() as int) =~= Seq::<char>::empty());
            assert(ds =~= descriptors_of(ps, na) + descriptors_from(ps, na as int));
            assert(cs@ == seq!['('] + ds + seq![')'] + descriptor_of(rt));
            if na < ps.len() {
                lemma_valid_types_each(ps, ps.len());
                let e = ps[na as int];
                lemma_descriptor_shape(e);
                assert(descriptors_from(ps, na as int) == descriptor_of(e) + descriptors_from(ps, na as int + 1));
                assert(cs@[p as int] == ds[descriptors_of(ps, na).len() as int]);
                assert(ds[descriptors_of(ps, na).len() as int] == descriptor_of(e)[0]);
                assert(false);
            }
            assert(cs@.subrange(p + 1, p + 1 + descriptor_of(rt).len()) =~= descriptor_of(rt));
        }
    }
    if p >= n {
        return Err(invalid(raw_descriptor));
    }
    match parse_type(&cs, p + 1) {
        Some((ret, j)) => {
            if j != n {
                return Err(invalid(raw_descriptor));
            }
            assert(cs@ =~= seq!['('] + cs@.subrange(1, p as int) + seq![')'] + cs@.subrange(
                p + 1,
                j as int,
            ));
            proof {
                assert forall|ps: Seq<Type>, rt: Type|
                    valid_types(ps, ps.len()) && valid_type(rt) && #[trigger] method_descriptor_of(ps, rt)
                        == raw_descriptor@ implies params@.len() == ps.len()
                        && (forall|k: int| 0 <= k < ps.len() ==> java_of(#[trigger] params@[k]) == java_of(ps[k]))
                        && java_of(ret) == java_of(rt) by {
                    method_descriptor_determines_rendering(params@, ret, ps, rt);
                }
            }
            Ok(MethodDescriptor { return_type: ret, parameter_types: params })
        },
        None => Err(invalid(raw_descriptor)),
    }
}

/// A class name as types hold it: non-empty, dot-separated, and free of the characters
/// that delimit names inside descriptors.
pub open spec fn valid_class_name(s: Seq<char>) -> bool {
    s.len() > 0 && forall|i: int|
        0 <= i < s.len() ==> #[trigger] s[i] != ';' && s[i] != '<' && s[i] != '>' && s[i] != '/'
}

/// Whether every class name in `t` is valid and every generic type has arguments.
pub open spec fn valid_type(t: Type) -> bool
    decreases t, 0nat,
{
    match t {
        Type::Array { inner } => valid_type(*inner),
        Type::Object { class_name } => valid_class_name(class_name@),
        Type::Generic { class_name, type_arguments } => valid_class_name(class_name@)
            && type_arguments@.len() > 0 && valid_types(type_arguments@, type_arguments@.len()),
        _ => true,
    }
}

/// Whether the first `n` types of `s` are valid.
pub open spec fn valid_types(s: Seq<Type>, n: nat) -> bool
    decreases s, n,
{
    if n == 0 || n > s.len() {
        true
    } else {
        valid_types(s, (n - 1) as nat) && valid_type(s[n - 1])
    }
}

/// The descriptors of the types of `s` from index `i` on, one after another.
pub open spec fn descriptors_from(s: Seq<Type>, i: int) -> Seq<char>
    decreases s.len() - i,
{
    if i < 0 || i >= s.len() {
        Seq::empty()
    } else {
        descriptor_of(s[i]) + descriptors_from(s, i + 1)
    }
}

proof fn lemma_valid_types_each(s: Seq<Type>, n: nat)
    requires
        n <= s.len(),
        valid_types(s, n),
    ensures
        forall|k: int| 0 <= k < n ==> valid_type(#[trigger] s[k]),
    decreases n,
{
    if n > 0 {
        lemma_valid_types_each(s, (n - 1) as nat);
    }
}

proof fn lemma_descriptors_split(s: Seq<Type>, n: nat)
    requires
        n <= s.len(),
    ensures
        descriptors_of(s, n) + descriptors_from(s, n as int) == descriptors_from(s, 0),
    decreases n,
{
    if n > 0 {
        lemma_descriptors_split(s, (n - 1) as nat);
        assert(descriptors_from(s, n - 1) == descriptor_of(s[n - 1]) + descriptors_from(s, n as int));
        assert(descriptors_of(s, n) + descriptors_from(s, n as int) =~= descriptors_of(s, (n - 1) as nat)
            + descriptors_from(s, n - 1));
    } else {
        assert(descriptors_of(s, 0) + descriptors_from(s, 0) =~= descriptors_from(s, 0));
    }
}

pub(crate) proof fn lemma_descriptor_shape(t: Type)
    ensures
        descriptor_of(t).len() > 0,
        descriptor_of(t)[0] != '>',
        descriptor_of(t)[0] != ')',
        descriptor_of(t)[0] != '(',
        descriptor_of(t)[0] == 'L' <==> (t is Object || t is Generic),
        descriptor_of(t)[0] == '[' <==> t is Array,
        base_letter(t) is Some ==> descriptor_of(t) == seq![base_letter(t)->Some_0],
{
}

/// Two well-formed types whose descriptors start a common text alike denote the same
/// descriptor and render alike.
proof fn lemma_prefix_unique(t1: Type, t2: Type, r1: Seq<char>, r2: Seq<char>)
    requires
        valid_type(t1),
        valid_type(t2),
        descriptor_of(t1) + r1 == descriptor_of(t2) + r2,
    ensures
        descriptor_of(t1) == descriptor_of(t2),
        java_of(t1) == java_of(t2),
    decreases t1, 1nat,
{
    let d1 = descriptor_of(t1);
    let d2 = descriptor_of(t2);
    let st = d1 + r1;
    lemma_descriptor_shape(t1);
    lemma_descriptor_shape(t2);
    assert(st[0] == d1[0] && st[0] == (d2 + r2)[0]);
    match t1 {
        Type::Array { inner: i1 } => {
            let i2 = t2->Array_inner;
            assert(d1 == seq!['['] + descriptor_of(*i1));
            assert(d2 == seq!['['] + descriptor_of(*i2));
            assert(descriptor_of(*i1) + r1 =~= (d1 + r1).drop_first());
            assert(descriptor_of(*i2) + r2 =~= (d2 + r2).drop_first());
            lemma_prefix_unique(*i1, *i2, r1, r2);
        },
        Type::Object { class_name: n1 } => {
            lemma_names_unique(t1, t2, r1, r2);
        },
        Type::Generic { class_name: n1, type_arguments: a1 } => {
            lemma_names_unique(t1, t2, r1, r2);
            let n2 = t2->Generic_class_name;
            let a2 = t2->Generic_type_arguments;
            let k: int = 2 + n1@.len() as int;
            let rest1 = seq!['>', ';'] + r1;
            let rest2 = seq!['>', ';'] + r2;
            lemma_descriptors_split(a1@, a1@.len());
            lemma_descriptors_split(a2@, a2@.len());
            assert(descriptors_from(a1@, a1@.len() as int) =~= Seq::<char>::empty());
            assert(descriptors_from(a2@, a2@.len() as int) =~= Seq::<char>::empty());
            assert(st.subrange(k, st.len() as int) =~= descriptors_from(a1@, 0) + rest1);
            assert((d2 + r2).subrange(k, st.len() as int) =~= descriptors_from(a2@, 0) + rest2);
            lemma_valid_types_each(a1@, a1@.len());
            lemma_valid_types_each(a2@, a2@.len());
            lemma_list_unique(a1@, 0, a2@, 0, rest1, rest2);
            lemma_lists_alike(a1@, a2@, a1@.len());
            assert(d1 =~= d2);
        },
        _ => {},
    }
}

/// Two `L...` descriptors that start a common text alike have the same class name and
/// the same kind (plain or generic).
proof fn lemma_names_unique(t1: Type, t2: Type, r1: Seq<char>, r2: Seq<char>)
    requires
        valid_type(t1),
        valid_type(t2),
        t1 is Object || t1 is Generic,
        descriptor_of(t1) + r1 == descriptor_of(t2) + r2,
    ensures
        t1 is Object ==> t2 is Object && t1->Object_class_name@ == t2->Object_class_name@,
        t1 is Generic ==> t2 is Generic && t1->Generic_class_name@ == t2->Generic_class_name@,
{
    lemma_descriptor_shape(t1);
    lemma_descriptor_shape(t2);
    let st = descriptor_of(t1) + r1;
    assert(st[0] == (descriptor_of(t2) + r2)[0]);
    let n1 = if t1 is Object { t1->Object_class_name@ } else { t1->Generic_class_name@ };
    let n2 = if t2 is Object { t2->Object_class_name@ } else { t2->Generic_class_name@ };
    let f1 = internal_form(n1);
    let f2 = internal_form(n2);
    let x1: Seq<char> = if t1 is Object { seq![';'] } else {
        seq!['<'] + descriptors_of(t1->Generic_type_arguments@, t1->Generic_type_arguments@.len()) + seq!['>', ';']
    };
    let x2: Seq<char> = if t2 is Object { seq![';'] } else {
        seq!['<'] + descriptors_of(t2->Generic_type_arguments@, t2->Generic_type_arguments@.len()) + seq!['>', ';']
    };
    assert(descriptor_of(t1) =~= seq!['L'] + f1 + x1);
    assert(descriptor_of(t2) =~= seq!['L'] + f2 + x2);
    assert forall|j: int| 1 <= j < 1 + f1.len() implies #[trigger] st[j] == f1[j - 1] by {}
    assert forall|j: int| 1 <= j < 1 + f2.len() implies #[trigger] st[j] == f2[j - 1] by {
        assert(st[j] == (descriptor_of(t2) + r2)[j]);
    }
    assert(st[1 + f1.len() as int] == x1[0]);
    assert(st[1 + f2.len() as int] == (descriptor_of(t2) + r2)[1 + f2.len() as int]);
    assert((descriptor_of(t2) + r2)[1 + f2.len() as int] == x2[0]);
    if f1.len() < f2.len() {
        assert(st[1 + f1.len() as int] == f2[f1.len() as int]);
        assert(n2[f1.len() as int] != ';' && n2[f1.len() as int] != '<');
        assert(false);
    }
    if f2.len() < f1.len() {
        assert(st[1 + f2.len() as int] == f1[f2.len() as int]);
        assert(n1[f2.len() as int] != ';' && n1[f2.len() as int] != '<');
        assert(false);
    }
    assert(f1.len() == f2.len());
    assert forall|i: int| 0 <= i < n1.len() implies n1[i] == n2[i] by {
        assert(st[1 + i] == f1[i] && st[1 + i] == f2[i]);
    }
    assert(n1 =~= n2);
}

/// Two lists of well-formed types whose descriptors, followed by texts that start with `>`,
/// read alike, are alike element by element.
proof fn lemma_list_unique(s1: Seq<Type>, i1: int, s2: Seq<Type>, i2: int, r1: Seq<char>, r2: Seq<char>)
    requires
        0 <= i1 <= s1.len(),
        0 <= i2 <= s2.len(),
        forall|k: int| 0 <= k < s1.len() ==> valid_type(#[trigger] s1[k]),
        forall|k: int| 0 <= k < s2.len() ==> valid_type(#[trigger] s2[k]),
        r1.len() > 0 && (r1[0] == '>' || r1[0] == ')'),
        r2.len() > 0 && (r2[0] == '>' || r2[0] == ')'),
        descriptors_from(s1, i1) + r1 == descriptors_from(s2, i2) + r2,
    ensures
        s1.len() - i1 == s2.len() - i2,
        forall|k: int| 0 <= k < s1.len() - i1 ==> descriptor_of(#[trigger] s1[i1 + k]) == descriptor_of(s2[i2 + k])
            && java_of(s1[i1 + k]) == java_of(s2[i2 + k]),
    decreases s1, s1.len() - i1,
{
    if i1 == s1.len() {
        assert(descriptors_from(s1, i1) =~= Seq::<char>::empty());
        if i2 < s2.len() {
            lemma_descriptor_shape(s2[i2]);
            assert((descriptors_from(s2, i2) + r2)[0] == descriptor_of(s2[i2])[0]);
            assert((descriptors_from(s1, i1) + r1)[0] == r1[0]);
        }
    } else {
        lemma_descriptor_shape(s1[i1]);
        if i2 == s2.len() {
            assert(descriptors_from(s2, i2) =~= Seq::<char>::empty());
            assert((descriptors_from(s1, i1) + r1)[0] == descriptor_of(s1[i1])[0]);
            assert((descriptors_from(s2, i2) + r2)[0] == r2[0]);
            assert(false);
        }
        let tail1 = descriptors_from(s1, i1 + 1) + r1;
        let tail2 = descriptors_from(s2, i2 + 1) + r2;
        assert(descriptor_of(s1[i1]) + tail1 =~= descriptors_from(s1, i1) + r1);
        assert(descriptor_of(s2[i2]) + tail2 =~= descriptors_from(s2, i2) + r2);
        lemma_prefix_unique(s1[i1], s2[i2], tail1, tail2);
        assert(tail1 =~= tail2) by {
            let a = descriptor_of(s1[i1]);
            assert(tail1 =~= (a + tail1).subrange(a.len() as int, (a + tail1).len() as int));
            assert(tail2 =~= (a + tail2).subrange(a.len() as int, (a + tail2).len() as int));
        }
        lemma_list_unique(s1, i1 + 1, s2, i2 + 1, r1, r2);
        assert forall|k: int| 0 <= k < s1.len() - i1 implies descriptor_of(#[trigger] s1[i1 + k]) == descriptor_of(s2[i2 + k])
            && java_of(s1[i1 + k]) == java_of(s2[i2 + k]) by {
            if k > 0 {
                assert(s1[i1 + k] == s1[(i1 + 1) + (k - 1)]);
                assert(s2[i2 + k] == s2[(i2 + 1) + (k - 1)]);
            }
        }
    }
}

proof fn lemma_lists_alike(s1: Seq<Type>, s2: Seq<Type>, n: nat)
    requires
        s1.len() == s2.len(),
        n <= s1.len(),
        forall|k: int| 0 <= k < s1.len() ==> descriptor_of(#[trigger] s1[0 + k]) == descriptor_of(s2[0 + k])
            && java_of(s1[0 + k]) == java_of(s2[0 + k]),
    ensures
        descriptors_of(s1, n) == descriptors_of(s2, n),
        java_list(s1, n) == java_list(s2, n),
    decreases n,
{
    if n > 0 {
        lemma_lists_alike(s1, s2, (n - 1) as nat);
        assert(s1[0 + (n - 1)] == s1[n - 1]);
        assert(s2[0 + (n - 1)] == s2[n - 1]);
        if n == 1 {
            assert(s1[0int + 0] == s1[0]);
            assert(s2[0int + 0] == s2[0]);
        }
    }
}

/// The Java rendering of a well-formed type is fixed by its descriptor: two types with the
/// same descriptor print alike.
pub proof fn descriptor_determines_rendering(t1: Type, t2: Type)
    requires
        valid_type(t1),
        valid_type(t2),
        descriptor_of(t1) == descriptor_of(t2),
    ensures
        java_of(t1) == java_of(t2),
{
    assert(descriptor_of(t1) + Seq::<char>::empty() =~= descriptor_of(t2) + Seq::<char>::empty());
    lemma_prefix_unique(t1, t2, Seq::empty(), Seq::empty());
}

/// The Java rendering of a method's parameter and return types is fixed by its descriptor:
/// two well-formed parameter lists and return types with the same method descriptor have
/// as many parameters, rendering alike one by one, and render their return types alike.
pub proof fn method_descriptor_determines_rendering(ps1: Seq<Type>, r1: Type, ps2: Seq<Type>, r2: Type)
    requires
        valid_types(ps1, ps1.len()),
        valid_types(ps2, ps2.len()),
        valid_type(r1),
        valid_type(r2),
        method_descriptor_of(ps1, r1) == method_descriptor_of(ps2, r2),
    ensures
        ps1.len() == ps2.len(),
        forall|k: int| 0 <= k < ps1.len() ==> java_of(#[trigger] ps1[k]) == java_of(ps2[k]),
        java_list(ps1, ps1.len()) == java_list(ps2, ps2.len()),
        java_of(r1) == java_of(r2),
{
    let d = method_descriptor_of(ps1, r1);
    lemma_descriptors_split(ps1, ps1.len());
    lemma_descriptors_split(ps2, ps2.len());
    assert(descriptors_from(ps1, ps1.len() as int) =~= Seq::<char>::empty());
    assert(descriptors_from(ps2, ps2.len() as int) =~= Seq::<char>::empty());
    let t1 = seq![')'] + descriptor_of(r1);
    let t2 = seq![')'] + descriptor_of(r2);
    assert(d.drop_first() =~= descriptors_from(ps1, 0) + t1);
    assert(method_descriptor_of(ps2, r2).drop_first() =~= descriptors_from(ps2, 0) + t2);
    lemma_valid_types_each(ps1, ps1.len());
    lemma_valid_types_each(ps2, ps2.len());
    lemma_list_unique(ps1, 0, ps2, 0, t1, t2);
    assert forall|k: int| 0 <= k < ps1.len() implies java_of(#[trigger] ps1[k]) == java_of(ps2[k]) by {
        assert(ps1[0 + k] == ps1[k]);
        assert(ps2[0 + k] == ps2[k]);
    }
    lemma_lists_alike(ps1, ps2, ps1.len());
    let n1: int = descriptors_of(ps1, ps1.len()).len() as int;
    assert(descriptors_of(ps1, ps1.len()) == descriptors_of(ps2, ps2.len()));
    assert(descriptor_of(r1) =~= d.subrange(2 + n1, d.len() as int));
    assert(descriptor_of(r2) =~= method_descriptor_of(ps2, r2).subrange(2 + n1, d.len() as int));
    descriptor_determines_rendering(r1, r2);
}

} // verus!
