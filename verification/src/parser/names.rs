//! The names a binding creates (§8.2.1 `BoundNames`), read off the finished tree.

use vstd::prelude::*;
use crate::ast::{
    Binding, BindingElement, BindingName, BindingPattern, BindingProperty, Declarator, FormalParameters, Stmt,
    StmtKind,
};
use crate::span::Span;
use crate::text::same_text;

verus! {

/// A name, where it was written.
pub type DeclaredName = (String, Span);

/// `BoundNames` (§8.2.1) of a binding: each name it binds, with where it was written, in the
/// order they are written.
pub open spec fn binding_names(binding: Binding) -> Seq<DeclaredName>
    decreases binding, 0int,
{
    match binding {
        Binding::Identifier(name) => seq![(name.name, name.span)],
        Binding::Pattern(BindingPattern::Array(pattern)) => element_names(
            pattern.elements@,
            pattern.elements@.len() as int,
        ) + match pattern.rest {
            Some(rest) => binding_names(*rest),
            None => Seq::empty(),
        },
        Binding::Pattern(BindingPattern::Object(pattern)) => property_names(
            pattern.properties@,
            pattern.properties@.len() as int,
        ) + match pattern.rest {
            Some(rest) => seq![(rest.name, rest.span)],
            None => Seq::empty(),
        },
    }
}

/// The names the first `n` elements of an array pattern bind; a hole binds none.
pub open spec fn element_names(elements: Seq<Option<BindingElement>>, n: int) -> Seq<DeclaredName>
    decreases elements, n,
{
    if n <= 0 || n > elements.len() {
        Seq::empty()
    } else {
        element_names(elements, n - 1) + match elements[n - 1] {
            Some(element) => binding_names(element.target),
            None => Seq::empty(),
        }
    }
}

/// The names the first `n` properties of an object pattern bind.
pub open spec fn property_names(properties: Seq<BindingProperty>, n: int) -> Seq<DeclaredName>
    decreases properties, n,
{
    if n <= 0 || n > properties.len() {
        Seq::empty()
    } else {
        property_names(properties, n - 1) + binding_names(properties[n - 1].value.target)
    }
}

/// The names the first `n` parameters of a list bind.
pub open spec fn item_names(items: Seq<BindingElement>, n: int) -> Seq<DeclaredName>
    decreases n,
{
    if n <= 0 || n > items.len() {
        Seq::empty()
    } else {
        item_names(items, n - 1) + binding_names(items[n - 1].target)
    }
}

/// `BoundNames` of a parameter list: its parameters' names, then its rest parameter's.
pub open spec fn parameter_list_names(parameters: FormalParameters) -> Seq<DeclaredName> {
    item_names(parameters.items@, parameters.items@.len() as int) + match parameters.rest {
        Some(rest) => binding_names(*rest),
        None => Seq::empty(),
    }
}

/// The names the first `n` declarators of a declaration bind.
pub open spec fn declarator_names(declarators: Seq<Declarator>, n: int) -> Seq<DeclaredName>
    decreases n,
{
    if n <= 0 || n > declarators.len() {
        Seq::empty()
    } else {
        declarator_names(declarators, n - 1) + binding_names(declarators[n - 1].binding)
    }
}

/// A name written for a function or a class, when there is one.
pub open spec fn optional_name(name: Option<BindingName>) -> Seq<DeclaredName> {
    match name {
        Some(name) => seq![(name.name, name.span)],
        None => Seq::empty(),
    }
}

/// `BoundNames` of a declaration statement — a `var`, `let` or `const`, a function or a class —
/// and of any other statement, which declares none.
pub open spec fn statement_names(statement: Stmt) -> Seq<DeclaredName> {
    match statement.kind {
        StmtKind::Declaration(declaration) => declarator_names(
            declaration.declarators@,
            declaration.declarators@.len() as int,
        ),
        StmtKind::Function(function) => optional_name(function.name),
        StmtKind::Class(class) => optional_name(class.name),
        _ => Seq::empty(),
    }
}

/// Whether some name in `names` repeats an earlier one.
pub open spec fn has_repeat(names: Seq<DeclaredName>) -> bool {
    exists|i: int, j: int|
        #![trigger names[i], names[j]]
        0 <= j < i < names.len() && names[j].0@ == names[i].0@
}

/// Whether `names[from..]` holds `name`.
pub open spec fn holds_name(names: Seq<DeclaredName>, from: int, name: Seq<char>) -> bool {
    exists|k: int| from <= k < names.len() && (#[trigger] names[k]).0@ == name
}

/// Where `name` first occurs in `names[from..]`, if it does.
pub fn position_of(names: &Vec<DeclaredName>, from: usize, name: &str) -> (r: Option<usize>)
    ensures
        r matches Some(k) ==> from <= k < names@.len() && names@[k as int].0@ == name@,
        r is None <==> !holds_name(names@, from as int, name@),
        r matches Some(k) ==> forall|j: int| from <= j < k ==> (#[trigger] names@[j]).0@ != name@,
{
    let mut k: usize = from;
    while k < names.len()
        invariant
            from <= k || names@.len() <= k,
            forall|j: int| from <= j < k && j < names@.len() ==> (#[trigger] names@[j]).0@ != name@,
        decreases names.len() - k,
    {
        if same_text(names[k].0.as_str(), name) {
            return Some(k);
        }
        k = k + 1;
    }
    None
}

/// Append the names `binding` binds to `out`, in the order they are written.
pub fn push_bound_names(binding: &Binding, out: &mut Vec<DeclaredName>)
    ensures
        final(out)@ == old(out)@ + binding_names(*binding),
    decreases binding,
{
    match binding {
        Binding::Identifier(name) => {
            out.push((name.name.clone(), name.span));
        },
        Binding::Pattern(BindingPattern::Array(pattern)) => {
            let ghost start = out@;
            let mut k: usize = 0;
            while k < pattern.elements.len()
                invariant
                    *binding == Binding::Pattern(BindingPattern::Array(*pattern)),
                    k <= pattern.elements@.len(),
                    out@ == start + element_names(pattern.elements@, k as int),
                decreases pattern.elements.len() - k,
            {
                if let Some(element) = &pattern.elements[k] {
                    proof {
                        assert(decreases_to!(*binding => (*binding)->Pattern_0));
                        assert(decreases_to!((*binding)->Pattern_0 => (*binding)->Pattern_0->Array_0));
                        assert(decreases_to!(*pattern => pattern.elements));
                        assert(decreases_to!(pattern.elements => pattern.elements@));
                        assert(decreases_to!(pattern.elements@ => pattern.elements@[k as int]));
                        assert(decreases_to!(pattern.elements@[k as int] => *element));
                        assert(decreases_to!(*element => element.target));
                    }
                    push_bound_names(&element.target, out);
                }
                proof {
                    assert(start + element_names(pattern.elements@, k + 1) =~= start + element_names(
                        pattern.elements@,
                        k as int,
                    ) + match pattern.elements@[k as int] {
                        Some(element) => binding_names(element.target),
                        None => Seq::empty(),
                    });
                }
                k = k + 1;
            }
            if let Some(rest) = &pattern.rest {
                proof {
                    assert(decreases_to!(*binding => (*binding)->Pattern_0));
                    assert(decreases_to!((*binding)->Pattern_0 => (*binding)->Pattern_0->Array_0));
                    assert(decreases_to!(*pattern => pattern.rest));
                    assert(decreases_to!(pattern.rest => **rest));
                }
                push_bound_names(rest, out);
            }
            proof {
                assert(out@ =~= start + binding_names(*binding));
            }
        },
        Binding::Pattern(BindingPattern::Object(pattern)) => {
            let ghost start = out@;
            let mut k: usize = 0;
            while k < pattern.properties.len()
                invariant
                    *binding == Binding::Pattern(BindingPattern::Object(*pattern)),
                    k <= pattern.properties@.len(),
                    out@ == start + property_names(pattern.properties@, k as int),
                decreases pattern.properties.len() - k,
            {
                let property = &pattern.properties[k];
                proof {
                    assert(decreases_to!(*binding => (*binding)->Pattern_0));
                    assert(decreases_to!((*binding)->Pattern_0 => (*binding)->Pattern_0->Object_0));
                    assert(decreases_to!(*pattern => pattern.properties));
                    assert(decreases_to!(pattern.properties => pattern.properties@));
                    assert(decreases_to!(pattern.properties@ => pattern.properties@[k as int]));
                    assert(decreases_to!(pattern.properties@[k as int] => property.value));
                    assert(decreases_to!(property.value => property.value.target));
                }
                push_bound_names(&property.value.target, out);
                proof {
                    assert(start + property_names(pattern.properties@, k + 1) =~= start + property_names(
                        pattern.properties@,
                        k as int,
                    ) + binding_names(pattern.properties@[k as int].value.target));
                }
                k = k + 1;
            }
            if let Some(rest) = &pattern.rest {
                out.push((rest.name.clone(), rest.span));
            }
            proof {
                assert(out@ =~= start + binding_names(*binding));
            }
        },
    }
}

/// The names a parameter list binds, in order.
pub fn parameter_names(parameters: &FormalParameters) -> (r: Vec<DeclaredName>)
    ensures
        r@ == parameter_list_names(*parameters),
{
    let mut names: Vec<DeclaredName> = Vec::new();
    let mut k: usize = 0;
    while k < parameters.items.len()
        invariant
            k <= parameters.items@.len(),
            names@ == item_names(parameters.items@, k as int),
        decreases parameters.items.len() - k,
    {
        push_bound_names(&parameters.items[k].target, &mut names);
        k = k + 1;
    }
    if let Some(rest) = &parameters.rest {
        push_bound_names(rest, &mut names);
    }
    proof {
        assert(names@ =~= parameter_list_names(*parameters));
    }
    names
}

/// The first name in `names` that an earlier one repeats, if any.
pub fn first_repeat(names: &Vec<DeclaredName>) -> (r: Option<usize>)
    ensures
        r matches Some(k) ==> k < names@.len() && exists|j: int|
            0 <= j < k && (#[trigger] names@[j]).0@ == names@[k as int].0@,
        r is None ==> forall|i: int, j: int|
            0 <= j < i < names@.len() ==> (#[trigger] names@[j]).0@ != (#[trigger] names@[i]).0@,
{
    let mut k: usize = 0;
    while k < names.len()
        invariant
            k <= names@.len(),
            forall|i: int, j: int|
                0 <= j < i < k ==> (#[trigger] names@[j]).0@ != (#[trigger] names@[i]).0@,
        decreases names.len() - k,
    {
        let mut j: usize = 0;
        while j < k
            invariant
                j <= k < names@.len(),
                forall|i: int| 0 <= i < j ==> (#[trigger] names@[i]).0@ != names@[k as int].0@,
            decreases k - j,
        {
            if same_text(names[j].0.as_str(), names[k].0.as_str()) {
                return Some(k);
            }
            j = j + 1;
        }
        k = k + 1;
    }
    None
}

} // verus!
