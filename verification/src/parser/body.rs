//! What a function body inherits from the production that opened it.
//!
//! Three grammar facts are decided by *which* function you are in rather than by where you are in
//! it: whether `super.a` may stand, whether `super(…)` may, and whether `new.target` may. An arrow
//! has no `this`, no home object and no `[[Construct]]` of its own, so it passes all three
//! through; every other function replaces them.

use vstd::prelude::*;

verus! {

/// What `super` may mean where the parser currently is.
#[derive(Debug, Clone, Copy, PartialEq, Eq, Structural)]
pub struct SuperAllowed {
    /// Whether `super.a` may stand here — true inside any method.
    pub property: bool,
    /// Whether `super(…)` may stand here — true only in a derived constructor.
    pub call: bool,
}

/// The whole of what a `FunctionBody` is told by whoever opened it.
#[derive(Debug, Clone, Copy, PartialEq, Eq, Structural)]
pub struct BodyContext {
    /// §13.3.7, §13.3.5.
    pub super_allowed: SuperAllowed,
    /// Whether `new.target` may stand here (§13.3): in every function body, and not at the top
    /// of a `Script`.
    pub new_target_allowed: bool,
}

impl SuperAllowed {
    /// Neither form: a script and a plain function both start here.
    pub fn neither() -> (allowed: SuperAllowed)
        ensures
            !allowed.property && !allowed.call,
    {
        SuperAllowed { property: false, call: false }
    }

    /// What an ordinary method grants: `super.a` and never `super(…)`.
    pub fn property_only() -> (allowed: SuperAllowed)
        ensures
            allowed.property && !allowed.call,
    {
        SuperAllowed { property: true, call: false }
    }
}

impl BodyContext {
    /// The top of a `Script`: no `super`, no `new.target`.
    pub fn script() -> (context: BodyContext)
        ensures
            !context.super_allowed.property && !context.super_allowed.call
                && !context.new_target_allowed,
    {
        BodyContext { super_allowed: SuperAllowed::neither(), new_target_allowed: false }
    }

    /// A plain `FunctionBody`: `new.target` and no `super`.
    pub fn function() -> (context: BodyContext)
        ensures
            !context.super_allowed.property && !context.super_allowed.call
                && context.new_target_allowed,
    {
        BodyContext { super_allowed: SuperAllowed::neither(), new_target_allowed: true }
    }

    /// A field initialiser or a static block (§15.7): `super.a` and `new.target`, never
    /// `super(…)`.
    pub fn class_initializer() -> (context: BodyContext)
        ensures
            context.super_allowed.property && !context.super_allowed.call
                && context.new_target_allowed,
    {
        BodyContext { super_allowed: SuperAllowed::property_only(), new_target_allowed: true }
    }

    /// The Script a direct `eval` evaluates (§19.2.1.1): one grant per fact about the caller.
    pub fn eval(context: EvalContext) -> (body: BodyContext)
        ensures
            body.super_allowed.property == context.in_method,
            body.super_allowed.call == context.in_derived_constructor,
            body.new_target_allowed == context.in_function,
    {
        BodyContext {
            super_allowed: SuperAllowed {
                property: context.in_method,
                call: context.in_derived_constructor,
            },
            new_target_allowed: context.in_function,
        }
    }

    /// A `MethodDefinition`'s body, whose `super` is the caller's to say.
    pub fn method(super_allowed: SuperAllowed) -> (context: BodyContext)
        ensures
            context.super_allowed == super_allowed,
            context.new_target_allowed,
    {
        BodyContext { super_allowed, new_target_allowed: true }
    }
}

/// What §19.2.1.1 learns about the execution a direct `eval` was called from.
#[derive(Debug, Clone, Copy, PartialEq, Eq, Default)]
pub struct EvalContext {
    /// Whether there is a function around the call at all. Grants `new.target`.
    pub in_function: bool,
    /// Whether that function is a method. Grants `super.a`.
    pub in_method: bool,
    /// Whether it is a derived constructor. Grants `super(…)`.
    pub in_derived_constructor: bool,
    /// Whether the call was written in a class field's initialiser (§15.7.1), which forbids
    /// `arguments` anywhere in the evaluated text.
    pub in_field_initializer: bool,
}

} // verus!
