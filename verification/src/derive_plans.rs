//! The decisions of the `Resource` and `State` derives and of the
//! `#[listener]` and `#[subscriber]` attributes: which impls a type gets,
//! and what a function's signature and body make of the generated code.
//! The macros read the syntax into these shapes and render the result.

use crate::text::str_eq;
use convert_case::Casing;
use vstd::prelude::*;

verus! {

/// The fields of a struct, as far as the derives read them.
#[derive(Clone, Copy, Debug, PartialEq, Eq, Structural)]
pub enum FieldShape {
    /// `Struct { field }`
    Named,
    /// `Struct(inner, ..)`: how many fields, and whether the first one's
    /// type is the bare path `PathBuf`.
    Unnamed { count: usize, first_is_pathbuf: bool },
    /// `Struct`
    Unit,
}

/// The kind of type a derive is applied to.
#[derive(Clone, Copy, Debug, PartialEq, Eq, Structural)]
pub enum TypeShape {
    Struct(FieldShape),
    Enum,
    Union,
}

/// An impl a derive generates.
#[derive(Clone, Copy, Debug, PartialEq, Eq, Structural)]
pub enum DerivedImpl {
    /// The marker trait of the derive (`ResourceInstance`, `State`).
    Instance,
    /// `AsRef<Self>`.
    AsRefSelf,
    /// `Deref` to the inner field.
    Deref,
    /// `DerefMut` to the inner field.
    DerefMut,
    /// `AsRef` of the inner field's type.
    AsRefInner,
    /// `AsRef<Path>`, for a `PathBuf` inner field.
    AsRefPath,
}

/// The impls `#[derive(Resource)]` generates: every struct and enum is a
/// resource; a struct can be borrowed as itself, and one wrapping a single
/// unnamed field also dereferences to it. Unions are refused.
pub open spec fn resource_impls_of(shape: TypeShape) -> Result<Seq<DerivedImpl>, Seq<char>> {
    match shape {
        TypeShape::Struct(fields) => Ok(
            seq![DerivedImpl::Instance, DerivedImpl::AsRefSelf] + match fields {
                FieldShape::Unnamed { count, .. } => if count == 1 {
                    seq![DerivedImpl::Deref, DerivedImpl::DerefMut, DerivedImpl::AsRefInner]
                } else {
                    Seq::empty()
                },
                _ => Seq::empty(),
            },
        ),
        TypeShape::Enum => Ok(seq![DerivedImpl::Instance]),
        TypeShape::Union => Err("#[derive(Resource)] is not supported for unions."@),
    }
}

/// The impls `#[derive(State)]` generates: every struct and enum is a
/// state; a struct with named fields can be borrowed as itself; one with
/// unnamed fields dereferences to its first (and a `PathBuf` one is also
/// borrowed as a `Path`). A tuple struct without fields and a union are
/// refused.
pub open spec fn state_impls_of(shape: TypeShape) -> Result<Seq<DerivedImpl>, Seq<char>> {
    match shape {
        TypeShape::Struct(fields) => match fields {
            FieldShape::Named => Ok(seq![DerivedImpl::Instance, DerivedImpl::AsRefSelf]),
            FieldShape::Unnamed { count, first_is_pathbuf } => if count == 0 {
                Err("#[derive(State)] on a struct requires a single unnamed field."@)
            } else {
                Ok(
                    seq![DerivedImpl::Instance, DerivedImpl::Deref, DerivedImpl::DerefMut, DerivedImpl::AsRefInner]
                        + if first_is_pathbuf {
                        seq![DerivedImpl::AsRefPath]
                    } else {
                        Seq::empty()
                    },
                )
            },
            FieldShape::Unit => Ok(seq![DerivedImpl::Instance]),
        },
        TypeShape::Enum => Ok(seq![DerivedImpl::Instance]),
        TypeShape::Union => Err("#[derive(State)] is not supported for unions."@),
    }
}

/// The impls `#[derive(Resource)]` generates for a type, or the message
/// it aborts with.
pub fn resource_impls(shape: TypeShape) -> (r: Result<Vec<DerivedImpl>, String>)
    ensures
        match resource_impls_of(shape) {
            Ok(s) => r matches Ok(v) && v@ == s,
            Err(m) => r matches Err(e) && e@ == m,
        },
{
    match shape {
        TypeShape::Struct(fields) => {
            let mut impls = vec![DerivedImpl::Instance, DerivedImpl::AsRefSelf];
            match fields {
                FieldShape::Unnamed { count, .. } => if count == 1 {
                    impls.push(DerivedImpl::Deref);
                    impls.push(DerivedImpl::DerefMut);
                    impls.push(DerivedImpl::AsRefInner);
                },
                _ => {},
            }
            assert(impls@ =~= resource_impls_of(shape)->Ok_0);
            Ok(impls)
        },
        TypeShape::Enum => {
            let impls = vec![DerivedImpl::Instance];
            assert(impls@ =~= seq![DerivedImpl::Instance]);
            Ok(impls)
        },
        TypeShape::Union => Err("#[derive(Resource)] is not supported for unions.".to_owned()),
    }
}

/// The impls `#[derive(State)]` generates for a type, or the message it
/// aborts with.
pub fn state_impls(shape: TypeShape) -> (r: Result<Vec<DerivedImpl>, String>)
    ensures
        match state_impls_of(shape) {
            Ok(s) => r matches Ok(v) && v@ == s,
            Err(m) => r matches Err(e) && e@ == m,
        },
{
    match shape {
        TypeShape::Struct(fields) => match fields {
            FieldShape::Named => {
                let impls = vec![DerivedImpl::Instance, DerivedImpl::AsRefSelf];
                assert(impls@ =~= seq![DerivedImpl::Instance, DerivedImpl::AsRefSelf]);
                Ok(impls)
            },
            FieldShape::Unnamed { count, first_is_pathbuf } => {
                if count == 0 {
                    return Err("#[derive(State)] on a struct requires a single unnamed field.".to_owned());
                }
                let mut impls = vec![
                    DerivedImpl::Instance,
                    DerivedImpl::Deref,
                    DerivedImpl::DerefMut,
                    DerivedImpl::AsRefInner,
                ];
                if first_is_pathbuf {
                    impls.push(DerivedImpl::AsRefPath);
                }
                assert(impls@ =~= state_impls_of(shape)->Ok_0);
                Ok(impls)
            },
            FieldShape::Unit => {
                let impls = vec![DerivedImpl::Instance];
                assert(impls@ =~= seq![DerivedImpl::Instance]);
                Ok(impls)
            },
        },
        TypeShape::Enum => {
            let impls = vec![DerivedImpl::Instance];
            assert(impls@ =~= seq![DerivedImpl::Instance]);
            Ok(impls)
        },
        TypeShape::Union => Err("#[derive(State)] is not supported for unions.".to_owned()),
    }
}

/// Every resource and every state gets the marker trait of its derive.
pub proof fn law_derived_types_are_instances(shape: TypeShape)
    ensures
        resource_impls_of(shape) matches Ok(s) ==> s.len() > 0 && s[0] == DerivedImpl::Instance,
        state_impls_of(shape) matches Ok(s) ==> s.len() > 0 && s[0] == DerivedImpl::Instance,
{
}

/// What `convert_case` makes of a name in Pascal case.
pub uninterp spec fn pascal_case(name: Seq<char>) -> Seq<char>;

/// Calls `Casing::to_case` with `Case::Pascal` from `convert_case`.
#[verifier::external_body]
fn to_pascal_case(name: &str) -> (r: String)
    ensures
        r@ == pascal_case(name@),
{
    name.to_case(convert_case::Case::Pascal)
}

/// The first parameter of a listener function, as far as the attribute
/// reads it.
#[derive(Clone, Debug)]
pub enum ListenerParam {
    /// The function has no parameter.
    Missing,
    /// A `self` receiver.
    Receiver,
    /// A reference to a path type: its identifier, when the path is a
    /// bare one.
    RefPath(Option<String>),
    /// A reference to verbatim tokens, rendered.
    RefVerbatim(String),
    /// A reference to another kind of type.
    RefOther,
    /// Not a reference.
    NotRef,
}

/// What `#[listener]` generates around a function.
#[derive(Clone, Debug)]
pub struct ListenerPlan {
    /// The listener type: the function's name in Pascal case, suffixed.
    pub listener_name: String,
    /// The event it listens to.
    pub event_name: String,
    /// Whether it listens only once.
    pub is_once: bool,
}

/// The event a listener listens to, or the message the attribute aborts
/// with.
pub open spec fn listener_event(param: ListenerParam) -> Result<Seq<char>, Seq<char>> {
    match param {
        ListenerParam::Missing => Err("Macro #[listener] requires an event as the only argument."@),
        ListenerParam::Receiver => Err("Cannot use &self as an event."@),
        ListenerParam::RefPath(ident) => match ident {
            Some(i) => Ok(i@),
            None => Err("called `Option::unwrap()` on a `None` value"@),
        },
        ListenerParam::RefVerbatim(tokens) => Ok(tokens@),
        ListenerParam::RefOther => Err("Requires a literal event name."@),
        ListenerParam::NotRef => Err("Requires a mutable referenced event."@),
    }
}

/// Plan a listener from the function's name, its first parameter and
/// whether it listens once.
pub fn plan_listener(func_name: &str, param: &ListenerParam, once: bool) -> (r: Result<ListenerPlan, String>)
    ensures
        match listener_event(*param) {
            Ok(event) => r matches Ok(p) && p.event_name@ == event && p.listener_name@ == pascal_case(func_name@)
                + "Listener"@ && p.is_once == once,
            Err(m) => r matches Err(e) && e@ == m,
        },
{
    let event_name = match param {
        ListenerParam::Missing => {
            return Err("Macro #[listener] requires an event as the only argument.".to_owned());
        },
        ListenerParam::Receiver => {
            return Err("Cannot use &self as an event.".to_owned());
        },
        ListenerParam::RefPath(ident) => match ident {
            Some(i) => i.clone(),
            None => {
                return Err("called `Option::unwrap()` on a `None` value".to_owned());
            },
        },
        ListenerParam::RefVerbatim(tokens) => tokens.clone(),
        ListenerParam::RefOther => {
            return Err("Requires a literal event name.".to_owned());
        },
        ListenerParam::NotRef => {
            return Err("Requires a mutable referenced event.".to_owned());
        },
    };
    let mut listener_name = to_pascal_case(func_name);
    listener_name.append("Listener");
    Ok(ListenerPlan { listener_name, event_name, is_once: once })
}

/// An expression, as far as `#[subscriber]` reads the last statement of a
/// function body.
#[derive(Clone, Debug)]
pub enum TailExpr {
    /// A call: its function (when a path, its identifier if it is a bare
    /// one) and its first argument.
    Call { func: CallFunc, first_arg: FirstArg },
    /// `return`, with what it returns.
    Return(Option<Returned>),
    /// Anything else.
    Other,
}

/// What a `return` returns.
#[derive(Clone, Debug)]
pub enum Returned {
    /// A call, as for [`TailExpr::Call`].
    Call { func: CallFunc, first_arg: FirstArg },
    /// Anything else.
    Other,
}

/// The function of a call expression.
#[derive(Clone, Debug)]
pub enum CallFunc {
    /// A path: its identifier when it is a bare one.
    Path(Option<String>),
    /// Not a path.
    Other,
}

/// The first argument of a call expression.
#[derive(Clone, Debug)]
pub enum FirstArg {
    /// No argument.
    Missing,
    /// A path: its first segment.
    Path(Option<String>),
    /// A call whose function is a path: that path's first segment.
    CallPath(Option<String>),
    /// A call whose function is no path.
    CallOther,
    /// Anything else.
    Other,
}

/// True when a path's first segment is `EventState`.
pub open spec fn is_event_state(first_segment: Option<String>) -> bool {
    first_segment matches Some(s) && s@ == "EventState"@
}

/// True when a call returns an event state: `Err(..)`, or `Ok` of an
/// `EventState` path or of a call to one (`EventState::Return(..)`).
pub open spec fn returns_event_state(func: CallFunc, first_arg: FirstArg) -> bool {
    match func {
        CallFunc::Path(Some(ident)) => if ident@ == "Err"@ {
            true
        } else if ident@ != "Ok"@ {
            false
        } else {
            match first_arg {
                FirstArg::Path(seg) => is_event_state(seg),
                FirstArg::CallPath(seg) => is_event_state(seg),
                _ => false,
            }
        },
        _ => false,
    }
}

/// The calls whose function path `#[subscriber]` can read: bare
/// identifiers (a longer path aborts the attribute).
pub open spec fn readable_call(func: CallFunc) -> bool {
    match func {
        CallFunc::Path(ident) => ident is Some,
        CallFunc::Other => true,
    }
}

/// True when a function body already ends by returning an event state,
/// as a last expression or a `return`: then `#[subscriber]` adds no
/// `Ok(EventState::Continue)` of its own.
pub open spec fn ends_with_return(tail: Option<TailExpr>) -> bool {
    match tail {
        Some(TailExpr::Call { func, first_arg }) => returns_event_state(func, first_arg),
        Some(TailExpr::Return(Some(Returned::Call { func, first_arg }))) => returns_event_state(func, first_arg),
        _ => false,
    }
}

/// The last statements whose calls `#[subscriber]` can read.
pub open spec fn readable_tail(tail: Option<TailExpr>) -> bool {
    match tail {
        Some(TailExpr::Call { func, .. }) => readable_call(func),
        Some(TailExpr::Return(Some(Returned::Call { func, .. }))) => readable_call(func),
        _ => true,
    }
}

fn is_event_state_segment(first_segment: &Option<String>) -> (r: bool)
    ensures
        r == is_event_state(*first_segment),
{
    match first_segment {
        Some(s) => str_eq(s.as_str(), "EventState"),
        None => false,
    }
}

fn call_returns_event_state(func: &CallFunc, first_arg: &FirstArg) -> (r: bool)
    ensures
        r == returns_event_state(*func, *first_arg),
{
    match func {
        CallFunc::Path(Some(ident)) => {
            if str_eq(ident.as_str(), "Err") {
                return true;
            }
            if !str_eq(ident.as_str(), "Ok") {
                return false;
            }
            match first_arg {
                FirstArg::Path(seg) => is_event_state_segment(seg),
                FirstArg::CallPath(seg) => is_event_state_segment(seg),
                _ => false,
            }
        },
        _ => false,
    }
}

/// Whether a function body ends by returning an event state; `tail` is
/// its last statement when that is an expression.
pub fn has_return_statement(tail: &Option<TailExpr>) -> (r: bool)
    requires
        readable_tail(*tail),
    ensures
        r == ends_with_return(*tail),
{
    match tail {
        Some(TailExpr::Call { func, first_arg }) => call_returns_event_state(func, first_arg),
        Some(TailExpr::Return(Some(Returned::Call { func, first_arg }))) => call_returns_event_state(func, first_arg),
        _ => false,
    }
}


/// The type of a subscriber's event parameter.
#[derive(Clone, Debug)]
pub enum EventParamType {
    /// A path type, rendered.
    Path(String),
    /// A reference: whether mutable, and the path it refers to, rendered,
    /// when it refers to a path.
    Ref { mutable: bool, path: Option<String> },
    /// Another kind of type.
    Other,
}

/// The first parameter of a subscriber function.
#[derive(Clone, Debug)]
pub enum SubscriberParam {
    /// The function has no parameter.
    Missing,
    /// A `self` receiver.
    Receiver,
    /// A typed parameter: its identifier when its pattern is one (and
    /// whether bound `mut`), and its type.
    Typed { name: Option<String>, mutable_binding: bool, ty: EventParamType },
}

/// What `#[subscriber]` generates around a function.
#[derive(Clone, Debug)]
pub struct SubscriberPlan {
    /// The name the event data is bound to.
    pub data_name: String,
    /// The event type.
    pub event_type: String,
    /// Whether the data is locked for writing.
    pub is_mutable: bool,
    /// Whether `Ok(EventState::Continue)` is appended to the body.
    pub add_continue: bool,
}

/// The event type, and whether its data is written, of a subscriber's
/// parameter, or the message the attribute aborts with.
pub open spec fn subscriber_event(mutable_binding: bool, ty: EventParamType) -> Result<(Seq<char>, bool), Seq<char>> {
    match ty {
        EventParamType::Path(p) => Ok((p@, mutable_binding)),
        EventParamType::Ref { mutable, path } => Ok(
            (
                match path {
                    Some(p) => p@,
                    None => "Event"@,
                },
                mutable_binding || mutable,
            ),
        ),
        EventParamType::Other => Err("Unsupported event param type, must be a path or reference."@),
    }
}

/// Plan a subscriber from its first parameter and the last statement of
/// its body.
pub fn plan_subscriber(param: &SubscriberParam, tail: &Option<TailExpr>) -> (r: Result<SubscriberPlan, String>)
    requires
        readable_tail(*tail),
    ensures
        match *param {
            SubscriberParam::Missing => r matches Err(e) && e@ == "Requires an event as the only parameter."@,
            SubscriberParam::Receiver => r matches Err(e) && e@ == "Unsupported param type."@,
            SubscriberParam::Typed { name, mutable_binding, ty } => match name {
                None => r matches Err(e) && e@ == "Unsupported param, must be an identifier."@,
                Some(n) => match subscriber_event(mutable_binding, ty) {
                    Err(m) => r matches Err(e) && e@ == m,
                    Ok((event, mutable)) => r matches Ok(p) && p.data_name@ == n@ && p.event_type@ == event
                        && p.is_mutable == mutable && p.add_continue == !ends_with_return(*tail),
                },
            },
        },
{
    match param {
        SubscriberParam::Missing => Err("Requires an event as the only parameter.".to_owned()),
        SubscriberParam::Receiver => Err("Unsupported param type.".to_owned()),
        SubscriberParam::Typed { name, mutable_binding, ty } => match name {
            None => Err("Unsupported param, must be an identifier.".to_owned()),
            Some(n) => {
                let (event_type, is_mutable) = match ty {
                    EventParamType::Path(p) => (p.clone(), *mutable_binding),
                    EventParamType::Ref { mutable, path } => (
                        match path {
                            Some(p) => p.clone(),
                            None => "Event".to_owned(),
                        },
                        *mutable_binding || *mutable,
                    ),
                    EventParamType::Other => {
                        return Err("Unsupported event param type, must be a path or reference.".to_owned());
                    },
                };
                let add_continue = !has_return_statement(tail);
                Ok(SubscriberPlan { data_name: n.clone(), event_type, is_mutable, add_continue })
            },
        },
    }
}

} // verus!
