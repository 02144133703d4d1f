//! Reading the items the procedural macros are applied to: the source
//! text is parsed with `syn`, and what the attributes look at is read out
//! of it as plain values, which the planning functions then judge.

use crate::derive_plans::{
    listener_event, plan_listener, resource_impls, resource_impls_of, state_impls, state_impls_of, pascal_case,
    DerivedImpl, FieldShape, ListenerParam, ListenerPlan, TypeShape, CallFunc, FirstArg, Returned, TailExpr,
    EventParamType, SubscriberParam, SubscriberPlan, plan_subscriber, readable_tail, ends_with_return,
    subscriber_event,
};
use crate::system_macro::{
    input_view, input_views, lemma_trackers_by_view, param_type_view, plan_matches, plan_system, view_trackers, GenericFirst,
    ParamType, ParamTypeView, SystemInput, SystemInputView, SystemPlan,
};
use crate::text::str_eq;
use syn::{Expr, ExprPath};
use vstd::prelude::*;

verus! {

/// A parameter of a parsed function: a `self` receiver, or a typed
/// parameter with its name (when its pattern is a plain identifier),
/// whether that identifier is bound `mut`, and its type, rendered as
/// tokens.
#[derive(Clone, Debug)]
pub enum FnParam {
    Receiver,
    Typed { name: Option<String>, mutable_binding: bool, ty: String },
}

/// The view of a [`FnParam`].
pub enum FnParamView {
    Receiver,
    Typed { name: Option<Seq<char>>, mutable_binding: bool, ty: Seq<char> },
}

impl View for FnParam {
    type V = FnParamView;

    open spec fn view(&self) -> FnParamView {
        match self {
            FnParam::Receiver => FnParamView::Receiver,
            FnParam::Typed { name, mutable_binding, ty } => FnParamView::Typed {
                name: match name {
                    Some(n) => Some(n@),
                    None => None,
                },
                mutable_binding: *mutable_binding,
                ty: ty@,
            },
        }
    }
}

/// The views of parameters.
pub open spec fn param_views(params: Seq<FnParam>) -> Seq<FnParamView> {
    params.map_values(|p: FnParam| p@)
}

/// What `syn::parse_str::<syn::ItemFn>` makes of a function's source:
/// its parameters, in order, or the parse error's message.
pub uninterp spec fn fn_params_of(item: Seq<char>) -> Result<Seq<FnParamView>, Seq<char>>;

/// What `syn::parse_str::<syn::Type>` makes of a rendered type, as the
/// `#[system]` attribute reads it: not a path, a path without segments,
/// or its first segment with the shape of its arguments.
pub uninterp spec fn type_shape_of(ty: Seq<char>) -> ParamTypeView;

/// Parses a function with `syn::parse_str::<syn::ItemFn>` and reads its
/// parameters; the contract names the result.
#[verifier::external_body]
fn parse_fn_params(item: &str) -> (r: Result<Vec<FnParam>, String>)
    ensures
        fn_params_of(item@) == match r {
            Ok(v) => Ok::<Seq<FnParamView>, Seq<char>>(param_views(v@)),
            Err(e) => Err::<Seq<FnParamView>, Seq<char>>(e@),
        },
{
    let func = syn::parse_str::<syn::ItemFn>(item).map_err(|error| error.to_string())?;
    Ok(func.sig.inputs.iter().map(|arg| match arg {
        syn::FnArg::Receiver(_) => FnParam::Receiver,
        syn::FnArg::Typed(arg) => FnParam::Typed {
            name: match &*arg.pat { syn::Pat::Ident(pat) => Some(pat.ident.to_string()), _ => None },
            mutable_binding: matches!(&*arg.pat, syn::Pat::Ident(pat) if pat.mutability.is_some()),
            ty: quote::ToTokens::to_token_stream(&*arg.ty).to_string(),
        },
    }).collect())
}

/// Parses a rendered type with `syn::parse_str::<syn::Type>` and reads
/// its shape; the contract names the result.
#[verifier::external_body]
fn read_param_type(ty: &str) -> (r: ParamType)
    ensures
        param_type_view(r) == type_shape_of(ty@),
{
    let Ok(syn::Type::Path(path)) = syn::parse_str::<syn::Type>(ty) else { return ParamType::Other };
    let Some(segment) = path.path.segments.first() else { return ParamType::NoSegment };
    let wrapper = segment.ident.to_string();
    match &segment.arguments {
        syn::PathArguments::None => ParamType::Plain(wrapper),
        syn::PathArguments::Parenthesized(_) => ParamType::Parenthesized(wrapper),
        syn::PathArguments::AngleBracketed(args) => ParamType::Generic { wrapper, first: match args.args.first() {
            None => GenericFirst::Empty,
            Some(syn::GenericArgument::Type(inner)) => GenericFirst::Type(quote::ToTokens::to_token_stream(inner).to_string()),
            Some(_) => GenericFirst::NotType,
        } },
    }
}

/// A parsed parameter as the `#[system]` attribute reads it.
pub open spec fn param_input(p: FnParamView) -> SystemInputView {
    match p {
        FnParamView::Receiver => SystemInputView::Receiver,
        FnParamView::Typed { name, ty, .. } => SystemInputView::Typed { name, ty: type_shape_of(ty) },
    }
}

/// Parsed parameters as the `#[system]` attribute reads them.
pub open spec fn param_inputs(ps: Seq<FnParamView>) -> Seq<SystemInputView> {
    ps.map_values(|p: FnParamView| param_input(p))
}

/// Read the parameters of a system function from its source, or the
/// parse error's message.
pub fn read_system_inputs(item: &str) -> (r: Result<Vec<SystemInput>, String>)
    ensures
        fn_params_of(item@) matches Err(m) ==> r matches Err(e) && e@ == m,
        fn_params_of(item@) matches Ok(ps) ==> r matches Ok(v) && input_views(v@) == param_inputs(ps),
{
    let params = match parse_fn_params(item) {
        Ok(params) => params,
        Err(e) => {
            return Err(e);
        },
    };
    let ghost ps = param_views(params@);
    let mut inputs: Vec<SystemInput> = Vec::new();
    let mut i: usize = 0;
    while i < params.len()
        invariant
            i <= params@.len(),
            ps == param_views(params@),
            input_views(inputs@) == param_inputs(ps.take(i as int)),
        decreases params@.len() - i,
    {
        let input = match &params[i] {
            FnParam::Receiver => SystemInput::Receiver,
            FnParam::Typed { name, ty, .. } => SystemInput::Typed { name: name.clone(), ty: read_param_type(ty.as_str()) },
        };
        let ghost before = inputs@;
        inputs.push(input);
        proof {
            assert(ps.take(i + 1) =~= ps.take(i as int).push(ps[i as int]));
            assert(input_views(inputs@) =~= input_views(before).push(input_view(input)));
            assert(input_views(inputs@) =~= param_inputs(ps.take(i + 1)));
        }
        i = i + 1;
    }
    assert(ps.take(params@.len() as int) =~= ps);
    Ok(inputs)
}

/// Plan a system function from its source: the parse error's message when
/// it is no function, else what [`plan_system`] gives for its parameters
/// as read.
pub fn plan_system_item(item: &str) -> (r: Result<SystemPlan, String>)
    ensures
        fn_params_of(item@) matches Err(m) ==> r matches Err(e) && e@ == m,
        fn_params_of(item@) matches Ok(ps) ==> (view_trackers(param_inputs(ps)) matches Err(m) ==> r matches Err(e)
            && e@ == m),
        fn_params_of(item@) matches Ok(ps) ==> (view_trackers(param_inputs(ps)) matches Ok(t) ==> r matches Ok(p)
            && plan_matches(p, t)),
{
    let inputs = match read_system_inputs(item) {
        Ok(inputs) => inputs,
        Err(e) => {
            return Err(e);
        },
    };
    proof {
        lemma_trackers_by_view(inputs@);
    }
    plan_system(&inputs)
}

/// The fields of a parsed struct: named, unnamed (how many, and the
/// first one's type when it is a bare identifier), or none.
#[derive(Clone, Debug)]
pub enum ParsedFields {
    Named,
    Unnamed { count: usize, first_ident: Option<String> },
    Unit,
}

/// A parsed type, as far as the derives read it.
#[derive(Clone, Debug)]
pub enum ParsedType {
    Struct(ParsedFields),
    Enum,
    Union,
}

/// The view of [`ParsedFields`].
pub enum ParsedFieldsView {
    Named,
    Unnamed { count: usize, first_ident: Option<Seq<char>> },
    Unit,
}

/// The view of a [`ParsedType`].
pub enum ParsedTypeView {
    Struct(ParsedFieldsView),
    Enum,
    Union,
}

pub open spec fn parsed_type_view(t: ParsedType) -> ParsedTypeView {
    match t {
        ParsedType::Struct(fields) => ParsedTypeView::Struct(
            match fields {
                ParsedFields::Named => ParsedFieldsView::Named,
                ParsedFields::Unnamed { count, first_ident } => ParsedFieldsView::Unnamed {
                    count,
                    first_ident: opt_view(first_ident),
                },
                ParsedFields::Unit => ParsedFieldsView::Unit,
            },
        ),
        ParsedType::Enum => ParsedTypeView::Enum,
        ParsedType::Union => ParsedTypeView::Union,
    }
}

/// The shape the derives judge a parsed type by: an unnamed struct's
/// first field counts as a `PathBuf` when its type is that bare
/// identifier.
pub open spec fn shape_of_parsed(t: ParsedTypeView) -> TypeShape {
    match t {
        ParsedTypeView::Struct(fields) => TypeShape::Struct(
            match fields {
                ParsedFieldsView::Named => FieldShape::Named,
                ParsedFieldsView::Unnamed { count, first_ident } => FieldShape::Unnamed {
                    count,
                    first_is_pathbuf: first_ident == Some("PathBuf"@),
                },
                ParsedFieldsView::Unit => FieldShape::Unit,
            },
        ),
        ParsedTypeView::Enum => TypeShape::Enum,
        ParsedTypeView::Union => TypeShape::Union,
    }
}

/// What `syn::parse_str::<syn::DeriveInput>` makes of a type's source,
/// as the derives read it, or the parse error's message.
pub uninterp spec fn derive_type_of(item: Seq<char>) -> Result<ParsedTypeView, Seq<char>>;

/// The shape of a type's source as the derives judge it, or the parse
/// error's message.
pub open spec fn derive_shape_of(item: Seq<char>) -> Result<TypeShape, Seq<char>> {
    match derive_type_of(item) {
        Ok(t) => Ok(shape_of_parsed(t)),
        Err(m) => Err(m),
    }
}

/// Parses a type with `syn::parse_str::<syn::DeriveInput>` and reads its
/// kind, its fields and the first unnamed field's type identifier; the
/// contract names the result.
#[verifier::external_body]
fn parse_type(item: &str) -> (r: Result<ParsedType, String>)
    ensures
        derive_type_of(item@) == match r {
            Ok(t) => Ok::<ParsedTypeView, Seq<char>>(parsed_type_view(t)),
            Err(e) => Err::<ParsedTypeView, Seq<char>>(e@),
        },
{
    let input = syn::parse_str::<syn::DeriveInput>(item).map_err(|error| error.to_string())?;
    Ok(match &input.data {
        syn::Data::Struct(data) => ParsedType::Struct(match &data.fields {
            syn::Fields::Named(_) => ParsedFields::Named,
            syn::Fields::Unnamed(fields) => ParsedFields::Unnamed {
                count: fields.unnamed.len(),
                first_ident: fields.unnamed.first().and_then(|field| match &field.ty { syn::Type::Path(path) => path.path.get_ident().map(|ident| ident.to_string()), _ => None }),
            },
            syn::Fields::Unit => ParsedFields::Unit,
        }),
        syn::Data::Enum(_) => ParsedType::Enum,
        syn::Data::Union(_) => ParsedType::Union,
    })
}

fn parse_type_shape(item: &str) -> (r: Result<TypeShape, String>)
    ensures
        derive_shape_of(item@) == match r {
            Ok(shape) => Ok::<TypeShape, Seq<char>>(shape),
            Err(e) => Err::<TypeShape, Seq<char>>(e@),
        },
{
    let parsed = match parse_type(item) {
        Ok(parsed) => parsed,
        Err(e) => {
            return Err(e);
        },
    };
    Ok(match parsed {
        ParsedType::Struct(fields) => TypeShape::Struct(match fields {
            ParsedFields::Named => FieldShape::Named,
            ParsedFields::Unnamed { count, first_ident } => FieldShape::Unnamed {
                count,
                first_is_pathbuf: match &first_ident {
                    Some(ident) => str_eq(ident.as_str(), "PathBuf"),
                    None => false,
                },
            },
            ParsedFields::Unit => FieldShape::Unit,
        }),
        ParsedType::Enum => TypeShape::Enum,
        ParsedType::Union => TypeShape::Union,
    })
}

/// The impls `#[derive(Resource)]` generates for a type's source, or the
/// message it aborts with (the parse error's, for no type).
pub fn plan_resource_item(item: &str) -> (r: Result<Vec<DerivedImpl>, String>)
    ensures
        derive_shape_of(item@) matches Err(m) ==> r matches Err(e) && e@ == m,
        derive_shape_of(item@) matches Ok(shape) ==> match resource_impls_of(shape) {
            Ok(s) => r matches Ok(v) && v@ == s,
            Err(m) => r matches Err(e) && e@ == m,
        },
{
    match parse_type_shape(item) {
        Ok(shape) => resource_impls(shape),
        Err(e) => Err(e),
    }
}

/// The impls `#[derive(State)]` generates for a type's source, or the
/// message it aborts with (the parse error's, for no type).
pub fn plan_state_item(item: &str) -> (r: Result<Vec<DerivedImpl>, String>)
    ensures
        derive_shape_of(item@) matches Err(m) ==> r matches Err(e) && e@ == m,
        derive_shape_of(item@) matches Ok(shape) ==> match state_impls_of(shape) {
            Ok(s) => r matches Ok(v) && v@ == s,
            Err(m) => r matches Err(e) && e@ == m,
        },
{
    match parse_type_shape(item) {
        Ok(shape) => state_impls(shape),
        Err(e) => Err(e),
    }
}

/// The first parameter of a listener function, as read.
pub enum ListenerParamView {
    Missing,
    Receiver,
    RefPath(Option<Seq<char>>),
    RefVerbatim(Seq<char>),
    RefOther,
    NotRef,
}

/// The view of a listener's first parameter.
pub open spec fn listener_param_view(p: ListenerParam) -> ListenerParamView {
    match p {
        ListenerParam::Missing => ListenerParamView::Missing,
        ListenerParam::Receiver => ListenerParamView::Receiver,
        ListenerParam::RefPath(i) => ListenerParamView::RefPath(
            match i {
                Some(i) => Some(i@),
                None => None,
            },
        ),
        ListenerParam::RefVerbatim(t) => ListenerParamView::RefVerbatim(t@),
        ListenerParam::RefOther => ListenerParamView::RefOther,
        ListenerParam::NotRef => ListenerParamView::NotRef,
    }
}

/// The event a listener listens to, from its first parameter as read, or
/// the message the attribute aborts with (as [`listener_event`]).
pub open spec fn listener_event_of(p: ListenerParamView) -> Result<Seq<char>, Seq<char>> {
    match p {
        ListenerParamView::Missing => Err("Macro #[listener] requires an event as the only argument."@),
        ListenerParamView::Receiver => Err("Cannot use &self as an event."@),
        ListenerParamView::RefPath(ident) => match ident {
            Some(i) => Ok(i),
            None => Err("called `Option::unwrap()` on a `None` value"@),
        },
        ListenerParamView::RefVerbatim(tokens) => Ok(tokens),
        ListenerParamView::RefOther => Err("Requires a literal event name."@),
        ListenerParamView::NotRef => Err("Requires a mutable referenced event."@),
    }
}

/// What `syn::parse_str::<syn::ItemFn>` makes of a listener function's
/// source: its name and first parameter, or the parse error's message.
pub uninterp spec fn listener_fn_of(item: Seq<char>) -> Result<(Seq<char>, ListenerParamView), Seq<char>>;

/// Parses a function with `syn::parse_str::<syn::ItemFn>` and reads its
/// name and first parameter as `#[listener]` does; the contract names the
/// result.
#[verifier::external_body]
fn parse_listener_fn(item: &str) -> (r: Result<(String, ListenerParam), String>)
    ensures
        listener_fn_of(item@) == match r {
            Ok((name, param)) => Ok::<(Seq<char>, ListenerParamView), Seq<char>>((name@, listener_param_view(param))),
            Err(e) => Err::<(Seq<char>, ListenerParamView), Seq<char>>(e@),
        },
{
    let func = syn::parse_str::<syn::ItemFn>(item).map_err(|error| error.to_string())?;
    let param = match func.sig.inputs.first() {
        None => ListenerParam::Missing,
        Some(syn::FnArg::Receiver(_)) => ListenerParam::Receiver,
        Some(syn::FnArg::Typed(arg)) => match &*arg.ty {
            syn::Type::Reference(inner) => match &*inner.elem {
                syn::Type::Path(path) => ListenerParam::RefPath(path.path.get_ident().map(|ident| ident.to_string())),
                syn::Type::Verbatim(tokens) => ListenerParam::RefVerbatim(tokens.to_string()),
                _ => ListenerParam::RefOther,
            },
            _ => ListenerParam::NotRef,
        },
    };
    Ok((func.sig.ident.to_string(), param))
}

/// Plan a listener from its function's source and whether it listens
/// once: the parse error's message when it is no function, else what
/// [`plan_listener`] gives for its name and first parameter.
pub fn plan_listener_item(item: &str, once: bool) -> (r: Result<ListenerPlan, String>)
    ensures
        listener_fn_of(item@) matches Err(m) ==> r matches Err(e) && e@ == m,
        listener_fn_of(item@) matches Ok((name, param)) ==> match listener_event_of(param) {
            Ok(event) => r matches Ok(p) && p.event_name@ == event && p.listener_name@ == pascal_case(name)
                + "Listener"@ && p.is_once == once,
            Err(m) => r matches Err(e) && e@ == m,
        },
{
    match parse_listener_fn(item) {
        Ok((name, param)) => {
            assert(listener_event(param) == listener_event_of(listener_param_view(param)));
            plan_listener(name.as_str(), &param, once)
        },
        Err(e) => Err(e),
    }
}

/// The views of an optional string.
pub open spec fn opt_view(s: Option<String>) -> Option<Seq<char>> {
    match s {
        Some(x) => Some(x@),
        None => None,
    }
}

/// The function of a call, as read.
pub enum CallFuncView {
    Path(Option<Seq<char>>),
    Other,
}

/// The first argument of a call, as read.
pub enum FirstArgView {
    Missing,
    Path(Option<Seq<char>>),
    CallPath(Option<Seq<char>>),
    CallOther,
    Other,
}

/// The last statement of a function body, as read.
pub enum TailView {
    Call { func: CallFuncView, first_arg: FirstArgView },
    ReturnCall { func: CallFuncView, first_arg: FirstArgView },
    ReturnOther,
    ReturnNothing,
    Other,
}

/// The type of a subscriber's event parameter, as read.
pub enum EventParamTypeView {
    Path(Seq<char>),
    Ref { mutable: bool, path: Option<Seq<char>> },
    Other,
}

/// The first parameter of a subscriber function, as read.
pub enum SubscriberParamView {
    Missing,
    Receiver,
    Typed { name: Option<Seq<char>>, mutable_binding: bool, ty: EventParamTypeView },
}

pub open spec fn call_func_view(f: CallFunc) -> CallFuncView {
    match f {
        CallFunc::Path(i) => CallFuncView::Path(opt_view(i)),
        CallFunc::Other => CallFuncView::Other,
    }
}

pub open spec fn first_arg_view(a: FirstArg) -> FirstArgView {
    match a {
        FirstArg::Missing => FirstArgView::Missing,
        FirstArg::Path(s) => FirstArgView::Path(opt_view(s)),
        FirstArg::CallPath(s) => FirstArgView::CallPath(opt_view(s)),
        FirstArg::CallOther => FirstArgView::CallOther,
        FirstArg::Other => FirstArgView::Other,
    }
}

/// The view of the last statement of a body (`None`: no statement, or
/// not an expression).
pub open spec fn tail_view(t: Option<TailExpr>) -> Option<TailView> {
    match t {
        None => None,
        Some(TailExpr::Call { func, first_arg }) => Some(
            TailView::Call { func: call_func_view(func), first_arg: first_arg_view(first_arg) },
        ),
        Some(TailExpr::Return(None)) => Some(TailView::ReturnNothing),
        Some(TailExpr::Return(Some(Returned::Call { func, first_arg }))) => Some(
            TailView::ReturnCall { func: call_func_view(func), first_arg: first_arg_view(first_arg) },
        ),
        Some(TailExpr::Return(Some(Returned::Other))) => Some(TailView::ReturnOther),
        Some(TailExpr::Other) => Some(TailView::Other),
    }
}

pub open spec fn event_type_view(t: EventParamType) -> EventParamTypeView {
    match t {
        EventParamType::Path(p) => EventParamTypeView::Path(p@),
        EventParamType::Ref { mutable, path } => EventParamTypeView::Ref { mutable, path: opt_view(path) },
        EventParamType::Other => EventParamTypeView::Other,
    }
}

pub open spec fn subscriber_param_view(p: SubscriberParam) -> SubscriberParamView {
    match p {
        SubscriberParam::Missing => SubscriberParamView::Missing,
        SubscriberParam::Receiver => SubscriberParamView::Receiver,
        SubscriberParam::Typed { name, mutable_binding, ty } => SubscriberParamView::Typed {
            name: opt_view(name),
            mutable_binding,
            ty: event_type_view(ty),
        },
    }
}

/// True when the segment read is `EventState`.
pub open spec fn event_state_segment(s: Option<Seq<char>>) -> bool {
    s matches Some(x) && x == "EventState"@
}

/// As [`returns_event_state`], on calls as read.
pub open spec fn call_returns_state(func: CallFuncView, first_arg: FirstArgView) -> bool {
    match func {
        CallFuncView::Path(Some(ident)) => if ident == "Err"@ {
            true
        } else if ident != "Ok"@ {
            false
        } else {
            match first_arg {
                FirstArgView::Path(seg) => event_state_segment(seg),
                FirstArgView::CallPath(seg) => event_state_segment(seg),
                _ => false,
            }
        },
        _ => false,
    }
}

/// As [`ends_with_return`], on the last statement as read.
pub open spec fn tail_returns_state(t: Option<TailView>) -> bool {
    match t {
        Some(TailView::Call { func, first_arg }) => call_returns_state(func, first_arg),
        Some(TailView::ReturnCall { func, first_arg }) => call_returns_state(func, first_arg),
        _ => false,
    }
}

/// As [`readable_tail`], on the last statement as read.
pub open spec fn tail_readable(t: Option<TailView>) -> bool {
    match t {
        Some(TailView::Call { func, .. }) => !(func matches CallFuncView::Path(None)),
        Some(TailView::ReturnCall { func, .. }) => !(func matches CallFuncView::Path(None)),
        _ => true,
    }
}

/// What a subscriber's parameter, as read, comes to: its data name, event
/// type and whether its data is written, or the message the attribute
/// aborts with.
pub open spec fn subscriber_param_outcome(p: SubscriberParamView) -> Result<(Seq<char>, Seq<char>, bool), Seq<char>> {
    match p {
        SubscriberParamView::Missing => Err("Requires an event as the only parameter."@),
        SubscriberParamView::Receiver => Err("Unsupported param type."@),
        SubscriberParamView::Typed { name, mutable_binding, ty } => match name {
            None => Err("Unsupported param, must be an identifier."@),
            Some(n) => match ty {
                EventParamTypeView::Path(path) => Ok((n, path, mutable_binding)),
                EventParamTypeView::Ref { mutable, path } => Ok(
                    (
                        n,
                        match path {
                            Some(x) => x,
                            None => "Event"@,
                        },
                        mutable_binding || mutable,
                    ),
                ),
                EventParamTypeView::Other => Err("Unsupported event param type, must be a path or reference."@),
            },
        },
    }
}

/// The last statement of a parsed function body, when it is an
/// expression: a `return` with what it returns, or another expression,
/// each rendered as tokens.
#[derive(Clone, Debug)]
pub enum TailSource {
    Return(Option<String>),
    Expr(String),
}

/// The view of a [`TailSource`].
pub enum TailSourceView {
    Return(Option<Seq<char>>),
    Expr(Seq<char>),
}

pub open spec fn tail_source_view(t: Option<TailSource>) -> Option<TailSourceView> {
    match t {
        Some(TailSource::Return(e)) => Some(TailSourceView::Return(opt_view(e))),
        Some(TailSource::Expr(e)) => Some(TailSourceView::Expr(e@)),
        None => None,
    }
}

/// What `syn::parse_str::<syn::ItemFn>` makes of a function's source, as
/// `#[subscriber]` reads the end of its body: the last statement, or the
/// parse error's message.
pub uninterp spec fn tail_source_of(item: Seq<char>) -> Result<Option<TailSourceView>, Seq<char>>;

/// What `syn::parse_str::<syn::Expr>` makes of a rendered expression, as
/// `#[subscriber]` reads a call: its function and first argument, or
/// `None` when it is no call.
pub uninterp spec fn call_parts_of(expr: Seq<char>) -> Option<(CallFuncView, FirstArgView)>;

/// What `syn::parse_str::<syn::Type>` makes of a rendered type, as
/// `#[subscriber]` reads its event parameter.
pub uninterp spec fn event_type_of(ty: Seq<char>) -> EventParamTypeView;

/// Parses a function with `syn::parse_str::<syn::ItemFn>` and reads the
/// last statement of its body; the contract names the result.
#[verifier::external_body]
fn read_tail_source(item: &str) -> (r: Result<Option<TailSource>, String>)
    ensures
        tail_source_of(item@) == match r {
            Ok(t) => Ok::<Option<TailSourceView>, Seq<char>>(tail_source_view(t)),
            Err(e) => Err::<Option<TailSourceView>, Seq<char>>(e@),
        },
{
    let func = syn::parse_str::<syn::ItemFn>(item).map_err(|error| error.to_string())?;
    let render = |expr: &syn::Expr| quote::ToTokens::to_token_stream(expr).to_string();
    Ok(match func.block.stmts.last() {
        Some(syn::Stmt::Expr(syn::Expr::Return(ret), _)) => Some(TailSource::Return(ret.expr.as_deref().map(render))),
        Some(syn::Stmt::Expr(expr, _)) => Some(TailSource::Expr(render(expr))),
        _ => None,
    })
}

/// Parses a rendered expression with `syn::parse_str::<syn::Expr>` and
/// reads it as a call; the contract names the result.
#[verifier::external_body]
fn read_call(expr: &str) -> (r: Option<(CallFunc, FirstArg)>)
    ensures
        call_parts_of(expr@) == match r {
            Some((f, a)) => Some((call_func_view(f), first_arg_view(a))),
            None => None,
        },
{
    let Ok(Expr::Call(call)) = syn::parse_str::<Expr>(expr) else { return None };
    let first = |path: &ExprPath| path.path.segments.first().map(|segment| segment.ident.to_string());
    Some((match &*call.func { Expr::Path(path) => CallFunc::Path(path.path.get_ident().map(|ident| ident.to_string())), _ => CallFunc::Other }, match call.args.first() {
        None => FirstArg::Missing,
        Some(Expr::Path(path)) => FirstArg::Path(first(path)),
        Some(Expr::Call(inner)) => match &*inner.func { Expr::Path(path) => FirstArg::CallPath(first(path)), _ => FirstArg::CallOther },
        Some(_) => FirstArg::Other,
    }))
}

/// Parses a rendered type with `syn::parse_str::<syn::Type>` and reads it
/// as `#[subscriber]` reads its event parameter; the contract names the
/// result.
#[verifier::external_body]
fn read_event_type(ty: &str) -> (r: EventParamType)
    ensures
        event_type_view(r) == event_type_of(ty@),
{
    let render = |path: &syn::TypePath| quote::ToTokens::to_token_stream(path).to_string();
    match syn::parse_str::<syn::Type>(ty) {
        Ok(syn::Type::Path(path)) => EventParamType::Path(render(&path)),
        Ok(syn::Type::Reference(refs)) => EventParamType::Ref { mutable: refs.mutability.is_some(), path: match &*refs.elem { syn::Type::Path(path) => Some(render(path)), _ => None } },
        _ => EventParamType::Other,
    }
}

/// The first parameter of a subscriber, as read from its parameters.
pub open spec fn subscriber_param_of(ps: Seq<FnParamView>) -> SubscriberParamView {
    if ps.len() == 0 {
        SubscriberParamView::Missing
    } else {
        match ps[0] {
            FnParamView::Receiver => SubscriberParamView::Receiver,
            FnParamView::Typed { name, mutable_binding, ty } => SubscriberParamView::Typed {
                name,
                mutable_binding,
                ty: event_type_of(ty),
            },
        }
    }
}

/// The last statement of a subscriber's body, as read.
pub open spec fn subscriber_tail_of(t: Option<TailSourceView>) -> Option<TailView> {
    match t {
        None => None,
        Some(TailSourceView::Expr(e)) => match call_parts_of(e) {
            Some((func, first_arg)) => Some(TailView::Call { func, first_arg }),
            None => Some(TailView::Other),
        },
        Some(TailSourceView::Return(None)) => Some(TailView::ReturnNothing),
        Some(TailSourceView::Return(Some(e))) => match call_parts_of(e) {
            Some((func, first_arg)) => Some(TailView::ReturnCall { func, first_arg }),
            None => Some(TailView::ReturnOther),
        },
    }
}

fn subscriber_param(params: &Vec<FnParam>) -> (r: SubscriberParam)
    ensures
        subscriber_param_view(r) == subscriber_param_of(param_views(params@)),
{
    if params.len() == 0 {
        return SubscriberParam::Missing;
    }
    match &params[0] {
        FnParam::Receiver => SubscriberParam::Receiver,
        FnParam::Typed { name, mutable_binding, ty } => SubscriberParam::Typed {
            name: name.clone(),
            mutable_binding: *mutable_binding,
            ty: read_event_type(ty.as_str()),
        },
    }
}

fn subscriber_tail(source: &Option<TailSource>) -> (r: Option<TailExpr>)
    ensures
        tail_view(r) == subscriber_tail_of(tail_source_view(*source)),
{
    match source {
        None => None,
        Some(TailSource::Expr(e)) => match read_call(e.as_str()) {
            Some((func, first_arg)) => Some(TailExpr::Call { func, first_arg }),
            None => Some(TailExpr::Other),
        },
        Some(TailSource::Return(None)) => Some(TailExpr::Return(None)),
        Some(TailSource::Return(Some(e))) => match read_call(e.as_str()) {
            Some((func, first_arg)) => Some(TailExpr::Return(Some(Returned::Call { func, first_arg }))),
            None => Some(TailExpr::Return(Some(Returned::Other))),
        },
    }
}

/// Plan a subscriber from its function's source: the parse error's
/// message when it is no function, else what its first parameter and last
/// statement, as read, come to. A last call whose function is a longer
/// path than an identifier aborts the attribute, once the parameter was
/// accepted.
pub fn plan_subscriber_item(item: &str) -> (r: Result<SubscriberPlan, String>)
    ensures
        fn_params_of(item@) matches Err(m) ==> r matches Err(e) && e@ == m,
        fn_params_of(item@) matches Ok(ps) ==> match subscriber_param_outcome(subscriber_param_of(ps)) {
            Err(m) => r matches Err(e) && e@ == m,
            Ok((data, event, mutable)) => match tail_source_of(item@) {
                Err(m) => r matches Err(e) && e@ == m,
                Ok(source) => if tail_readable(subscriber_tail_of(source)) {
                    r matches Ok(p) && p.data_name@ == data && p.event_type@ == event && p.is_mutable == mutable
                        && p.add_continue == !tail_returns_state(subscriber_tail_of(source))
                } else {
                    r matches Err(e) && e@ == "called `Option::unwrap()` on a `None` value"@
                },
            },
        },
{
    let params = match parse_fn_params(item) {
        Ok(params) => params,
        Err(e) => {
            return Err(e);
        },
    };
    let param = subscriber_param(&params);
    let none: Option<TailExpr> = None;
    proof {
        lemma_subscriber_views(param, none);
    }
    let checked = plan_subscriber(&param, &none);
    if checked.is_err() {
        return checked;
    }
    let source = match read_tail_source(item) {
        Ok(source) => source,
        Err(e) => {
            return Err(e);
        },
    };
    let tail = subscriber_tail(&source);
    proof {
        lemma_subscriber_views(param, tail);
    }
    if !tail_is_readable(&tail) {
        return Err("called `Option::unwrap()` on a `None` value".to_owned());
    }
    plan_subscriber(&param, &tail)
}

fn tail_is_readable(tail: &Option<TailExpr>) -> (r: bool)
    ensures
        r == readable_tail(*tail),
{
    match tail {
        Some(TailExpr::Call { func, .. }) => !matches!(func, CallFunc::Path(None)),
        Some(TailExpr::Return(Some(Returned::Call { func, .. }))) => !matches!(func, CallFunc::Path(None)),
        _ => true,
    }
}

proof fn lemma_subscriber_views(param: SubscriberParam, tail: Option<TailExpr>)
    ensures
        readable_tail(tail) == tail_readable(tail_view(tail)),
        ends_with_return(tail) == tail_returns_state(tail_view(tail)),
        param matches SubscriberParam::Typed { ty, mutable_binding, .. } ==> match subscriber_event(mutable_binding, ty) {
            Ok((event, mutable)) => subscriber_param_view(param) matches SubscriberParamView::Typed { ty: tv, .. }
                && !(tv is Other) && match subscriber_param_outcome(subscriber_param_view(param)) {
                    Ok((_, e, m)) => e == event && m == mutable,
                    Err(_) => true,
                },
            Err(m) => event_type_view(ty) is Other && m == "Unsupported event param type, must be a path or reference."@,
        },
{
}

} // verus!
