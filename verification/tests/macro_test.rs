use starbase_process::derive_plans::{
    has_return_statement, plan_listener, plan_subscriber, resource_impls, state_impls, CallFunc,
    DerivedImpl, EventParamType, FieldShape, FirstArg, ListenerParam, Returned, SubscriberParam,
    TailExpr, TypeShape,
};
use starbase_process::system_macro::{
    plan_system, GenericFirst, InstanceTracker, InstanceType, ParamType, Statement, SystemArgs,
    SystemInput, SystemParam,
};

fn typed(name: &str, ty: ParamType) -> SystemInput {
    SystemInput::Typed { name: Some(name.to_owned()), ty }
}

fn plain(name: &str, wrapper: &str) -> SystemInput {
    typed(name, ParamType::Plain(wrapper.to_owned()))
}

fn generic(name: &str, wrapper: &str, inner: &str) -> SystemInput {
    typed(
        name,
        ParamType::Generic { wrapper: wrapper.to_owned(), first: GenericFirst::Type(inner.to_owned()) },
    )
}

fn fetch(name: &str, var: &str, ty: &str, mutable: bool, emitter: bool) -> Statement {
    Statement::Fetch {
        name: name.to_owned(),
        var: var.to_owned(),
        ty: ty.to_owned(),
        mutable,
        emitter,
    }
}

fn acquire(mutable: bool, var: &str, manager: &str) -> Statement {
    Statement::Acquire { mutable, var: var.to_owned(), manager: manager.to_owned() }
}

#[test]
fn instance_type_names() {
    assert_eq!(InstanceType::Emitter.manager_name(), "Emitters");
    assert_eq!(InstanceType::Resource.manager_name(), "Resources");
    assert_eq!(InstanceType::State.manager_name(), "States");
    assert_eq!(InstanceType::Emitter.param_name(), "emitters");
    assert_eq!(InstanceType::Resource.param_name(), "resources");
    assert_eq!(InstanceType::State.param_name(), "states");
}

#[test]
fn plans_fetches_sorted_by_name_under_one_lock() {
    let inputs = vec![
        generic("zeta", "StateRef", "Zeta"),
        generic("alpha", "StateRef", "Alpha"),
        generic("res", "ResourceMut", "Config"),
        plain("my_emitters", "Emitters"),
        generic("ev", "EmitterRef", "OnStart"),
    ];
    let plan = plan_system(&inputs).unwrap();
    assert_eq!(plan.state_param, "states");
    assert_eq!(
        plan.state_quotes,
        vec![
            acquire(false, "states", "states"),
            fetch("alpha", "states", "Alpha", false, false),
            fetch("zeta", "states", "Zeta", false, false),
        ]
    );
    assert_eq!(
        plan.resource_quotes,
        vec![acquire(true, "resources", "resources"), fetch("res", "resources", "Config", true, false)]
    );
    assert_eq!(plan.emitter_param, "my_emitters");
    assert_eq!(
        plan.emitter_quotes,
        vec![acquire(false, "my_emitters", "my_emitters"), fetch("ev", "my_emitters", "OnStart", false, true)]
    );
}

#[test]
fn manager_parameters_acquire_the_manager() {
    let plan = plan_system(&vec![plain("s", "StatesMut")]).unwrap();
    assert_eq!(plan.state_quotes, vec![acquire(true, "s", "states")]);
    assert!(plan.resource_quotes.is_empty());
    assert!(plan.emitter_quotes.is_empty());
}

#[test]
fn refuses_invalid_parameters() {
    let error = |inputs: Vec<SystemInput>| plan_system(&inputs).unwrap_err();
    assert_eq!(error(vec![SystemInput::Receiver]), "&self not permitted in system functions.");
    assert_eq!(
        error(vec![SystemInput::Typed { name: None, ty: ParamType::Other }]),
        "Unsupported parameter identifier pattern."
    );
    assert_eq!(error(vec![typed("x", ParamType::Other)]), "Unsupported parameter type for x.");
    assert_eq!(error(vec![typed("x", ParamType::NoSegment)]), "Required a parameter type for x.");
    assert_eq!(error(vec![plain("x", "Nope")]), "Unknown parameter type Nope for x.");
    assert_eq!(
        error(vec![typed("x", ParamType::Parenthesized("StateRef".to_owned()))]),
        "Required a generic parameter type for StateRef."
    );
    assert_eq!(
        error(vec![typed(
            "x",
            ParamType::Generic { wrapper: "StateRef".to_owned(), first: GenericFirst::NotType }
        )]),
        "Required a generic parameter type for StateRef."
    );
    assert_eq!(error(vec![generic("x", "Nope", "T")]), "Unknown parameter type Nope for x.");
    assert_eq!(
        error(vec![plain("a", "StatesMut"), plain("b", "StatesRef")]),
        "Cannot use multiple managers or a mutable and immutable manager together. Use StatesMut or StatesRef distinctly."
    );
    assert_eq!(
        error(vec![plain("a", "ResourcesRef"), generic("b", "ResourceRef", "T")]),
        "Cannot access values from a manager when also accessing the manager itself. Found ResourcesMut or ResourcesRef."
    );
    assert_eq!(
        error(vec![generic("a", "EmitterMut", "A"), generic("b", "EmitterMut", "B")]),
        "Only 1 mutable emitters parameter is allowed per system function."
    );
    assert_eq!(
        error(vec![generic("a", "StateMut", "A"), generic("b", "StateRef", "B")]),
        "Cannot mix mutable and immutable states parameters in the same system function."
    );
}

#[test]
fn the_first_refused_parameter_is_reported() {
    let inputs = vec![plain("x", "Nope"), SystemInput::Receiver];
    assert_eq!(plan_system(&inputs).unwrap_err(), "Unknown parameter type Nope for x.");
}

#[test]
fn trackers_keep_the_last_call_of_a_name() {
    let mut tracker = InstanceTracker::new(InstanceType::State);
    tracker.add_call("a", SystemParam::ParamRef("One".to_owned())).unwrap();
    tracker.add_call("a", SystemParam::ParamRef("Two".to_owned())).unwrap();
    assert_eq!(tracker.ref_calls, vec![("a".to_owned(), "Two".to_owned())]);
    assert_eq!(tracker.generate_param_name(), "states");
}

#[test]
fn system_args_default_to_instrumenting() {
    let args = SystemArgs::default();
    assert!(args.instruments(true));
    assert!(!args.instruments(false));
    assert!(!SystemArgs { instrument: Some(false) }.instruments(true));
    assert!(!SystemArgs { instrument: None }.instruments(true));
}

#[test]
fn resource_derive_impls() {
    assert_eq!(
        resource_impls(TypeShape::Struct(FieldShape::Unnamed { count: 1, first_is_pathbuf: false })).unwrap(),
        vec![
            DerivedImpl::Instance,
            DerivedImpl::AsRefSelf,
            DerivedImpl::Deref,
            DerivedImpl::DerefMut,
            DerivedImpl::AsRefInner
        ]
    );
    assert_eq!(
        resource_impls(TypeShape::Struct(FieldShape::Unnamed { count: 2, first_is_pathbuf: false })).unwrap(),
        vec![DerivedImpl::Instance, DerivedImpl::AsRefSelf]
    );
    assert_eq!(resource_impls(TypeShape::Enum).unwrap(), vec![DerivedImpl::Instance]);
    assert_eq!(
        resource_impls(TypeShape::Union).unwrap_err(),
        "#[derive(Resource)] is not supported for unions."
    );
}

#[test]
fn state_derive_impls() {
    assert_eq!(
        state_impls(TypeShape::Struct(FieldShape::Named)).unwrap(),
        vec![DerivedImpl::Instance, DerivedImpl::AsRefSelf]
    );
    assert_eq!(
        state_impls(TypeShape::Struct(FieldShape::Unnamed { count: 1, first_is_pathbuf: true })).unwrap(),
        vec![
            DerivedImpl::Instance,
            DerivedImpl::Deref,
            DerivedImpl::DerefMut,
            DerivedImpl::AsRefInner,
            DerivedImpl::AsRefPath
        ]
    );
    assert_eq!(state_impls(TypeShape::Struct(FieldShape::Unit)).unwrap(), vec![DerivedImpl::Instance]);
    assert_eq!(
        state_impls(TypeShape::Struct(FieldShape::Unnamed { count: 0, first_is_pathbuf: false })).unwrap_err(),
        "#[derive(State)] on a struct requires a single unnamed field."
    );
    assert_eq!(state_impls(TypeShape::Union).unwrap_err(), "#[derive(State)] is not supported for unions.");
}

#[test]
fn listener_plans() {
    let plan = plan_listener("on_project_started", &ListenerParam::RefPath(Some("ProjectStarted".to_owned())), true)
        .unwrap();
    assert_eq!(plan.listener_name, "OnProjectStartedListener");
    assert_eq!(plan.event_name, "ProjectStarted");
    assert!(plan.is_once);
    assert_eq!(
        plan_listener("f", &ListenerParam::Missing, false).unwrap_err(),
        "Macro #[listener] requires an event as the only argument."
    );
    assert_eq!(plan_listener("f", &ListenerParam::Receiver, false).unwrap_err(), "Cannot use &self as an event.");
    assert_eq!(plan_listener("f", &ListenerParam::RefOther, false).unwrap_err(), "Requires a literal event name.");
    assert_eq!(plan_listener("f", &ListenerParam::NotRef, false).unwrap_err(), "Requires a mutable referenced event.");
    assert_eq!(plan_listener("f", &ListenerParam::RefVerbatim("Ev".to_owned()), false).unwrap().event_name, "Ev");
}

fn call(ident: &str, first_arg: FirstArg) -> TailExpr {
    TailExpr::Call { func: CallFunc::Path(Some(ident.to_owned())), first_arg }
}

#[test]
fn return_statements_are_recognized() {
    let state = || Some("EventState".to_owned());
    assert!(has_return_statement(&Some(call("Err", FirstArg::Missing))));
    assert!(has_return_statement(&Some(call("Ok", FirstArg::Path(state())))));
    assert!(has_return_statement(&Some(call("Ok", FirstArg::CallPath(state())))));
    assert!(!has_return_statement(&Some(call("Ok", FirstArg::Path(Some("Other".to_owned()))))));
    assert!(!has_return_statement(&Some(call("Some", FirstArg::Path(state())))));
    assert!(has_return_statement(&Some(TailExpr::Return(Some(Returned::Call {
        func: CallFunc::Path(Some("Ok".to_owned())),
        first_arg: FirstArg::Path(state()),
    })))));
    assert!(!has_return_statement(&Some(TailExpr::Return(None))));
    assert!(!has_return_statement(&None));
    assert!(!has_return_statement(&Some(TailExpr::Other)));
}

#[test]
fn subscriber_plans() {
    let param = SubscriberParam::Typed {
        name: Some("data".to_owned()),
        mutable_binding: false,
        ty: EventParamType::Ref { mutable: true, path: Some("MyEvent".to_owned()) },
    };
    let plan = plan_subscriber(&param, &None).unwrap();
    assert_eq!(plan.data_name, "data");
    assert_eq!(plan.event_type, "MyEvent");
    assert!(plan.is_mutable);
    assert!(plan.add_continue);

    let plan = plan_subscriber(
        &SubscriberParam::Typed {
            name: Some("data".to_owned()),
            mutable_binding: false,
            ty: EventParamType::Path("MyEvent".to_owned()),
        },
        &Some(call("Err", FirstArg::Missing)),
    )
    .unwrap();
    assert!(!plan.is_mutable);
    assert!(!plan.add_continue);

    assert_eq!(
        plan_subscriber(&SubscriberParam::Missing, &None).unwrap_err(),
        "Requires an event as the only parameter."
    );
    assert_eq!(plan_subscriber(&SubscriberParam::Receiver, &None).unwrap_err(), "Unsupported param type.");
    assert_eq!(
        plan_subscriber(
            &SubscriberParam::Typed { name: None, mutable_binding: false, ty: EventParamType::Other },
            &None
        )
        .unwrap_err(),
        "Unsupported param, must be an identifier."
    );
    assert_eq!(
        plan_subscriber(
            &SubscriberParam::Typed { name: Some("d".to_owned()), mutable_binding: false, ty: EventParamType::Other },
            &None
        )
        .unwrap_err(),
        "Unsupported event param type, must be a path or reference."
    );
}
