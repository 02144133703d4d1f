//! The logic of the `#[system]` attribute: which instance managers a
//! system function's parameters ask for, the rules on combining them, and
//! the statements that acquire them. The attribute itself parses the
//! function and renders these statements as tokens.

use crate::cache_key::{key_less, lemma_lex_asymmetric, lemma_lex_total, lex_lt};
use crate::text::str_eq;
use vstd::prelude::*;

verus! {

/// A kind of instance a system function can access.
#[derive(Clone, Copy, Debug, PartialEq, Eq, Structural)]
pub enum InstanceType {
    Emitter,
    Resource,
    State,
}

/// The manager type of an instance kind.
pub open spec fn manager_name_of(t: InstanceType) -> Seq<char> {
    match t {
        InstanceType::Emitter => "Emitters"@,
        InstanceType::Resource => "Resources"@,
        InstanceType::State => "States"@,
    }
}

/// The default parameter name of an instance kind's manager.
pub open spec fn param_name_of(t: InstanceType) -> Seq<char> {
    match t {
        InstanceType::Emitter => "emitters"@,
        InstanceType::Resource => "resources"@,
        InstanceType::State => "states"@,
    }
}

impl InstanceType {
    /// The manager type of this instance kind.
    pub fn manager_name(&self) -> (r: &'static str)
        ensures
            r@ == manager_name_of(*self),
    {
        match self {
            InstanceType::Emitter => "Emitters",
            InstanceType::Resource => "Resources",
            InstanceType::State => "States",
        }
    }

    /// The default parameter name of this instance kind's manager.
    pub fn param_name(&self) -> (r: &'static str)
        ensures
            r@ == param_name_of(*self),
    {
        match self {
            InstanceType::Emitter => "emitters",
            InstanceType::Resource => "resources",
            InstanceType::State => "states",
        }
    }
}

/// How a system function's parameter accesses an instance kind: the whole
/// manager, mutably or not, or one instance of a type, mutably or not.
#[derive(Clone, Debug, PartialEq, Eq)]
pub enum SystemParam {
    ManagerMut,
    ManagerRef,
    /// One instance of the type (its rendered path), mutably.
    ParamMut(String),
    /// One instance of the type (its rendered path), immutably.
    ParamRef(String),
}

/// One statement of a system function's prologue.
#[derive(Clone, Debug, PartialEq, Eq)]
pub enum Statement {
    /// `let [mut] var = manager.write|read().await;`
    Acquire { mutable: bool, var: String, manager: String },
    /// `let name = var.get_mut|get::<ty>();`, where an emitter's type is
    /// wrapped as `starbase::Emitter<ty>`.
    Fetch { name: String, var: String, ty: String, mutable: bool, emitter: bool },
}

/// The mathematical view of a [`Statement`].
pub enum StatementView {
    Acquire { mutable: bool, var: Seq<char>, manager: Seq<char> },
    Fetch { name: Seq<char>, var: Seq<char>, ty: Seq<char>, mutable: bool, emitter: bool },
}

impl View for Statement {
    type V = StatementView;

    open spec fn view(&self) -> StatementView {
        match self {
            Statement::Acquire { mutable, var, manager } => StatementView::Acquire {
                mutable: *mutable,
                var: var@,
                manager: manager@,
            },
            Statement::Fetch { name, var, ty, mutable, emitter } => StatementView::Fetch {
                name: name@,
                var: var@,
                ty: ty@,
                mutable: *mutable,
                emitter: *emitter,
            },
        }
    }
}

/// The views of statements.
pub open spec fn statement_views(s: Seq<Statement>) -> Seq<StatementView> {
    s.map_values(|x: Statement| x@)
}

/// The views of pairs of strings.
pub open spec fn call_views(s: Seq<(String, String)>) -> Seq<(Seq<char>, Seq<char>)> {
    s.map_values(|p: (String, String)| (p.0@, p.1@))
}

/// `s` with `(k, v)` stored under its name, as a map ordered by name
/// stores it: replacing the entry of that name, or inserted before the
/// first entry whose name sorts after it.
pub open spec fn sorted_insert(s: Seq<(Seq<char>, Seq<char>)>, k: Seq<char>, v: Seq<char>) -> Seq<(Seq<char>, Seq<char>)>
    decreases s.len(),
{
    if s.len() == 0 {
        seq![(k, v)]
    } else if s[0].0 == k {
        seq![(k, v)] + s.drop_first()
    } else if lex_lt(k, s[0].0) {
        seq![(k, v)] + s
    } else {
        seq![s[0]] + sorted_insert(s.drop_first(), k, v)
    }
}

/// The names of `s` strictly increase.
pub open spec fn names_sorted(s: Seq<(Seq<char>, Seq<char>)>) -> bool {
    forall|i: int, j: int| 0 <= i < j < s.len() ==> lex_lt(#[trigger] s[i].0, #[trigger] s[j].0)
}

proof fn lemma_sorted_insert_at(s: Seq<(Seq<char>, Seq<char>)>, k: Seq<char>, v: Seq<char>, p: int)
    requires
        0 <= p <= s.len(),
        forall|i: int| 0 <= i < p ==> lex_lt(#[trigger] s[i].0, k),
        p < s.len() ==> !lex_lt(s[p].0, k),
    ensures
        p < s.len() && s[p].0 == k ==> sorted_insert(s, k, v) == s.update(p, (k, v)),
        !(p < s.len() && s[p].0 == k) ==> sorted_insert(s, k, v) == s.insert(p, (k, v)),
    decreases p,
{
    if p == 0 {
        if s.len() > 0 && s[0].0 != k {
            lemma_lex_total(s[0].0, k);
        }
        if s.len() > 0 {
            assert(seq![(k, v)] + s.drop_first() =~= s.update(0, (k, v)));
        }
        assert(seq![(k, v)] + s =~= s.insert(0, (k, v)));
    } else {
        assert(lex_lt(s[0].0, k));
        lemma_lex_asymmetric(s[0].0, k);
        if s[0].0 == k {
            crate::cache_key::lemma_lex_irreflexive(k);
        }
        let t = s.drop_first();
        assert forall|i: int| 0 <= i < p - 1 implies lex_lt(#[trigger] t[i].0, k) by {
            assert(t[i] == s[i + 1]);
        }
        lemma_sorted_insert_at(t, k, v, p - 1);
        assert(s =~= seq![s[0]] + t);
        if p < s.len() && s[p].0 == k {
            assert(seq![s[0]] + t.update(p - 1, (k, v)) =~= s.update(p, (k, v)));
        } else {
            assert(seq![s[0]] + t.insert(p - 1, (k, v)) =~= s.insert(p, (k, v)));
        }
    }
}

/// Store `(name, ty)` in `calls`, kept ordered by name.
pub(crate) fn insert_call(calls: &mut Vec<(String, String)>, name: &str, ty: &str)
    ensures
        call_views(final(calls)@) == sorted_insert(call_views(old(calls)@), name@, ty@),
{
    let ghost before = call_views(calls@);
    let mut p: usize = 0;
    while p < calls.len() && key_less(calls[p].0.as_str(), name)
        invariant
            p <= calls@.len(),
            before == call_views(calls@),
            forall|i: int| 0 <= i < p ==> lex_lt(#[trigger] before[i].0, name@),
        decreases calls@.len() - p,
    {
        assert(before[p as int].0 == calls@[p as int].0@);
        p = p + 1;
    }
    proof {
        if p < calls@.len() {
            assert(before[p as int].0 == calls@[p as int].0@);
        }
        lemma_sorted_insert_at(before, name@, ty@, p as int);
    }
    if p < calls.len() && str_eq(calls[p].0.as_str(), name) {
        assert(before[p as int].0 == name@);
        calls.set(p, (name.to_owned(), ty.to_owned()));
        assert(call_views(calls@) =~= before.update(p as int, (name@, ty@)));
    } else {
        calls.insert(p, (name.to_owned(), ty.to_owned()));
        assert(call_views(calls@) =~= before.insert(p as int, (name@, ty@)));
    }
}

/// What a system function's parameters ask of one instance kind.
#[derive(Clone, Debug)]
pub struct InstanceTracker {
    /// The name the manager parameter was given, if the function named it.
    pub param_name: Option<String>,
    /// The name the acquired manager is bound to, when the function asks
    /// for the manager itself.
    pub acquire_as: Option<String>,
    /// The manager access the function asks for, if any.
    pub manager_call: Option<SystemParam>,
    /// The instances fetched mutably: name and type, ordered by name.
    pub mut_calls: Vec<(String, String)>,
    /// The instances fetched immutably: name and type, ordered by name.
    pub ref_calls: Vec<(String, String)>,
    /// The instance kind tracked.
    pub type_of: InstanceType,
}

/// The mathematical view of an [`InstanceTracker`].
pub struct TrackerView {
    pub param_name: Option<Seq<char>>,
    pub acquire_as: Option<Seq<char>>,
    pub manager_call: Option<SystemParam>,
    pub mut_calls: Seq<(Seq<char>, Seq<char>)>,
    pub ref_calls: Seq<(Seq<char>, Seq<char>)>,
    pub type_of: InstanceType,
}

/// The view of an optional string.
pub open spec fn opt_view(o: Option<String>) -> Option<Seq<char>> {
    match o {
        Some(s) => Some(s@),
        None => None,
    }
}

impl View for InstanceTracker {
    type V = TrackerView;

    open spec fn view(&self) -> TrackerView {
        TrackerView {
            param_name: opt_view(self.param_name),
            acquire_as: opt_view(self.acquire_as),
            manager_call: self.manager_call,
            mut_calls: call_views(self.mut_calls@),
            ref_calls: call_views(self.ref_calls@),
            type_of: self.type_of,
        }
    }
}

/// The message the attribute aborts with when a second manager is asked for.
pub open spec fn multiple_managers_message(t: InstanceType) -> Seq<char> {
    "Cannot use multiple managers or a mutable and immutable manager together. Use "@
        + manager_name_of(t) + "Mut or "@ + manager_name_of(t) + "Ref distinctly."@
}

/// The message the attribute aborts with when instances are fetched
/// beside their manager.
pub open spec fn manager_and_values_message(t: InstanceType) -> Seq<char> {
    "Cannot access values from a manager when also accessing the manager itself. Found "@
        + manager_name_of(t) + "Mut or "@ + manager_name_of(t) + "Ref."@
}

/// The message the attribute aborts with for a second mutable instance.
pub open spec fn multiple_mut_message(t: InstanceType) -> Seq<char> {
    "Only 1 mutable "@ + param_name_of(t) + " parameter is allowed per system function."@
}

/// The message the attribute aborts with for mutable and immutable
/// instances together.
pub open spec fn mixed_message(t: InstanceType) -> Seq<char> {
    "Cannot mix mutable and immutable "@ + param_name_of(t) + " parameters in the same system function."@
}

/// The tracker after a manager access is asked for, or the message the
/// attribute aborts with.
pub open spec fn manager_set(t: TrackerView, name: Seq<char>, param: SystemParam) -> Result<TrackerView, Seq<char>> {
    if t.manager_call is None {
        Ok(TrackerView { acquire_as: Some(name), manager_call: Some(param), ..t })
    } else {
        Err(multiple_managers_message(t.type_of))
    }
}

/// The tracker after an instance fetch is asked for, or the message the
/// attribute aborts with.
pub open spec fn call_added(t: TrackerView, name: Seq<char>, ty: Seq<char>, mutable: bool) -> Result<TrackerView, Seq<char>> {
    if t.manager_call is Some {
        Err(manager_and_values_message(t.type_of))
    } else {
        let u = if mutable {
            TrackerView { mut_calls: sorted_insert(t.mut_calls, name, ty), ..t }
        } else {
            TrackerView { ref_calls: sorted_insert(t.ref_calls, name, ty), ..t }
        };
        if u.mut_calls.len() > 1 {
            Err(multiple_mut_message(t.type_of))
        } else if u.ref_calls.len() > 0 && u.mut_calls.len() > 0 {
            Err(mixed_message(t.type_of))
        } else {
            Ok(u)
        }
    }
}

/// The name of the manager parameter.
pub open spec fn manager_param(t: TrackerView) -> Seq<char> {
    match t.param_name {
        Some(n) => n,
        None => param_name_of(t.type_of),
    }
}

/// The fetch statements for the calls of `s`, in order.
pub open spec fn fetches(s: Seq<(Seq<char>, Seq<char>)>, var: Seq<char>, mutable: bool, emitter: bool) -> Seq<StatementView> {
    s.map_values(
        |c: (Seq<char>, Seq<char>)|
            StatementView::Fetch { name: c.0, var, ty: c.1, mutable, emitter },
    )
}

/// The prologue a tracker asks for: nothing when nothing is accessed;
/// otherwise acquire the manager (writable when asked so, or when an
/// instance is fetched mutably), then fetch the mutable instances, then
/// the immutable ones.
pub open spec fn quotes_of(t: TrackerView) -> Seq<StatementView> {
    if t.manager_call is None && t.mut_calls.len() == 0 && t.ref_calls.len() == 0 {
        Seq::empty()
    } else {
        let var = match t.acquire_as {
            Some(n) => n,
            None => manager_param(t),
        };
        let mutable = match t.manager_call {
            Some(SystemParam::ManagerMut) => true,
            Some(_) => false,
            None => t.mut_calls.len() > 0,
        };
        let emitter = t.type_of == InstanceType::Emitter;
        seq![StatementView::Acquire { mutable, var, manager: manager_param(t) }] + fetches(
            t.mut_calls,
            var,
            true,
            emitter,
        ) + fetches(t.ref_calls, var, false, emitter)
    }
}

fn push_fetches(
    out: &mut Vec<Statement>,
    calls: &Vec<(String, String)>,
    var: &String,
    mutable: bool,
    emitter: bool,
)
    ensures
        statement_views(final(out)@) == statement_views(old(out)@) + fetches(
            call_views(calls@),
            var@,
            mutable,
            emitter,
        ),
{
    let ghost start = statement_views(out@);
    let mut i: usize = 0;
    while i < calls.len()
        invariant
            i <= calls@.len(),
            statement_views(out@) == start + fetches(call_views(calls@).take(i as int), var@, mutable, emitter),
        decreases calls@.len() - i,
    {
        let ghost before = out@;
        out.push(
            Statement::Fetch {
                name: calls[i].0.clone(),
                var: var.clone(),
                ty: calls[i].1.clone(),
                mutable,
                emitter,
            },
        );
        proof {
            assert(call_views(calls@).take(i + 1) =~= call_views(calls@).take(i as int).push(
                call_views(calls@)[i as int],
            ));
            assert(statement_views(out@) =~= statement_views(before).push(
                out@[i + before.len() - i]@,
            ));
            assert(statement_views(out@) =~= start + fetches(call_views(calls@).take(i + 1), var@, mutable, emitter));
        }
        i = i + 1;
    }
    assert(call_views(calls@).take(calls@.len() as int) =~= call_views(calls@));
}

impl InstanceTracker {
    /// A tracker of an instance kind that nothing has been asked of.
    pub fn new(type_of: InstanceType) -> (r: InstanceTracker)
        ensures
            r@ == (TrackerView {
                param_name: None,
                acquire_as: None,
                manager_call: None,
                mut_calls: Seq::empty(),
                ref_calls: Seq::empty(),
                type_of,
            }),
    {
        let r = InstanceTracker {
            param_name: None,
            acquire_as: None,
            manager_call: None,
            mut_calls: Vec::new(),
            ref_calls: Vec::new(),
            type_of,
        };
        assert(r@.mut_calls =~= Seq::<(Seq<char>, Seq<char>)>::empty());
        assert(r@.ref_calls =~= Seq::<(Seq<char>, Seq<char>)>::empty());
        r
    }

    /// Record the name the function gave the manager parameter.
    pub fn set_param(&mut self, name: &str)
        ensures
            final(self)@ == (TrackerView { param_name: Some(name@), ..old(self)@ }),
    {
        self.param_name = Some(name.to_owned());
    }

    /// Record that the function asks for the manager itself, bound to
    /// `name`. A second manager access is refused with the message the
    /// attribute aborts with.
    pub fn set_manager(&mut self, name: &str, param: SystemParam) -> (r: Result<(), String>)
        requires
            param is ManagerMut || param is ManagerRef,
        ensures
            manager_set(old(self)@, name@, param) matches Ok(t) ==> r is Ok && final(self)@ == t,
            manager_set(old(self)@, name@, param) matches Err(m) ==> r matches Err(e) && e@ == m,
            final(self).type_of == old(self).type_of,
    {
        if self.manager_call.is_none() {
            self.acquire_as = Some(name.to_owned());
            self.manager_call = Some(param);
            Ok(())
        } else {
            let manager_name = self.type_of.manager_name();
            let mut message = String::new();
            message.append("Cannot use multiple managers or a mutable and immutable manager together. Use ");
            message.append(manager_name);
            message.append("Mut or ");
            message.append(manager_name);
            message.append("Ref distinctly.");
            Err(message)
        }
    }

    /// Record that the function fetches one instance, mutably or not. The
    /// combinations the attribute refuses are returned as the message it
    /// aborts with.
    pub fn add_call(&mut self, name: &str, param: SystemParam) -> (r: Result<(), String>)
        requires
            param is ParamMut || param is ParamRef,
        ensures
            ({
                let (ty, mutable) = match param {
                    SystemParam::ParamMut(ty) => (ty@, true),
                    SystemParam::ParamRef(ty) => (ty@, false),
                    _ => (Seq::empty(), false),
                };
                &&& call_added(old(self)@, name@, ty, mutable) matches Ok(t) ==> r is Ok && final(self)@ == t
                &&& call_added(old(self)@, name@, ty, mutable) matches Err(m) ==> r matches Err(e) && e@ == m
            }),
            final(self).type_of == old(self).type_of,
    {
        if self.manager_call.is_some() {
            let manager_name = self.type_of.manager_name();
            let mut message = String::new();
            message.append("Cannot access values from a manager when also accessing the manager itself. Found ");
            message.append(manager_name);
            message.append("Mut or ");
            message.append(manager_name);
            message.append("Ref.");
            return Err(message);
        }
        match &param {
            SystemParam::ParamMut(ty) => insert_call(&mut self.mut_calls, name, ty.as_str()),
            SystemParam::ParamRef(ty) => insert_call(&mut self.ref_calls, name, ty.as_str()),
            _ => {},
        }
        if self.mut_calls.len() > 1 {
            let mut message = String::new();
            message.append("Only 1 mutable ");
            message.append(self.type_of.param_name());
            message.append(" parameter is allowed per system function.");
            return Err(message);
        }
        if self.ref_calls.len() > 0 && self.mut_calls.len() > 0 {
            let mut message = String::new();
            message.append("Cannot mix mutable and immutable ");
            message.append(self.type_of.param_name());
            message.append(" parameters in the same system function.");
            return Err(message);
        }
        Ok(())
    }

    /// The name of the manager parameter: the one the function gave it,
    /// else the default of the instance kind.
    pub fn generate_param_name(&self) -> (r: String)
        ensures
            r@ == manager_param(self@),
    {
        match &self.param_name {
            Some(n) => n.clone(),
            None => self.type_of.param_name().to_owned(),
        }
    }

    /// The statements that acquire what the function asks of this kind.
    pub fn generate_quotes(&self) -> (r: Vec<Statement>)
        ensures
            statement_views(r@) == quotes_of(self@),
    {
        let mut quotes: Vec<Statement> = Vec::new();
        if self.manager_call.is_none() && self.mut_calls.len() == 0 && self.ref_calls.len() == 0 {
            assert(statement_views(quotes@) =~= Seq::<StatementView>::empty());
            return quotes;
        }
        let manager_param_name = self.generate_param_name();
        let manager_var_name = match &self.acquire_as {
            Some(n) => n.clone(),
            None => manager_param_name.clone(),
        };
        let mutable = match &self.manager_call {
            Some(SystemParam::ManagerMut) => true,
            Some(_) => false,
            None => self.mut_calls.len() > 0,
        };
        quotes.push(Statement::Acquire { mutable, var: manager_var_name.clone(), manager: manager_param_name });
        let emitter = self.type_of == InstanceType::Emitter;
        assert(statement_views(quotes@) =~= seq![quotes@[0]@]);
        push_fetches(&mut quotes, &self.mut_calls, &manager_var_name, true, emitter);
        push_fetches(&mut quotes, &self.ref_calls, &manager_var_name, false, emitter);
        quotes
    }
}


/// The first generic argument of a parameter's type wrapper.
#[derive(Clone, Debug)]
pub enum GenericFirst {
    /// The angle brackets are empty.
    Empty,
    /// The first argument is not a type.
    NotType,
    /// The first argument is this type, rendered.
    Type(String),
}

/// The shape of a system function parameter's type, as far as the
/// attribute reads it.
#[derive(Clone, Debug)]
pub enum ParamType {
    /// Not a path type.
    Other,
    /// A path without segments.
    NoSegment,
    /// The first segment, without generic arguments: the wrapper's name.
    Plain(String),
    /// The first segment, with arguments not in angle brackets.
    Parenthesized(String),
    /// The first segment, with angle-bracketed arguments.
    Generic { wrapper: String, first: GenericFirst },
}

/// A parameter of a system function.
#[derive(Clone, Debug)]
pub enum SystemInput {
    /// A `self` receiver.
    Receiver,
    /// A typed parameter: its name when its pattern is a plain
    /// identifier, and its type.
    Typed { name: Option<String>, ty: ParamType },
}

/// The instance kind and manager access a wrapper without generic
/// arguments stands for (no access: the manager parameter's name).
pub open spec fn plain_wrapper(w: Seq<char>) -> Option<(InstanceType, Option<SystemParam>)> {
    if w == "Emitters"@ {
        Some((InstanceType::Emitter, None))
    } else if w == "EmittersMut"@ {
        Some((InstanceType::Emitter, Some(SystemParam::ManagerMut)))
    } else if w == "EmittersRef"@ {
        Some((InstanceType::Emitter, Some(SystemParam::ManagerRef)))
    } else if w == "Resources"@ {
        Some((InstanceType::Resource, None))
    } else if w == "ResourcesMut"@ {
        Some((InstanceType::Resource, Some(SystemParam::ManagerMut)))
    } else if w == "ResourcesRef"@ {
        Some((InstanceType::Resource, Some(SystemParam::ManagerRef)))
    } else if w == "States"@ {
        Some((InstanceType::State, None))
    } else if w == "StatesMut"@ {
        Some((InstanceType::State, Some(SystemParam::ManagerMut)))
    } else if w == "StatesRef"@ {
        Some((InstanceType::State, Some(SystemParam::ManagerRef)))
    } else {
        None
    }
}

/// The instance kind, and whether mutably, a generic wrapper fetches.
pub open spec fn generic_wrapper(w: Seq<char>) -> Option<(InstanceType, bool)> {
    if w == "EmitterMut"@ {
        Some((InstanceType::Emitter, true))
    } else if w == "EmitterRef"@ {
        Some((InstanceType::Emitter, false))
    } else if w == "ResourceMut"@ {
        Some((InstanceType::Resource, true))
    } else if w == "ResourceRef"@ {
        Some((InstanceType::Resource, false))
    } else if w == "StateMut"@ {
        Some((InstanceType::State, true))
    } else if w == "StateRef"@ {
        Some((InstanceType::State, false))
    } else {
        None
    }
}

fn classify_plain(w: &str) -> (r: Option<(InstanceType, Option<SystemParam>)>)
    ensures
        r == plain_wrapper(w@),
{
    if str_eq(w, "Emitters") {
        Some((InstanceType::Emitter, None))
    } else if str_eq(w, "EmittersMut") {
        Some((InstanceType::Emitter, Some(SystemParam::ManagerMut)))
    } else if str_eq(w, "EmittersRef") {
        Some((InstanceType::Emitter, Some(SystemParam::ManagerRef)))
    } else if str_eq(w, "Resources") {
        Some((InstanceType::Resource, None))
    } else if str_eq(w, "ResourcesMut") {
        Some((InstanceType::Resource, Some(SystemParam::ManagerMut)))
    } else if str_eq(w, "ResourcesRef") {
        Some((InstanceType::Resource, Some(SystemParam::ManagerRef)))
    } else if str_eq(w, "States") {
        Some((InstanceType::State, None))
    } else if str_eq(w, "StatesMut") {
        Some((InstanceType::State, Some(SystemParam::ManagerMut)))
    } else if str_eq(w, "StatesRef") {
        Some((InstanceType::State, Some(SystemParam::ManagerRef)))
    } else {
        None
    }
}

fn classify_generic(w: &str) -> (r: Option<(InstanceType, bool)>)
    ensures
        r == generic_wrapper(w@),
{
    if str_eq(w, "EmitterMut") {
        Some((InstanceType::Emitter, true))
    } else if str_eq(w, "EmitterRef") {
        Some((InstanceType::Emitter, false))
    } else if str_eq(w, "ResourceMut") {
        Some((InstanceType::Resource, true))
    } else if str_eq(w, "ResourceRef") {
        Some((InstanceType::Resource, false))
    } else if str_eq(w, "StateMut") {
        Some((InstanceType::State, true))
    } else if str_eq(w, "StateRef") {
        Some((InstanceType::State, false))
    } else {
        None
    }
}

/// The trackers of the three instance kinds of one system function.
#[derive(Clone, Debug)]
pub struct SystemTrackers {
    pub states: InstanceTracker,
    pub resources: InstanceTracker,
    pub emitters: InstanceTracker,
}

/// The mathematical view of [`SystemTrackers`].
pub struct TrackersView {
    pub states: TrackerView,
    pub resources: TrackerView,
    pub emitters: TrackerView,
}

impl View for SystemTrackers {
    type V = TrackersView;

    open spec fn view(&self) -> TrackersView {
        TrackersView { states: self.states@, resources: self.resources@, emitters: self.emitters@ }
    }
}

/// The tracker of an instance kind.
pub open spec fn tracker_of(t: TrackersView, kind: InstanceType) -> TrackerView {
    match kind {
        InstanceType::State => t.states,
        InstanceType::Resource => t.resources,
        InstanceType::Emitter => t.emitters,
    }
}

/// The trackers with that of an instance kind replaced.
pub open spec fn with_tracker(t: TrackersView, kind: InstanceType, u: TrackerView) -> TrackersView {
    match kind {
        InstanceType::State => TrackersView { states: u, ..t },
        InstanceType::Resource => TrackersView { resources: u, ..t },
        InstanceType::Emitter => TrackersView { emitters: u, ..t },
    }
}

/// The view of a parameter type shape.
pub enum ParamTypeView {
    Other,
    NoSegment,
    Plain(Seq<char>),
    Parenthesized(Seq<char>),
    Generic { wrapper: Seq<char>, first: Option<Option<Seq<char>>> },
}

/// The view of a parameter type shape: for generic arguments, `None`
/// when there are none, `Some(None)` when the first is no type.
pub open spec fn param_type_view(t: ParamType) -> ParamTypeView {
    match t {
        ParamType::Other => ParamTypeView::Other,
        ParamType::NoSegment => ParamTypeView::NoSegment,
        ParamType::Plain(w) => ParamTypeView::Plain(w@),
        ParamType::Parenthesized(w) => ParamTypeView::Parenthesized(w@),
        ParamType::Generic { wrapper, first } => ParamTypeView::Generic {
            wrapper: wrapper@,
            first: match first {
                GenericFirst::Empty => None,
                GenericFirst::NotType => Some(None),
                GenericFirst::Type(t) => Some(Some(t@)),
            },
        },
    }
}

/// The message for an unknown wrapper.
pub open spec fn unknown_type_message(wrapper: Seq<char>, var: Seq<char>) -> Seq<char> {
    "Unknown parameter type "@ + wrapper + " for "@ + var + "."@
}

/// The message for a wrapper whose generic type is missing.
pub open spec fn generic_required_message(wrapper: Seq<char>) -> Seq<char> {
    "Required a generic parameter type for "@ + wrapper + "."@
}

/// A parameter of a system function, as read: its name when its pattern
/// is a plain identifier, and the shape of its type.
pub enum SystemInputView {
    Receiver,
    Typed { name: Option<Seq<char>>, ty: ParamTypeView },
}

/// The view of a parameter.
pub open spec fn input_view(input: SystemInput) -> SystemInputView {
    match input {
        SystemInput::Receiver => SystemInputView::Receiver,
        SystemInput::Typed { name, ty } => SystemInputView::Typed {
            name: match name {
                Some(n) => Some(n@),
                None => None,
            },
            ty: param_type_view(ty),
        },
    }
}

/// The views of parameters.
pub open spec fn input_views(inputs: Seq<SystemInput>) -> Seq<SystemInputView> {
    inputs.map_values(|i: SystemInput| input_view(i))
}

/// What a parameter named `var` whose type is the wrapper `w` without
/// generic arguments (or with empty angle brackets, which count as none)
/// does to the trackers.
pub open spec fn plain_effect(t: TrackersView, w: Seq<char>, var: Seq<char>) -> Result<TrackersView, Seq<char>> {
    match plain_wrapper(w) {
        Some((kind, None)) => Ok(
            with_tracker(
                t,
                kind,
                TrackerView { param_name: Some(var), ..tracker_of(t, kind) },
            ),
        ),
        Some((kind, Some(p))) => match manager_set(tracker_of(t, kind), var, p) {
            Ok(u) => Ok(with_tracker(t, kind, u)),
            Err(m) => Err(m),
        },
        None => Err(unknown_type_message(w, var)),
    }
}

/// What one parameter, as read, does to the trackers, or the message the
/// attribute aborts with.
pub open spec fn view_effect(t: TrackersView, input: SystemInputView) -> Result<TrackersView, Seq<char>> {
    match input {
        SystemInputView::Receiver => Err("&self not permitted in system functions."@),
        SystemInputView::Typed { name, ty } => match name {
            None => Err("Unsupported parameter identifier pattern."@),
            Some(var) => match ty {
                ParamTypeView::Other => Err("Unsupported parameter type for "@ + var + "."@),
                ParamTypeView::NoSegment => Err("Required a parameter type for "@ + var + "."@),
                ParamTypeView::Plain(w) => plain_effect(t, w, var),
                ParamTypeView::Parenthesized(w) => Err(generic_required_message(w)),
                ParamTypeView::Generic { wrapper, first } => match first {
                    None => plain_effect(t, wrapper, var),
                    Some(None) => Err(generic_required_message(wrapper)),
                    Some(Some(inner)) => match generic_wrapper(wrapper) {
                        Some((kind, mutable)) => match call_added(tracker_of(t, kind), var, inner, mutable) {
                            Ok(u) => Ok(with_tracker(t, kind, u)),
                            Err(m) => Err(m),
                        },
                        None => Err(unknown_type_message(wrapper, var)),
                    },
                },
            },
        },
    }
}

/// What one parameter does to the trackers, or the message the attribute
/// aborts with.
pub open spec fn input_effect(t: TrackersView, input: SystemInput) -> Result<TrackersView, Seq<char>> {
    view_effect(t, input_view(input))
}

/// The trackers before any parameter is read.
pub open spec fn initial_trackers() -> TrackersView {
    TrackersView {
        states: TrackerView {
            param_name: None,
            acquire_as: None,
            manager_call: None,
            mut_calls: Seq::empty(),
            ref_calls: Seq::empty(),
            type_of: InstanceType::State,
        },
        resources: TrackerView {
            param_name: None,
            acquire_as: None,
            manager_call: None,
            mut_calls: Seq::empty(),
            ref_calls: Seq::empty(),
            type_of: InstanceType::Resource,
        },
        emitters: TrackerView {
            param_name: None,
            acquire_as: None,
            manager_call: None,
            mut_calls: Seq::empty(),
            ref_calls: Seq::empty(),
            type_of: InstanceType::Emitter,
        },
    }
}

/// The trackers after reading the parameters in order, or the message of
/// the first one the attribute aborts on.
pub open spec fn trackers_after(inputs: Seq<SystemInput>) -> Result<TrackersView, Seq<char>>
    decreases inputs.len(),
{
    if inputs.len() == 0 {
        Ok(initial_trackers())
    } else {
        match trackers_after(inputs.drop_last()) {
            Ok(t) => input_effect(t, inputs.last()),
            Err(m) => Err(m),
        }
    }
}

/// The trackers after reading the parameters, as read, in order, or the
/// message of the first one the attribute refuses.
pub open spec fn view_trackers(inputs: Seq<SystemInputView>) -> Result<TrackersView, Seq<char>>
    decreases inputs.len(),
{
    if inputs.len() == 0 {
        Ok(initial_trackers())
    } else {
        match view_trackers(inputs.drop_last()) {
            Ok(t) => view_effect(t, inputs.last()),
            Err(m) => Err(m),
        }
    }
}

/// The trackers depend on the parameters only as read.
pub proof fn lemma_trackers_by_view(inputs: Seq<SystemInput>)
    ensures
        trackers_after(inputs) == view_trackers(input_views(inputs)),
    decreases inputs.len(),
{
    if inputs.len() > 0 {
        lemma_trackers_by_view(inputs.drop_last());
        assert(input_views(inputs.drop_last()) =~= input_views(inputs).drop_last());
    }
}

fn push_text(s: &mut String, piece: &str)
    ensures
        final(s)@ == old(s)@ + piece@,
{
    s.append(piece);
}

fn message3(a: &str, b: &str, c: &str) -> (r: String)
    ensures
        r@ == a@ + b@ + c@,
{
    let mut r = String::new();
    push_text(&mut r, a);
    push_text(&mut r, b);
    push_text(&mut r, c);
    assert(r@ =~= a@ + b@ + c@);
    r
}

impl SystemTrackers {
    /// Trackers that nothing has been asked of.
    pub fn new() -> (r: SystemTrackers)
        ensures
            r@ == initial_trackers(),
    {
        SystemTrackers {
            states: InstanceTracker::new(InstanceType::State),
            resources: InstanceTracker::new(InstanceType::Resource),
            emitters: InstanceTracker::new(InstanceType::Emitter),
        }
    }

    /// Read a parameter whose type is a wrapper without generic arguments.
    fn read_plain(&mut self, w: &str, var: &str) -> (r: Result<(), String>)
        requires
            old(self).states.type_of == InstanceType::State,
            old(self).resources.type_of == InstanceType::Resource,
            old(self).emitters.type_of == InstanceType::Emitter,
        ensures
            plain_effect(old(self)@, w@, var@) matches Ok(t) ==> r is Ok && final(self)@ == t,
            plain_effect(old(self)@, w@, var@) matches Err(m) ==> r matches Err(e) && e@ == m,
            final(self).states.type_of == InstanceType::State,
            final(self).resources.type_of == InstanceType::Resource,
            final(self).emitters.type_of == InstanceType::Emitter,
    {
        match classify_plain(w) {
            Some((kind, None)) => {
                match kind {
                    InstanceType::State => self.states.set_param(var),
                    InstanceType::Resource => self.resources.set_param(var),
                    InstanceType::Emitter => self.emitters.set_param(var),
                }
                Ok(())
            },
            Some((kind, Some(p))) => match kind {
                InstanceType::State => self.states.set_manager(var, p),
                InstanceType::Resource => self.resources.set_manager(var, p),
                InstanceType::Emitter => self.emitters.set_manager(var, p),
            },
            None => {
                let mut m = message3("Unknown parameter type ", w, " for ");
                push_text(&mut m, var);
                push_text(&mut m, ".");
                assert(m@ =~= unknown_type_message(w@, var@));
                Err(m)
            },
        }
    }

    /// Read one parameter of the system function. A parameter the
    /// attribute refuses is answered with the message it aborts with.
    pub fn read_input(&mut self, input: &SystemInput) -> (r: Result<(), String>)
        requires
            old(self).states.type_of == InstanceType::State,
            old(self).resources.type_of == InstanceType::Resource,
            old(self).emitters.type_of == InstanceType::Emitter,
        ensures
            input_effect(old(self)@, *input) matches Ok(t) ==> r is Ok && final(self)@ == t,
            input_effect(old(self)@, *input) matches Err(m) ==> r matches Err(e) && e@ == m,
            final(self).states.type_of == InstanceType::State,
            final(self).resources.type_of == InstanceType::Resource,
            final(self).emitters.type_of == InstanceType::Emitter,
    {
        match input {
            SystemInput::Receiver => Err("&self not permitted in system functions.".to_owned()),
            SystemInput::Typed { name, ty } => match name {
                None => Err("Unsupported parameter identifier pattern.".to_owned()),
                Some(var) => match ty {
                    ParamType::Other => Err(message3("Unsupported parameter type for ", var.as_str(), ".")),
                    ParamType::NoSegment => Err(message3("Required a parameter type for ", var.as_str(), ".")),
                    ParamType::Plain(w) => self.read_plain(w.as_str(), var.as_str()),
                    ParamType::Parenthesized(w) => Err(
                        message3("Required a generic parameter type for ", w.as_str(), "."),
                    ),
                    ParamType::Generic { wrapper, first } => match first {
                        GenericFirst::Empty => self.read_plain(wrapper.as_str(), var.as_str()),
                        GenericFirst::NotType => Err(
                            message3("Required a generic parameter type for ", wrapper.as_str(), "."),
                        ),
                        GenericFirst::Type(inner) => match classify_generic(wrapper.as_str()) {
                            Some((kind, mutable)) => {
                                let param = if mutable {
                                    SystemParam::ParamMut(inner.clone())
                                } else {
                                    SystemParam::ParamRef(inner.clone())
                                };
                                match kind {
                                    InstanceType::State => self.states.add_call(var.as_str(), param),
                                    InstanceType::Resource => self.resources.add_call(var.as_str(), param),
                                    InstanceType::Emitter => self.emitters.add_call(var.as_str(), param),
                                }
                            },
                            None => {
                                let mut m = message3("Unknown parameter type ", wrapper.as_str(), " for ");
                                push_text(&mut m, var.as_str());
                                push_text(&mut m, ".");
                                assert(m@ =~= unknown_type_message(wrapper@, var@));
                                Err(m)
                            },
                        },
                    },
                },
            },
        }
    }
}


proof fn lemma_abort_persists(inputs: Seq<SystemInput>, k: int)
    requires
        0 <= k <= inputs.len(),
        trackers_after(inputs.take(k)) is Err,
    ensures
        trackers_after(inputs) == trackers_after(inputs.take(k)),
    decreases inputs.len() - k,
{
    if k == inputs.len() {
        assert(inputs.take(k) =~= inputs);
    } else {
        assert(inputs.drop_last().take(k) =~= inputs.take(k));
        lemma_abort_persists(inputs.drop_last(), k);
    }
}

/// What the `#[system]` attribute generates around a function body: the
/// names of the three manager parameters, and the statements acquiring
/// states, then resources, then emitters.
#[derive(Clone, Debug)]
pub struct SystemPlan {
    pub state_param: String,
    pub state_quotes: Vec<Statement>,
    pub resource_param: String,
    pub resource_quotes: Vec<Statement>,
    pub emitter_param: String,
    pub emitter_quotes: Vec<Statement>,
}

/// The plan `p` is what the trackers `t` ask for.
pub open spec fn plan_matches(p: SystemPlan, t: TrackersView) -> bool {
    &&& p.state_param@ == manager_param(t.states)
    &&& statement_views(p.state_quotes@) == quotes_of(t.states)
    &&& p.resource_param@ == manager_param(t.resources)
    &&& statement_views(p.resource_quotes@) == quotes_of(t.resources)
    &&& p.emitter_param@ == manager_param(t.emitters)
    &&& statement_views(p.emitter_quotes@) == quotes_of(t.emitters)
}

/// Plan a system function from its parameters, in order: the message the
/// attribute aborts with for the first parameter it refuses, else the
/// manager parameters and acquiring statements.
pub fn plan_system(inputs: &Vec<SystemInput>) -> (r: Result<SystemPlan, String>)
    ensures
        trackers_after(inputs@) matches Err(m) ==> r matches Err(e) && e@ == m,
        trackers_after(inputs@) matches Ok(t) ==> r matches Ok(p) && plan_matches(p, t),
{
    let mut trackers = SystemTrackers::new();
    let mut i: usize = 0;
    assert(inputs@.take(0) =~= Seq::<SystemInput>::empty());
    while i < inputs.len()
        invariant
            i <= inputs@.len(),
            trackers_after(inputs@.take(i as int)) == Ok::<TrackersView, Seq<char>>(trackers@),
            trackers.states.type_of == InstanceType::State,
            trackers.resources.type_of == InstanceType::Resource,
            trackers.emitters.type_of == InstanceType::Emitter,
        decreases inputs@.len() - i,
    {
        assert(inputs@.take(i + 1).drop_last() =~= inputs@.take(i as int));
        assert(inputs@.take(i + 1).last() == inputs@[i as int]);
        match trackers.read_input(&inputs[i]) {
            Ok(()) => {},
            Err(e) => {
                proof {
                    lemma_abort_persists(inputs@, i + 1);
                }
                return Err(e);
            },
        }
        i = i + 1;
    }
    assert(inputs@.take(inputs@.len() as int) =~= inputs@);
    Ok(
        SystemPlan {
            state_param: trackers.states.generate_param_name(),
            state_quotes: trackers.states.generate_quotes(),
            resource_param: trackers.resources.generate_param_name(),
            resource_quotes: trackers.resources.generate_quotes(),
            emitter_param: trackers.emitters.generate_param_name(),
            emitter_quotes: trackers.emitters.generate_quotes(),
        },
    )
}

/// The arguments of the `#[system]` attribute.
#[derive(Clone, Debug)]
pub struct SystemArgs {
    /// Wrap the function in a tracing span; on unless set otherwise.
    pub instrument: Option<bool>,
}

impl Default for SystemArgs {
    fn default() -> (r: SystemArgs)
        ensures
            r.instrument == Some(true),
    {
        SystemArgs { instrument: Some(true) }
    }
}

impl SystemArgs {
    /// Whether the generated function is instrumented: only with tracing
    /// built in, and when the attribute asks for it.
    pub fn instruments(&self, tracing_enabled: bool) -> (r: bool)
        ensures
            r == (tracing_enabled && self.instrument == Some(true)),
    {
        tracing_enabled && match self.instrument {
            Some(v) => v,
            None => false,
        }
    }
}

/// A function never fetches two instances of one kind mutably, nor
/// mutable and immutable instances of one kind: whatever the parameters,
/// every tracker a plan is made from obeys this.
pub proof fn law_plan_respects_access_rules(inputs: Seq<SystemInput>)
    requires
        trackers_after(inputs) is Ok,
    ensures
        ({
            let t = trackers_after(inputs)->Ok_0;
            &&& access_rules_hold(t.states)
            &&& access_rules_hold(t.resources)
            &&& access_rules_hold(t.emitters)
        }),
    decreases inputs.len(),
{
    if inputs.len() > 0 {
        law_plan_respects_access_rules(inputs.drop_last());
        let t = trackers_after(inputs.drop_last())->Ok_0;
        lemma_effect_keeps_rules(t, inputs.last());
    }
}

/// At most one instance is fetched mutably, and mutable and immutable
/// fetches don't mix.
pub open spec fn access_rules_hold(t: TrackerView) -> bool {
    &&& t.mut_calls.len() <= 1
    &&& !(t.mut_calls.len() > 0 && t.ref_calls.len() > 0)
}

proof fn lemma_effect_keeps_rules(t: TrackersView, input: SystemInput)
    requires
        access_rules_hold(t.states),
        access_rules_hold(t.resources),
        access_rules_hold(t.emitters),
        input_effect(t, input) is Ok,
    ensures
        ({
            let u = input_effect(t, input)->Ok_0;
            &&& access_rules_hold(u.states)
            &&& access_rules_hold(u.resources)
            &&& access_rules_hold(u.emitters)
        }),
{
}

/// The statements planned for a tracker: an acquire first, then one
/// fetch per mutable call, mutable, in order, then one per immutable call,
/// immutable, in order; every fetch goes through the acquired variable,
/// and fetches an emitter exactly when the tracker is for emitters.
pub proof fn law_fetches_follow_calls(t: TrackerView)
    requires
        t.manager_call is Some || t.mut_calls.len() > 0 || t.ref_calls.len() > 0,
    ensures
        quotes_of(t).len() == 1 + t.mut_calls.len() + t.ref_calls.len(),
        quotes_of(t)[0] is Acquire,
        forall|k: int|
            0 <= k < t.mut_calls.len() ==> (quotes_of(t)[1 + k] matches StatementView::Fetch {
                name,
                ty,
                mutable,
                emitter,
                ..
            } && name == (#[trigger] t.mut_calls[k]).0 && ty == t.mut_calls[k].1 && mutable && emitter == (t.type_of
                == InstanceType::Emitter)),
        forall|k: int|
            0 <= k < t.ref_calls.len() ==> (quotes_of(t)[1 + t.mut_calls.len() + k] matches StatementView::Fetch {
                name,
                ty,
                mutable,
                emitter,
                ..
            } && name == (#[trigger] t.ref_calls[k]).0 && ty == t.ref_calls[k].1 && !mutable && emitter == (t.type_of
                == InstanceType::Emitter)),
        forall|i: int|
            0 <= i < quotes_of(t).len() ==> (#[trigger] quotes_of(t)[i] matches StatementView::Fetch { emitter, .. }
                ==> emitter == (t.type_of == InstanceType::Emitter)),
{
    let q = quotes_of(t);
    let m = t.mut_calls.len() as int;
    assert forall|i: int| 0 <= i < q.len() implies (#[trigger] q[i] matches StatementView::Fetch { emitter, .. }
        ==> emitter == (t.type_of == InstanceType::Emitter)) by {
        if 1 <= i < 1 + m {
            assert(q[i] == fetches(t.mut_calls, q[0]->Acquire_var, true, t.type_of == InstanceType::Emitter)[i - 1]);
        } else if i >= 1 + m {
            assert(q[i] == fetches(t.ref_calls, q[0]->Acquire_var, false, t.type_of == InstanceType::Emitter)[i - 1 - m]);
        }
    }
}

} // verus!
