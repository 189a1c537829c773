//! A request and its answer, step by step: what to ask of the host next, and what to reply.
use crate::calls::{args_from_body, results_to_text};
use crate::listing::{list_components, list_exports, Export, ExportView};
use crate::text::{concat2, split_first_slash, split_last_slash, trim_leading_slashes};
use crate::values::{Output, OutputView, Type, TypeView, Val, ValView};
use vstd::prelude::*;
use vstd::string::StringExecFns;

verus! {

/// The method of a request.
#[derive(Debug, PartialEq)]
pub enum Method {
    Get,
    Post,
    /// Any other, by its name.
    Other(String),
}

/// What a method is.
pub enum MethodView {
    Get,
    Post,
    Other(Seq<char>),
}

impl Method {
    pub open spec fn view(&self) -> MethodView {
        match self {
            Method::Get => MethodView::Get,
            Method::Post => MethodView::Post,
            Method::Other(name) => MethodView::Other(name@),
        }
    }
}

/// What a component has under the name of a function.
#[derive(Debug, PartialEq)]
pub enum Item {
    /// A function, by the types of its parameters and of its results.
    Func(Vec<Type>, Vec<Type>),
    /// Anything else, as an error message shows it.
    Other(String),
}

/// What an item is.
pub enum ItemView {
    Func(Seq<TypeView>, Seq<TypeView>),
    Other(Seq<char>),
}

impl Item {
    pub open spec fn view(&self) -> ItemView {
        match self {
            Item::Func(params, results) => ItemView::Func(
                crate::values::types_view(params@),
                crate::values::types_view(results@),
            ),
            Item::Other(shown) => ItemView::Other(shown@),
        }
    }
}

/// How a call went.
#[derive(Debug, PartialEq)]
pub enum Outcome {
    /// The host failed, with this message.
    Failed(String),
    /// The instance does not have the function.
    Missing,
    /// The function returned.
    Returned(Vec<Output>),
}

/// What an outcome is.
pub enum OutcomeView {
    Failed(Seq<char>),
    Missing,
    Returned(Seq<OutputView>),
}

impl Outcome {
    pub open spec fn view(&self) -> OutcomeView {
        match self {
            Outcome::Failed(message) => OutcomeView::Failed(message@),
            Outcome::Missing => OutcomeView::Missing,
            Outcome::Returned(results) => OutcomeView::Returned(
                crate::values::outputs_view(results@),
            ),
        }
    }
}

/// A component to find.
#[derive(Debug, PartialEq)]
pub struct ComponentLookup {
    /// The id of the component.
    pub id: String,
    /// The path of an export, if the request has one.
    pub export: Option<String>,
    /// Whether the request is a query.
    pub query: bool,
}

/// An instance to find among the exports of a component.
#[derive(Debug, PartialEq)]
pub struct InstanceLookup {
    pub id: String,
    pub interface: String,
    pub func: String,
}

/// A function to find, among the exports of a component or of an instance that it exports.
#[derive(Debug, PartialEq)]
pub struct FuncLookup {
    pub id: String,
    pub interface: Option<String>,
    pub func: String,
}

/// A function of a component that waits for its arguments.
#[derive(Debug, PartialEq)]
pub struct Signature {
    pub id: String,
    pub params: Vec<Type>,
    pub results: Vec<Type>,
}

/// What is known of a call while it runs.
#[derive(Debug, PartialEq)]
pub struct PendingCall {
    pub id: String,
    pub results: Vec<Type>,
}

/// What to do next for a request.
#[derive(Debug, PartialEq)]
pub enum Step {
    /// Answer the request with this text.
    Reply(String),
    /// Collect the ids of the components of the trigger.
    ListComponents,
    /// Find a component.
    FindComponent(ComponentLookup),
    /// Collect the exports of the component with this id.
    ListExports(String),
    /// Find an instance.
    FindInstance(InstanceLookup),
    /// Find a function.
    FindFunc(FuncLookup),
    /// Read the body of the request.
    ReadBody(Signature),
    /// Call the function with these arguments.
    Call(Vec<Val>, PendingCall),
}

/// What a step is.
pub enum StepView {
    Reply(Seq<char>),
    ListComponents,
    FindComponent { id: Seq<char>, export: Option<Seq<char>>, query: bool },
    ListExports { id: Seq<char> },
    FindInstance { id: Seq<char>, interface: Seq<char>, func: Seq<char> },
    FindFunc { id: Seq<char>, within: Option<Seq<char>>, func: Seq<char> },
    ReadBody { id: Seq<char>, params: Seq<TypeView>, results: Seq<TypeView> },
    Call { id: Seq<char>, args: Seq<ValView>, results: Seq<TypeView> },
}

/// What an optional text is.
pub open spec fn optional_text(text: Option<String>) -> Option<Seq<char>> {
    match text {
        Some(text) => Some(text@),
        None => None,
    }
}

impl Step {
    pub open spec fn view(&self) -> StepView {
        match self {
            Step::Reply(text) => StepView::Reply(text@),
            Step::ListComponents => StepView::ListComponents,
            Step::FindComponent(lookup) => StepView::FindComponent {
                id: lookup.id@,
                export: optional_text(lookup.export),
                query: lookup.query,
            },
            Step::ListExports(id) => StepView::ListExports { id: id@ },
            Step::FindInstance(lookup) => StepView::FindInstance {
                id: lookup.id@,
                interface: lookup.interface@,
                func: lookup.func@,
            },
            Step::FindFunc(lookup) => StepView::FindFunc {
                id: lookup.id@,
                within: optional_text(lookup.interface),
                func: lookup.func@,
            },
            Step::ReadBody(signature) => StepView::ReadBody {
                id: signature.id@,
                params: crate::values::types_view(signature.params@),
                results: crate::values::types_view(signature.results@),
            },
            Step::Call(args, pending) => StepView::Call {
                id: pending.id@,
                args: crate::values::vals_view(args@),
                results: crate::values::types_view(pending.results@),
            },
        }
    }
}

/// The id of a component and the path of an export that a path without leading slashes names.
pub open spec fn named_by(path: Seq<char>) -> (Seq<char>, Option<Seq<char>>) {
    match crate::text::cut_first_slash(path) {
        Some((id, rest)) => (
            id,
            if rest.len() == 0 {
                None
            } else {
                Some(rest)
            },
        ),
        None => (path, None),
    }
}

/// The first step for a request: a query without a component asks for the list of components; a
/// method that is neither a query nor a call is refused.
pub open spec fn first_step(method: MethodView, path: Seq<char>) -> StepView {
    let (id, export) = named_by(crate::text::without_leading_slashes(path));
    match method {
        MethodView::Get => if id.len() == 0 {
            StepView::ListComponents
        } else {
            StepView::FindComponent { id, export, query: true }
        },
        MethodView::Post => StepView::FindComponent { id, export, query: false },
        MethodView::Other(name) => StepView::Reply("unsupported method "@ + name),
    }
}

/// The step after the ids of the components, or the message of an error, came in.
pub open spec fn after_components(ids: Result<Seq<Seq<char>>, Seq<char>>) -> StepView {
    match ids {
        Ok(ids) => StepView::Reply(crate::listing::components_text(ids)),
        Err(message) => StepView::Reply(message),
    }
}

/// The step after a component was looked up: a query without an export asks for the list of
/// exports, and with one is refused; a call without an export is refused.
pub open spec fn after_component(
    id: Seq<char>,
    export: Option<Seq<char>>,
    query: bool,
    found: Result<(), Seq<char>>,
) -> StepView {
    match found {
        Err(message) => StepView::Reply(message),
        Ok(_) => match export {
            None => if query {
                StepView::ListExports { id }
            } else {
                StepView::Reply("invalid path"@)
            },
            Some(export) => if query {
                StepView::Reply("must POST"@)
            } else {
                match crate::text::cut_last_slash(export) {
                    Some((interface, func)) => StepView::FindInstance { id, interface, func },
                    None => StepView::FindFunc { id, within: None, func: export },
                }
            },
        },
    }
}

/// The step after the exports of a component came in.
pub open spec fn after_exports(id: Seq<char>, exports: Seq<(Seq<char>, ExportView)>) -> StepView {
    StepView::Reply(crate::listing::exports_text(id, exports))
}

/// The step after an instance was looked up.
pub open spec fn after_instance(
    id: Seq<char>,
    interface: Seq<char>,
    func: Seq<char>,
    found: bool,
) -> StepView {
    if found {
        StepView::FindFunc { id, within: Some(interface), func }
    } else {
        StepView::Reply("instance not found"@)
    }
}

/// The step after a function was looked up.
pub open spec fn after_func(id: Seq<char>, item: Option<ItemView>) -> StepView {
    match item {
        None => StepView::Reply("func not found"@),
        Some(ItemView::Other(shown)) => StepView::Reply("unexpected export type "@ + shown),
        Some(ItemView::Func(params, results)) => StepView::ReadBody { id, params, results },
    }
}

/// The step after the body of the request, or the message of an error, came in.
pub open spec fn after_body(
    id: Seq<char>,
    params: Seq<TypeView>,
    results: Seq<TypeView>,
    body: Result<Seq<u8>, Seq<char>>,
) -> StepView {
    match body {
        Err(message) => StepView::Reply(message),
        Ok(body) => match crate::calls::body_args(params, body) {
            Ok(args) => StepView::Call { id, args, results },
            Err(message) => StepView::Reply(message),
        },
    }
}

/// The step after a call.
pub open spec fn after_call(results: Seq<TypeView>, outcome: OutcomeView) -> StepView {
    match outcome {
        OutcomeView::Failed(message) => StepView::Reply(message),
        OutcomeView::Missing => StepView::Reply("func instance not found"@),
        OutcomeView::Returned(vals) => match crate::calls::results_text(results, vals) {
            Ok(text) => StepView::Reply(text),
            Err(message) => StepView::Reply(message),
        },
    }
}

/// What came in, or the message of an error.
pub open spec fn found_outcome(found: Result<(), String>) -> Result<(), Seq<char>> {
    match found {
        Ok(_) => Ok(()),
        Err(message) => Err(message@),
    }
}

/// Bytes, or the message of an error.
pub open spec fn body_outcome(body: Result<Vec<u8>, String>) -> Result<Seq<u8>, Seq<char>> {
    match body {
        Ok(body) => Ok(body@),
        Err(message) => Err(message@),
    }
}

/// What an optional item is.
pub open spec fn optional_item(item: Option<Item>) -> Option<ItemView> {
    match item {
        Some(item) => Some(item@),
        None => None,
    }
}

/// A trigger that lets clients call the functions of components over HTTP.
#[derive(Debug, Clone, Copy, PartialEq, Eq)]
pub struct RemoteTrigger;

/// The type under which an application declares its remote triggers.
pub const TRIGGER_TYPE: &'static str = "remote";

impl RemoteTrigger {
    /// A trigger.
    pub fn new() -> (trigger: Self)
        ensures
            trigger == RemoteTrigger,
    {
        RemoteTrigger
    }

    /// The first step for a request.
    pub fn begin(&self, method: &Method, path: &str) -> (step: Step)
        ensures
            step@ == first_step(method@, path@),
    {
        let path = trim_leading_slashes(path);
        let query = match method {
            Method::Get => true,
            Method::Post => false,
            Method::Other(name) => {
                return Step::Reply(concat2("unsupported method ", name.as_str()));
            },
        };
        let (id, export) = match split_first_slash(path) {
            Some((id, rest)) => (
                id,
                if rest.is_empty() {
                    None
                } else {
                    Some(String::from_str(rest))
                },
            ),
            None => (path, None),
        };
        if id.is_empty() && query {
            return Step::ListComponents;
        }
        Step::FindComponent(ComponentLookup { id: String::from_str(id), export, query })
    }

    /// The step after the ids of the components came in.
    pub fn components(&self, ids: Result<Vec<String>, String>) -> (step: Step)
        ensures
            step@ == after_components(crate::decode::names_outcome(ids)),
    {
        match ids {
            Ok(ids) => Step::Reply(list_components(&ids)),
            Err(message) => Step::Reply(message),
        }
    }

    /// The step after the exports of the component with this id came in.
    pub fn exports(&self, id: &str, exports: &Vec<(String, Export)>) -> (step: Step)
        ensures
            step@ == after_exports(id@, crate::listing::exports_view(exports@)),
    {
        Step::Reply(list_exports(id, exports))
    }
}

impl ComponentLookup {
    /// The step after the component was looked up.
    pub fn found(self, found: Result<(), String>) -> (step: Step)
        ensures
            step@ == after_component(
                self.id@,
                optional_text(self.export),
                self.query,
                found_outcome(found),
            ),
    {
        if let Err(message) = found {
            return Step::Reply(message);
        }
        let ComponentLookup { id, export, query } = self;
        match export {
            None => {
                if query {
                    Step::ListExports(id)
                } else {
                    Step::Reply(String::from_str("invalid path"))
                }
            },
            Some(export) => {
                if query {
                    return Step::Reply(String::from_str("must POST"));
                }
                match split_last_slash(export.as_str()) {
                    Some((interface, func)) => Step::FindInstance(
                        InstanceLookup {
                            id,
                            interface: String::from_str(interface),
                            func: String::from_str(func),
                        },
                    ),
                    None => Step::FindFunc(
                        FuncLookup { id, interface: None, func: String::from_str(export.as_str()) },
                    ),
                }
            },
        }
    }
}

impl InstanceLookup {
    /// The step after the instance was looked up.
    pub fn found(self, found: bool) -> (step: Step)
        ensures
            step@ == after_instance(self.id@, self.interface@, self.func@, found),
    {
        if found {
            Step::FindFunc(
                FuncLookup { id: self.id, interface: Some(self.interface), func: self.func },
            )
        } else {
            Step::Reply(String::from_str("instance not found"))
        }
    }
}

impl FuncLookup {
    /// The step after the function was looked up.
    pub fn found(self, item: Option<Item>) -> (step: Step)
        ensures
            step@ == after_func(self.id@, optional_item(item)),
    {
        match item {
            None => Step::Reply(String::from_str("func not found")),
            Some(Item::Other(shown)) => Step::Reply(
                concat2("unexpected export type ", shown.as_str()),
            ),
            Some(Item::Func(params, results)) => Step::ReadBody(
                Signature { id: self.id, params, results },
            ),
        }
    }
}

impl Signature {
    /// The step after the body of the request came in.
    pub fn body(self, body: Result<Vec<u8>, String>) -> (step: Step)
        ensures
            step@ == after_body(
                self.id@,
                crate::values::types_view(self.params@),
                crate::values::types_view(self.results@),
                body_outcome(body),
            ),
    {
        match body {
            Err(message) => Step::Reply(message),
            Ok(body) => match args_from_body(&self.params, body) {
                Ok(args) => Step::Call(args, PendingCall { id: self.id, results: self.results }),
                Err(message) => Step::Reply(message),
            },
        }
    }
}

impl PendingCall {
    /// The step after the call.
    pub fn finished(self, outcome: Outcome) -> (step: Step)
        ensures
            step@ == after_call(crate::values::types_view(self.results@), outcome@),
    {
        match outcome {
            Outcome::Failed(message) => Step::Reply(message),
            Outcome::Missing => Step::Reply(String::from_str("func instance not found")),
            Outcome::Returned(vals) => match results_to_text(&self.results, vals) {
                Ok(text) => Step::Reply(text),
                Err(message) => Step::Reply(message),
            },
        }
    }
}

} // verus!
