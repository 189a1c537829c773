//! What holds of each step of an exchange: where a request leads, and what it is answered.
use crate::exchange::{ItemView, MethodView, OutcomeView, StepView};
use crate::json::JsonView;
use crate::listing::ExportView;
use crate::values::{OutputView, TypeView};
use vstd::prelude::*;

verus! {

/// What a path is without the slashes that it starts with.
proof fn lemma_trimmed(path: Seq<char>, n: int)
    requires
        0 <= n <= path.len(),
        forall|i: int| 0 <= i < n ==> path[i] == '/',
        n < path.len() ==> path[n] != '/',
    ensures
        crate::text::without_leading_slashes(path) == path.skip(n),
{
    crate::text_laws::law_leading_slashes_are_dropped(path);
    let rest = crate::text::without_leading_slashes(path);
    let k = path.len() - rest.len();
    if k > n {
        assert(path[n] == '/');
    } else if k < n {
        assert(rest[0] == path[k]);
    }
}

/// A path of slashes only names no component: a query lists the components, a call looks for the one
/// with an empty id, and any other method is refused.
pub proof fn law_paths_without_components(method: MethodView, path: Seq<char>)
    requires
        forall|i: int| 0 <= i < path.len() ==> path[i] == '/',
    ensures
        crate::exchange::first_step(method, path) == (match method {
            MethodView::Get => StepView::ListComponents,
            MethodView::Post => StepView::FindComponent {
                id: Seq::empty(),
                export: None,
                query: false,
            },
            MethodView::Other(name) => StepView::Reply("unsupported method "@ + name),
        }),
{
    lemma_trimmed(path, path.len() as int);
    assert(path.skip(path.len() as int) =~= Seq::empty());
    Seq::<char>::empty().index_of_first_ensures('/');
}

/// A path names a component by what stands before its first slash, those at its start not counted,
/// and an export by what follows that slash, if anything does; a query and a call look for the
/// component, and any other method is refused.
pub proof fn law_paths_name_components(
    method: MethodView,
    path: Seq<char>,
    n: int,
    id: Seq<char>,
    rest: Option<Seq<char>>,
)
    requires
        0 <= n <= path.len(),
        forall|i: int| 0 <= i < n ==> path[i] == '/',
        id.len() > 0,
        !id.contains('/'),
        path.skip(n) == (match rest {
            Some(rest) => id + seq!['/'] + rest,
            None => id,
        }),
    ensures
        crate::exchange::first_step(method, path) == ({
            let export = match rest {
                Some(rest) => if rest.len() == 0 {
                    None
                } else {
                    Some(rest)
                },
                None => None,
            };
            match method {
                MethodView::Get => StepView::FindComponent { id, export, query: true },
                MethodView::Post => StepView::FindComponent { id, export, query: false },
                MethodView::Other(name) => StepView::Reply("unsupported method "@ + name),
            }
        }),
{
    let named = path.skip(n);
    assert(named.len() >= id.len());
    assert(named[0] == id[0]);
    assert(id.contains(id[0]));
    assert(path[n] == id[0]);
    lemma_trimmed(path, n);
    match rest {
        Some(rest) => {
            crate::exchange_laws::lemma_cut_first(id, rest);
        },
        None => {
            id.index_of_first_ensures('/');
        },
    }
}

/// Where a component was not found, the request is answered the reason; where it was, a query without
/// an export lists its exports and with one is refused, and a call without an export is refused.
pub proof fn law_components_are_looked_up(
    id: Seq<char>,
    export: Option<Seq<char>>,
    query: bool,
    message: Seq<char>,
)
    ensures
        crate::exchange::after_component(id, export, query, Err(message)) == StepView::Reply(
            message,
        ),
        query && export is None ==> crate::exchange::after_component(id, export, query, Ok(()))
            == (StepView::ListExports { id }),
        query && export is Some ==> crate::exchange::after_component(id, export, query, Ok(()))
            == StepView::Reply("must POST"@),
        !query && export is None ==> crate::exchange::after_component(id, export, query, Ok(()))
            == StepView::Reply("invalid path"@),
{
}

/// A call of an export looks for the function that it names, in the instance that stands before its
/// last slash if it has one.
pub proof fn law_exports_are_looked_up(
    id: Seq<char>,
    interface: Option<Seq<char>>,
    func: Seq<char>,
)
    requires
        !func.contains('/'),
    ensures
        match interface {
            Some(interface) => {
                &&& crate::exchange::after_component(
                    id,
                    Some(interface + seq!['/'] + func),
                    false,
                    Ok(()),
                ) == (StepView::FindInstance { id, interface, func })
                &&& crate::exchange::after_instance(id, interface, func, true)
                    == (StepView::FindFunc { id, within: Some(interface), func })
                &&& crate::exchange::after_instance(id, interface, func, false)
                    == StepView::Reply("instance not found"@)
            },
            None => crate::exchange::after_component(id, Some(func), false, Ok(()))
                == (StepView::FindFunc { id, within: None, func }),
        },
{
    match interface {
        Some(interface) => {
            crate::exchange_laws::lemma_cut_last(interface, func);
        },
        None => {
            func.index_of_last_ensures('/');
        },
    }
}

/// A function that was found waits for the body of the request, with the types that it has; where
/// there is nothing under its name, or something else, the request is answered that.
pub proof fn law_functions_wait_for_a_body(
    id: Seq<char>,
    params: Seq<TypeView>,
    results: Seq<TypeView>,
    shown: Seq<char>,
)
    ensures
        crate::exchange::after_func(id, Some(ItemView::Func(params, results)))
            == (StepView::ReadBody { id, params, results }),
        crate::exchange::after_func(id, Some(ItemView::Other(shown))) == StepView::Reply(
            "unexpected export type "@ + shown,
        ),
        crate::exchange::after_func(id, None) == StepView::Reply("func not found"@),
{
}

/// A body that gives arguments for the parameters, however many, leads to the call of the function
/// with those arguments; a reply comes only where the body did not arrive or gives none, and is the
/// reason.
pub proof fn law_bodies_lead_to_calls(
    id: Seq<char>,
    params: Seq<TypeView>,
    results: Seq<TypeView>,
    body: Seq<u8>,
    message: Seq<char>,
)
    ensures
        crate::exchange::after_body(id, params, results, Err(message)) == StepView::Reply(message),
        match crate::calls::body_args(params, body) {
            Ok(args) => crate::exchange::after_body(id, params, results, Ok(body))
                == (StepView::Call { id, args, results }),
            Err(reason) => crate::exchange::after_body(id, params, results, Ok(body))
                == StepView::Reply(reason),
        },
{
}

/// A request whose body is an array with an item for each parameter, each of which reads, is followed
/// by the call with what the items read as; an empty body counts as an empty array.
pub proof fn law_arguments_are_handed_on(
    id: Seq<char>,
    params: Seq<TypeView>,
    results: Seq<TypeView>,
    body: Seq<u8>,
    values: Seq<JsonView>,
)
    requires
        crate::reading_laws::body_reads_as(body) == Ok::<JsonView, Seq<char>>(
            JsonView::Array(values),
        ),
        values.len() == params.len(),
        forall|i: int|
            0 <= i < values.len() ==> crate::decode::decode(params[i], #[trigger] values[i]) is Ok,
    ensures
        crate::exchange::after_body(id, params, results, Ok(body)) == (StepView::Call {
            id,
            args: Seq::new(
                values.len(),
                |i: int| crate::decode::decode(params[i], values[i])->Ok_0,
            ),
            results,
        }),
{
    crate::reading_laws::law_bodies_give_arguments(params, body, values);
}

/// A call that failed is answered the reason, and one whose function was not there is answered that.
pub proof fn law_failed_calls_are_answered(types: Seq<TypeView>, message: Seq<char>)
    ensures
        crate::exchange::after_call(types, OutcomeView::Failed(message)) == StepView::Reply(
            message,
        ),
        crate::exchange::after_call(types, OutcomeView::Missing) == StepView::Reply(
            "func instance not found"@,
        ),
{
}

/// A call that returned is answered the text of the array of what its results are written as, in
/// their order, where each of them can be written.
pub proof fn law_returned_calls_are_answered(
    types: Seq<TypeView>,
    results: Seq<OutputView>,
    n: int,
)
    requires
        n == types.len() && n <= results.len() || n == results.len() && n <= types.len(),
        forall|i: int|
            0 <= i < n ==> crate::encode::encode(types[i], #[trigger] results[i]) is Ok,
    ensures
        crate::exchange::after_call(types, OutcomeView::Returned(results)) == StepView::Reply(
            crate::document::pretty_text(
                Seq::new(
                    n as nat,
                    |i: int| crate::encode::encode(types[i], results[i])->Ok_0,
                ),
            ),
        ),
{
    crate::writing_laws::law_results_are_answered(types, results, n);
}

/// A call of which a result cannot be written is answered the reason for the first such result.
pub proof fn law_unwritten_results_are_answered(
    types: Seq<TypeView>,
    results: Seq<OutputView>,
    i: int,
)
    requires
        0 <= i < types.len(),
        i < results.len(),
        forall|j: int| 0 <= j < i ==> crate::encode::encode(types[j], #[trigger] results[j]) is Ok,
        crate::encode::encode(types[i], results[i]) is Err,
    ensures
        crate::exchange::after_call(types, OutcomeView::Returned(results)) == StepView::Reply(
            crate::encode::encode(types[i], results[i])->Err_0,
        ),
{
    crate::writing_laws::law_results_are_not_answered(types, results, i);
}

/// The line for each component.
pub open spec fn component_lines(ids: Seq<Seq<char>>) -> Seq<Seq<char>> {
    Seq::new(ids.len(), |i: int| "/"@ + ids[i] + "/<export>\n"@)
}

/// The list of components has a line for each of them, which names it, in their order, and nothing
/// else; it is what a query for them is answered, unless they could not be told.
pub proof fn law_components_are_listed(ids: Seq<Seq<char>>, message: Seq<char>)
    ensures
        crate::listing::components_text(ids) == component_lines(ids).flatten(),
        crate::exchange::after_components(Ok(ids)) == StepView::Reply(
            component_lines(ids).flatten(),
        ),
        crate::exchange::after_components(Err(message)) == StepView::Reply(message),
{
    lemma_component_lines(ids);
}

/// The list of components, line by line.
proof fn lemma_component_lines(ids: Seq<Seq<char>>)
    ensures
        crate::listing::components_text(ids) == component_lines(ids).flatten(),
    decreases ids.len(),
{
    if ids.len() > 0 {
        let shorter = component_lines(ids.drop_last());
        lemma_component_lines(ids.drop_last());
        shorter.lemma_flatten_push("/"@ + ids.last() + "/<export>\n"@);
        assert(component_lines(ids) =~= shorter.push("/"@ + ids.last() + "/<export>\n"@));
    }
}

/// The line for each member of an instance: none for what is no function.
pub open spec fn member_lines(
    id: Seq<char>,
    interface: Seq<char>,
    members: Seq<(Seq<char>, bool)>,
) -> Seq<Seq<char>> {
    Seq::new(
        members.len(),
        |i: int|
            if members[i].1 {
                "/"@ + id + "/"@ + interface + "/"@ + members[i].0 + "\n"@
            } else {
                Seq::empty()
            },
    )
}

/// The lines for each export: one for a function, those of its functions for an instance, and none
/// for anything else.
pub open spec fn export_lines(id: Seq<char>, exports: Seq<(Seq<char>, ExportView)>) -> Seq<
    Seq<char>,
> {
    Seq::new(
        exports.len(),
        |i: int|
            match exports[i].1 {
                ExportView::Func => "/"@ + id + "/"@ + exports[i].0 + "\n"@,
                ExportView::Instance(members) => member_lines(
                    id,
                    exports[i].0,
                    members,
                ).flatten(),
                ExportView::Other => Seq::empty(),
            },
    )
}

/// The list of the functions of an instance, line by line.
proof fn lemma_member_lines(
    id: Seq<char>,
    interface: Seq<char>,
    members: Seq<(Seq<char>, bool)>,
)
    ensures
        crate::listing::members_text(id, interface, members) == member_lines(
            id,
            interface,
            members,
        ).flatten(),
    decreases members.len(),
{
    if members.len() > 0 {
        let shorter = member_lines(id, interface, members.drop_last());
        let lines = member_lines(id, interface, members);
        lemma_member_lines(id, interface, members.drop_last());
        shorter.lemma_flatten_push(lines.last());
        assert(lines =~= shorter.push(lines.last()));
        assert(crate::listing::members_text(id, interface, members) =~= shorter.flatten()
            + lines.last());
    }
}

/// The list of exports, export by export.
proof fn lemma_export_lines(id: Seq<char>, exports: Seq<(Seq<char>, ExportView)>)
    ensures
        crate::listing::exports_text(id, exports) == export_lines(id, exports).flatten(),
    decreases exports.len(),
{
    if exports.len() > 0 {
        let shorter = export_lines(id, exports.drop_last());
        let lines = export_lines(id, exports);
        lemma_export_lines(id, exports.drop_last());
        match exports.last().1 {
            ExportView::Instance(members) => {
                lemma_member_lines(id, exports.last().0, members);
            },
            _ => {},
        }
        shorter.lemma_flatten_push(lines.last());
        assert(lines =~= shorter.push(lines.last()));
        assert(crate::listing::exports_text(id, exports) =~= shorter.flatten() + lines.last());
    }
}

/// A query for the exports of a component is answered a line for each function that it exports,
/// itself or in an instance, in their order, and nothing else.
pub proof fn law_exports_are_listed(id: Seq<char>, exports: Seq<(Seq<char>, ExportView)>)
    ensures
        crate::listing::exports_text(id, exports) == export_lines(id, exports).flatten(),
        crate::exchange::after_exports(id, exports) == StepView::Reply(
            export_lines(id, exports).flatten(),
        ),
{
    lemma_export_lines(id, exports);
}

} // verus!
