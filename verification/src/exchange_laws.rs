//! What holds of exchanges as a whole, whatever the host answers.
use crate::exchange::{ItemView, MethodView, OutcomeView, StepView};
use crate::listing::ExportView;
use crate::values::{OutputView, TypeView, ValView};
use vstd::prelude::*;

verus! {

/// Whether one step can come after another, for some answer of the host.
pub open spec fn follows(before: StepView, after: StepView) -> bool {
    match before {
        StepView::Reply(_) => false,
        StepView::ListComponents => exists|ids: Result<Seq<Seq<char>>, Seq<char>>|
            after == crate::exchange::after_components(ids),
        StepView::FindComponent { id, export, query } => exists|found: Result<(), Seq<char>>|
            after == crate::exchange::after_component(id, export, query, found),
        StepView::ListExports { id } => exists|exports: Seq<(Seq<char>, ExportView)>|
            after == crate::exchange::after_exports(id, exports),
        StepView::FindInstance { id, interface, func } => exists|found: bool|
            after == crate::exchange::after_instance(id, interface, func, found),
        StepView::FindFunc { id, within, func } => exists|item: Option<ItemView>|
            after == crate::exchange::after_func(id, item),
        StepView::ReadBody { id, params, results } => exists|body: Result<Seq<u8>, Seq<char>>|
            after == crate::exchange::after_body(id, params, results, body),
        StepView::Call { id, args, results } => exists|outcome: OutcomeView|
            after == crate::exchange::after_call(results, outcome),
    }
}

/// Whether steps are the beginning of an exchange: the first is that for the request, and each of
/// the others can come after the one before it.
pub open spec fn exchange(method: MethodView, path: Seq<char>, steps: Seq<StepView>) -> bool {
    &&& steps.len() > 0
    &&& steps[0] == crate::exchange::first_step(method, path)
    &&& forall|i: int|
        0 <= i < steps.len() - 1 ==> follows(#[trigger] steps[i], steps[i + 1])
}

/// How many steps can still come after a step.
pub open spec fn steps_left(step: StepView) -> nat {
    match step {
        StepView::Reply(_) => 0,
        StepView::ListComponents => 1,
        StepView::FindComponent { .. } => 5,
        StepView::ListExports { .. } => 1,
        StepView::FindInstance { .. } => 4,
        StepView::FindFunc { .. } => 3,
        StepView::ReadBody { .. } => 2,
        StepView::Call { .. } => 1,
    }
}

/// Whether a step only looks at what there is.
pub open spec fn only_looks(step: StepView) -> bool {
    match step {
        StepView::Reply(_) => true,
        StepView::ListComponents => true,
        StepView::FindComponent { query, .. } => query,
        StepView::ListExports { .. } => true,
        _ => false,
    }
}

/// Whether a step is about no other component than the one with this id.
pub open spec fn only_about(step: StepView, component: Seq<char>) -> bool {
    match step {
        StepView::Reply(_) => true,
        StepView::ListComponents => true,
        StepView::FindComponent { id, .. } => id == component,
        StepView::ListExports { id } => id == component,
        StepView::FindInstance { id, .. } => id == component,
        StepView::FindFunc { id, .. } => id == component,
        StepView::ReadBody { id, .. } => id == component,
        StepView::Call { id, .. } => id == component,
    }
}

/// An exchange has at most as many steps as a call of a function of an instance has, and only its
/// last can be a reply.
pub proof fn law_exchanges_end(method: MethodView, path: Seq<char>, steps: Seq<StepView>)
    requires
        exchange(method, path, steps),
    ensures
        steps.len() + steps_left(steps.last()) <= 6,
        forall|i: int| 0 <= i < steps.len() - 1 ==> !((#[trigger] steps[i]) is Reply),
    decreases steps.len(),
{
    if steps.len() > 1 {
        law_exchanges_end(method, path, steps.drop_last());
    }
}

/// A query only looks at what there is: it finds no function, reads no body and calls nothing.
pub proof fn law_queries_only_look(path: Seq<char>, steps: Seq<StepView>, i: int)
    requires
        exchange(MethodView::Get, path, steps),
        0 <= i < steps.len(),
    ensures
        only_looks(steps[i]),
    decreases i,
{
    if i > 0 {
        law_queries_only_look(path, steps, i - 1);
    }
}

/// A request with a method that is neither for queries nor for calls is answered at once, with a
/// message that names the method.
pub proof fn law_other_methods_are_refused(
    name: Seq<char>,
    path: Seq<char>,
    steps: Seq<StepView>,
)
    requires
        exchange(MethodView::Other(name), path, steps),
    ensures
        steps == seq![StepView::Reply("unsupported method "@ + name)],
{
    assert(steps =~= seq![StepView::Reply("unsupported method "@ + name)]);
}

/// An exchange is about no other component than the one that its path names.
pub proof fn law_exchanges_keep_to_a_component(
    method: MethodView,
    path: Seq<char>,
    steps: Seq<StepView>,
    i: int,
)
    requires
        exchange(method, path, steps),
        0 <= i < steps.len(),
    ensures
        only_about(
            steps[i],
            crate::exchange::named_by(crate::text::without_leading_slashes(path)).0,
        ),
    decreases i,
{
    if i > 0 {
        law_exchanges_keep_to_a_component(method, path, steps, i - 1);
    }
}

/// Whether a call is of the function whose body was to be read, with the arguments that this body
/// gives for its parameters.
pub open spec fn called_with_body(read: StepView, call: StepView, body: Seq<u8>) -> bool {
    match (read, call) {
        (
            StepView::ReadBody { id, params, results },
            StepView::Call { id: called, args, results: returned },
        ) => {
            &&& called == id
            &&& returned == results
            &&& crate::calls::body_args(params, body) == Ok::<Seq<ValView>, Seq<char>>(args)
        },
        _ => false,
    }
}

/// Whether a call is of the function whose body was to be read, with arguments that some body
/// gives, each of the type of its parameter.
pub open spec fn called_after(read: StepView, call: StepView) -> bool {
    &&& exists|body: Seq<u8>| called_with_body(read, call, body)
    &&& crate::laws::valid_types(read->params) ==> crate::laws::args_fit(read->params, call->args)
}

/// A call comes only after its function was found and the body of the request was read, and its
/// arguments are those that the body gives, each of the type of its parameter.
pub proof fn law_calls_are_typed(
    method: MethodView,
    path: Seq<char>,
    steps: Seq<StepView>,
    i: int,
)
    requires
        exchange(method, path, steps),
        0 <= i < steps.len(),
        steps[i] is Call,
    ensures
        i >= 2,
        steps[i - 2] is FindFunc,
        steps[i - 1] is ReadBody,
        called_after(steps[i - 1], steps[i]),
{
    let read = steps[i - 1];
    let call = steps[i];
    match read {
        StepView::ReadBody { id, params, results } => {
            let given = choose|body: Result<Seq<u8>, Seq<char>>|
                call == crate::exchange::after_body(id, params, results, body);
            assert(called_with_body(read, call, given->Ok_0));
            if crate::laws::valid_types(params) {
                crate::laws::law_arguments_fit(params, given->Ok_0);
            }
        },
        _ => {},
    }
}

/// A slash more at the start of a path changes nothing.
pub proof fn law_leading_slashes_do_not_count(method: MethodView, path: Seq<char>)
    ensures
        crate::exchange::first_step(method, seq!['/'] + path) == crate::exchange::first_step(
            method,
            path,
        ),
{
    let longer = seq!['/'] + path;
    assert(longer.skip(1) =~= path);
    let n = crate::text::leading_slashes(path) as int;
    crate::text_laws::lemma_slashes_within(path);
    assert(longer.skip(n + 1) =~= path.skip(n));
}

/// A path that starts with something else than a slash has no slash to drop.
proof fn lemma_no_leading_slash(path: Seq<char>)
    requires
        path.len() == 0 || path[0] != '/',
    ensures
        crate::text::without_leading_slashes(path) == path,
{
    assert(path.skip(0) =~= path);
}

/// Where the first slash of a path stands.
pub proof fn lemma_cut_first(before: Seq<char>, after: Seq<char>)
    requires
        !before.contains('/'),
    ensures
        crate::text::cut_first_slash(before + seq!['/'] + after) == Some((before, after)),
{
    let path = before + seq!['/'] + after;
    let n = before.len() as int;
    path.index_of_first_ensures('/');
    assert(path[n] == '/');
    assert(path.take(n) =~= before);
    assert(path.skip(n + 1) =~= after);
}

/// Where the last slash of a path stands.
pub proof fn lemma_cut_last(before: Seq<char>, after: Seq<char>)
    requires
        !after.contains('/'),
    ensures
        crate::text::cut_last_slash(before + seq!['/'] + after) == Some((before, after)),
{
    let path = before + seq!['/'] + after;
    let n = before.len() as int;
    path.index_of_last_ensures('/');
    assert(path[n] == '/');
    assert(path.take(n) =~= before);
    assert(path.skip(n + 1) =~= after);
}

/// A slash after the id of a component changes nothing, where nothing follows it.
pub proof fn law_slash_after_component_does_not_count(method: MethodView, id: Seq<char>)
    requires
        id.len() > 0,
        !id.contains('/'),
    ensures
        crate::exchange::first_step(method, id + seq!['/']) == crate::exchange::first_step(
            method,
            id,
        ),
{
    lemma_no_leading_slash(id);
    lemma_no_leading_slash(id + seq!['/']);
    lemma_cut_first(id, Seq::empty());
    assert(id + seq!['/'] + Seq::<char>::empty() =~= id + seq!['/']);
    id.index_of_first_ensures('/');
}

/// The path that is listed for a function of a component leads, in a call, to that function.
pub proof fn law_listed_functions_are_found(id: Seq<char>, func: Seq<char>)
    requires
        id.len() > 0,
        !id.contains('/'),
        func.len() > 0,
        !func.contains('/'),
    ensures
        crate::exchange::first_step(MethodView::Post, crate::listing::func_path(id, func))
            == (StepView::FindComponent { id, export: Some(func), query: false }),
        crate::exchange::after_component(id, Some(func), false, Ok(())) == (StepView::FindFunc {
            id,
            within: None,
            func,
        }),
{
    reveal_strlit("/");
    let rest = id + seq!['/'] + func;
    assert(crate::listing::func_path(id, func) =~= seq!['/'] + rest);
    law_leading_slashes_do_not_count(MethodView::Post, rest);
    lemma_no_leading_slash(rest);
    lemma_cut_first(id, func);
    func.index_of_last_ensures('/');
}

/// The path that is listed for a function of an instance leads, in a call, to that instance and
/// then to that function.
pub proof fn law_listed_members_are_found(id: Seq<char>, interface: Seq<char>, func: Seq<char>)
    requires
        id.len() > 0,
        !id.contains('/'),
        !func.contains('/'),
    ensures
        crate::exchange::first_step(
            MethodView::Post,
            crate::listing::member_path(id, interface, func),
        ) == (StepView::FindComponent {
            id,
            export: Some(interface + seq!['/'] + func),
            query: false,
        }),
        crate::exchange::after_component(id, Some(interface + seq!['/'] + func), false, Ok(()))
            == (StepView::FindInstance { id, interface, func }),
        crate::exchange::after_instance(id, interface, func, true) == (StepView::FindFunc {
            id,
            within: Some(interface),
            func,
        }),
{
    reveal_strlit("/");
    let export = interface + seq!['/'] + func;
    let rest = id + seq!['/'] + export;
    assert(crate::listing::member_path(id, interface, func) =~= seq!['/'] + rest);
    law_leading_slashes_do_not_count(MethodView::Post, rest);
    lemma_no_leading_slash(rest);
    lemma_cut_first(id, export);
    lemma_cut_last(interface, func);
}

/// A call is the last step but the reply: an exchange has no other call, and only a reply can follow
/// it.
pub proof fn law_calls_come_once(
    method: MethodView,
    path: Seq<char>,
    steps: Seq<StepView>,
    i: int,
)
    requires
        exchange(method, path, steps),
        0 <= i < steps.len(),
        steps[i] is Call,
    ensures
        steps.len() <= i + 2,
        i + 1 < steps.len() ==> steps[i + 1] is Reply,
        forall|j: int| 0 <= j < steps.len() && j != i ==> !((#[trigger] steps[j]) is Call),
{
    law_exchanges_end(method, path, steps);
    assert forall|j: int| 0 <= j < steps.len() - 1 && (#[trigger] steps[j]) is Call implies steps[j
        + 1] is Reply && j + 2 == steps.len() by {
        assert(follows(steps[j], steps[j + 1]));
        if j + 1 < steps.len() - 1 {
            assert(!(steps[j + 1] is Reply));
        }
    }
}

/// A call that returned results of the types of its function is answered with their JSON, each
/// written by its type.
pub proof fn law_typed_results_are_answered(types: Seq<TypeView>, results: Seq<OutputView>)
    requires
        types.len() == results.len(),
        forall|i: int| 0 <= i < results.len() ==> crate::laws::fits(types[i], #[trigger] results[i]),
    ensures
        crate::calls::json_results(types, results) is Ok,
        crate::exchange::after_call(types, OutcomeView::Returned(results)) == StepView::Reply(
            crate::document::pretty_text(crate::calls::json_results(types, results)->Ok_0),
        ),
{
    crate::laws::law_typed_results_are_written(types, results);
}

/// The functions of an instance that is exported under a name, in their order.
pub open spec fn member_funcs(interface: Seq<char>, members: Seq<(Seq<char>, bool)>) -> Seq<
    (Option<Seq<char>>, Seq<char>),
>
    decreases members.len(),
{
    if members.len() == 0 {
        Seq::empty()
    } else if members.last().1 {
        member_funcs(interface, members.drop_last()).push((Some(interface), members.last().0))
    } else {
        member_funcs(interface, members.drop_last())
    }
}

/// The functions that a component exports, each with the name of the instance that it is in if it is
/// in one, in their order.
pub open spec fn exported_funcs(exports: Seq<(Seq<char>, ExportView)>) -> Seq<
    (Option<Seq<char>>, Seq<char>),
>
    decreases exports.len(),
{
    if exports.len() == 0 {
        Seq::empty()
    } else {
        exported_funcs(exports.drop_last()) + match exports.last().1 {
            ExportView::Func => seq![(None, exports.last().0)],
            ExportView::Instance(members) => member_funcs(exports.last().0, members),
            ExportView::Other => Seq::empty(),
        }
    }
}

/// The path of an exported function of a component.
pub open spec fn listed_path(id: Seq<char>, func: (Option<Seq<char>>, Seq<char>)) -> Seq<char> {
    match func.0 {
        Some(interface) => crate::listing::member_path(id, interface, func.1),
        None => crate::listing::func_path(id, func.1),
    }
}

/// The paths of exported functions of a component, each on a line.
pub open spec fn listed_lines(
    id: Seq<char>,
    funcs: Seq<(Option<Seq<char>>, Seq<char>)>,
) -> Seq<char>
    decreases funcs.len(),
{
    if funcs.len() == 0 {
        Seq::empty()
    } else {
        listed_lines(id, funcs.drop_last()) + listed_path(id, funcs.last()) + "\n"@
    }
}

/// The lines of two lists of functions, one after the other.
proof fn lemma_lines_join(
    id: Seq<char>,
    first: Seq<(Option<Seq<char>>, Seq<char>)>,
    second: Seq<(Option<Seq<char>>, Seq<char>)>,
)
    ensures
        listed_lines(id, first + second) == listed_lines(id, first) + listed_lines(id, second),
    decreases second.len(),
{
    if second.len() == 0 {
        assert(first + second =~= first);
        assert(listed_lines(id, first) + Seq::<char>::empty() =~= listed_lines(id, first));
    } else {
        lemma_lines_join(id, first, second.drop_last());
        assert((first + second).drop_last() =~= first + second.drop_last());
        assert(listed_lines(id, first + second) =~= listed_lines(id, first) + listed_lines(
            id,
            second,
        ));
    }
}

/// The lines for an instance are those of its functions.
proof fn lemma_member_lines(
    id: Seq<char>,
    interface: Seq<char>,
    members: Seq<(Seq<char>, bool)>,
)
    ensures
        crate::listing::members_text(id, interface, members) == listed_lines(
            id,
            member_funcs(interface, members),
        ),
    decreases members.len(),
{
    if members.len() > 0 {
        lemma_member_lines(id, interface, members.drop_last());
        let funcs = member_funcs(interface, members.drop_last());
        assert(funcs.push((Some(interface), members.last().0)).drop_last() =~= funcs);
    }
}

/// The list of exports is the paths of the exported functions, in their order, each on a line, and
/// nothing else.
pub proof fn law_exported_functions_are_listed(
    id: Seq<char>,
    exports: Seq<(Seq<char>, ExportView)>,
)
    ensures
        crate::listing::exports_text(id, exports) == listed_lines(id, exported_funcs(exports)),
    decreases exports.len(),
{
    if exports.len() > 0 {
        let shorter = exports.drop_last();
        law_exported_functions_are_listed(id, shorter);
        match exports.last().1 {
            ExportView::Func => {
                let last: Seq<(Option<Seq<char>>, Seq<char>)> = seq![(None, exports.last().0)];
                lemma_lines_join(id, exported_funcs(shorter), last);
                assert(last.drop_last() =~= Seq::empty());
                assert(listed_lines(id, last.drop_last()) =~= Seq::<char>::empty());
                assert(listed_lines(id, last) =~= crate::listing::func_path(id, exports.last().0)
                    + "\n"@);
            },
            ExportView::Instance(members) => {
                lemma_member_lines(id, exports.last().0, members);
                lemma_lines_join(
                    id,
                    exported_funcs(shorter),
                    member_funcs(exports.last().0, members),
                );
            },
            ExportView::Other => {
                assert(exported_funcs(exports) =~= exported_funcs(shorter));
                assert(crate::listing::exports_text(id, exports) =~= crate::listing::exports_text(
                    id,
                    shorter,
                ));
            },
        }
    }
}

/// Each path of the list of exports leads, in a call, to the function that it is listed for.
pub proof fn law_listed_paths_lead_back(
    id: Seq<char>,
    exports: Seq<(Seq<char>, ExportView)>,
    k: int,
)
    requires
        id.len() > 0,
        !id.contains('/'),
        0 <= k < exported_funcs(exports).len(),
        !exported_funcs(exports)[k].1.contains('/'),
        exported_funcs(exports)[k].0 is None ==> exported_funcs(exports)[k].1.len() > 0,
    ensures
        ({
            let (within, func) = exported_funcs(exports)[k];
            let step = crate::exchange::first_step(
                MethodView::Post,
                listed_path(id, (within, func)),
            );
            &&& step matches StepView::FindComponent { id: found, export, query }
            &&& found == id
            &&& crate::exchange::after_component(id, export, query, Ok(())) == match within {
                Some(interface) => StepView::FindInstance { id, interface, func },
                None => StepView::FindFunc { id, within, func },
            }
        }),
{
    let (within, func) = exported_funcs(exports)[k];
    match within {
        Some(interface) => law_listed_members_are_found(id, interface, func),
        None => law_listed_functions_are_found(id, func),
    }
}

} // verus!
