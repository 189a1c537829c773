use spin_trigger_remote::exchange::{
    ComponentLookup, FuncLookup, InstanceLookup, Item, Method, Outcome, PendingCall, RemoteTrigger,
    Signature, Step, TRIGGER_TYPE,
};
use spin_trigger_remote::listing::{list_components, list_exports, Export};
use spin_trigger_remote::values::{Content, Kind, Output, Type, Val};

fn t(kind: Kind) -> Type {
    let shown = format!("{kind:?}");
    Type { kind, shown }
}

fn out(content: Content) -> Output {
    let shown = format!("{content:?}");
    Output { content, shown }
}

fn s(text: &str) -> String {
    text.to_string()
}

fn reply(text: &str) -> Step {
    Step::Reply(s(text))
}

fn find(id: &str, export: Option<&str>, query: bool) -> Step {
    Step::FindComponent(ComponentLookup {
        id: s(id),
        export: export.map(s),
        query,
    })
}

fn component(export: Option<&str>, query: bool) -> ComponentLookup {
    ComponentLookup {
        id: s("c"),
        export: export.map(s),
        query,
    }
}

#[test]
fn the_trigger_has_a_type() {
    assert_eq!(TRIGGER_TYPE, "remote");
    assert_eq!(RemoteTrigger::new(), RemoteTrigger);
}

#[test]
fn requests_begin_by_their_path() {
    let trigger = RemoteTrigger::new();
    assert_eq!(trigger.begin(&Method::Get, "/"), Step::ListComponents);
    assert_eq!(trigger.begin(&Method::Get, ""), Step::ListComponents);
    assert_eq!(trigger.begin(&Method::Get, "///"), Step::ListComponents);
    assert_eq!(trigger.begin(&Method::Get, "/c"), find("c", None, true));
    assert_eq!(trigger.begin(&Method::Get, "/c/"), find("c", None, true));
    assert_eq!(trigger.begin(&Method::Get, "/c/f"), find("c", Some("f"), true));
    assert_eq!(trigger.begin(&Method::Post, "/"), find("", None, false));
    assert_eq!(trigger.begin(&Method::Post, "/c"), find("c", None, false));
    assert_eq!(
        trigger.begin(&Method::Post, "//c/a:b/i/f"),
        find("c", Some("a:b/i/f"), false)
    );
    assert_eq!(trigger.begin(&Method::Post, "/c//f"), find("c", Some("/f"), false));
}

#[test]
fn other_methods_are_refused() {
    let trigger = RemoteTrigger::new();
    assert_eq!(
        trigger.begin(&Method::Other(s("PUT")), "/c/f"),
        reply("unsupported method PUT")
    );
}

#[test]
fn a_slash_more_or_less_does_not_count() {
    let trigger = RemoteTrigger::new();
    assert_eq!(
        trigger.begin(&Method::Post, "/c/f"),
        trigger.begin(&Method::Post, "//c/f")
    );
    assert_eq!(
        trigger.begin(&Method::Get, "c/"),
        trigger.begin(&Method::Get, "c")
    );
}

#[test]
fn components_are_listed() {
    let trigger = RemoteTrigger::new();
    assert_eq!(
        trigger.components(Ok(vec![s("a"), s("b")])),
        reply("/a/<export>\n/b/<export>\n")
    );
    assert_eq!(trigger.components(Ok(vec![])), reply(""));
    assert_eq!(trigger.components(Err(s("no such component"))), reply("no such component"));
    assert_eq!(list_components(&vec![s("x")]), "/x/<export>\n");
}

#[test]
fn exports_are_listed() {
    let trigger = RemoteTrigger::new();
    let exports = vec![
        (s("f"), Export::Func),
        (s("m"), Export::Other),
        (
            s("a:b/i"),
            Export::Instance(vec![(s("g"), true), (s("t"), false), (s("h"), true)]),
        ),
    ];
    assert_eq!(list_exports("c", &exports), "/c/f\n/c/a:b/i/g\n/c/a:b/i/h\n");
    assert_eq!(
        trigger.exports("c", &exports),
        reply("/c/f\n/c/a:b/i/g\n/c/a:b/i/h\n")
    );
    assert_eq!(list_exports("c", &vec![]), "");
}

#[test]
fn a_component_decides_what_comes_next() {
    assert_eq!(
        component(Some("f"), false).found(Err(s("no component \"c\""))),
        reply("no component \"c\"")
    );
    assert_eq!(component(None, true).found(Ok(())), Step::ListExports(s("c")));
    assert_eq!(component(None, false).found(Ok(())), reply("invalid path"));
    assert_eq!(component(Some("f"), true).found(Ok(())), reply("must POST"));
    assert_eq!(
        component(Some("f"), false).found(Ok(())),
        Step::FindFunc(FuncLookup {
            id: s("c"),
            interface: None,
            func: s("f"),
        })
    );
    assert_eq!(
        component(Some("a:b/i/f"), false).found(Ok(())),
        Step::FindInstance(InstanceLookup {
            id: s("c"),
            interface: s("a:b/i"),
            func: s("f"),
        })
    );
}

#[test]
fn an_instance_decides_what_comes_next() {
    let lookup = || InstanceLookup {
        id: s("c"),
        interface: s("i"),
        func: s("f"),
    };
    assert_eq!(lookup().found(false), reply("instance not found"));
    assert_eq!(
        lookup().found(true),
        Step::FindFunc(FuncLookup {
            id: s("c"),
            interface: Some(s("i")),
            func: s("f"),
        })
    );
}

#[test]
fn a_function_decides_what_comes_next() {
    let lookup = || FuncLookup {
        id: s("c"),
        interface: None,
        func: s("f"),
    };
    assert_eq!(lookup().found(None), reply("func not found"));
    assert_eq!(
        lookup().found(Some(Item::Other(s("Module(..)")))),
        reply("unexpected export type Module(..)")
    );
    assert_eq!(
        lookup().found(Some(Item::Func(vec![t(Kind::U8)], vec![t(Kind::Bool)]))),
        Step::ReadBody(Signature {
            id: s("c"),
            params: vec![t(Kind::U8)],
            results: vec![t(Kind::Bool)],
        })
    );
}

#[test]
fn a_body_decides_what_comes_next() {
    let signature = || Signature {
        id: s("c"),
        params: vec![t(Kind::U8)],
        results: vec![t(Kind::Bool)],
    };
    assert_eq!(signature().body(Err(s("connection closed"))), reply("connection closed"));
    assert_eq!(
        signature().body(Ok(b"[true]".to_vec())),
        reply("error parsing argument 1")
    );
    assert_eq!(
        signature().body(Ok(b"[8]".to_vec())),
        Step::Call(
            vec![Val::U8(8)],
            PendingCall {
                id: s("c"),
                results: vec![t(Kind::Bool)],
            }
        )
    );
}

#[test]
fn a_call_is_answered() {
    let pending = || PendingCall {
        id: s("c"),
        results: vec![t(Kind::U8)],
    };
    assert_eq!(pending().finished(Outcome::Failed(s("trap"))), reply("trap"));
    assert_eq!(
        pending().finished(Outcome::Missing),
        reply("func instance not found")
    );
    assert_eq!(
        pending().finished(Outcome::Returned(vec![out(Content::U8(9))])),
        reply("[\n  9\n]")
    );
    assert_eq!(
        pending().finished(Outcome::Returned(vec![out(Content::Char('\x7f'))])),
        reply("val Char('\\u{7f}') doesn't match type U8")
    );
}

fn take_all_steps(method: Method, path: &str, body: &str) -> Vec<&'static str> {
    let trigger = RemoteTrigger::new();
    let mut taken = vec![];
    let mut step = trigger.begin(&method, path);
    loop {
        step = match step {
            Step::Reply(_) => {
                taken.push("reply");
                return taken;
            }
            Step::ListComponents => {
                taken.push("components");
                trigger.components(Ok(vec![s("c")]))
            }
            Step::FindComponent(lookup) => {
                taken.push("component");
                assert_eq!(lookup.id, "c");
                lookup.found(Ok(()))
            }
            Step::ListExports(id) => {
                taken.push("exports");
                assert_eq!(id, "c");
                trigger.exports(&id, &vec![(s("f"), Export::Func)])
            }
            Step::FindInstance(lookup) => {
                taken.push("instance");
                lookup.found(true)
            }
            Step::FindFunc(lookup) => {
                taken.push("func");
                lookup.found(Some(Item::Func(vec![t(Kind::U8)], vec![t(Kind::U8)])))
            }
            Step::ReadBody(signature) => {
                taken.push("body");
                signature.body(Ok(body.as_bytes().to_vec()))
            }
            Step::Call(args, pending) => {
                taken.push("call");
                assert_eq!(pending.id, "c");
                assert_eq!(args, vec![Val::U8(1)]);
                pending.finished(Outcome::Returned(vec![out(Content::U8(1))]))
            }
        };
    }
}

#[test]
fn exchanges_end_with_a_reply() {
    assert_eq!(take_all_steps(Method::Get, "/", ""), ["components", "reply"]);
    assert_eq!(
        take_all_steps(Method::Get, "/c", ""),
        ["component", "exports", "reply"]
    );
    assert_eq!(
        take_all_steps(Method::Get, "/c/f", "[1]"),
        ["component", "reply"]
    );
    assert_eq!(
        take_all_steps(Method::Post, "/c/f", "[1]"),
        ["component", "func", "body", "call", "reply"]
    );
    assert_eq!(
        take_all_steps(Method::Post, "/c/i/f", "[1]"),
        ["component", "instance", "func", "body", "call", "reply"]
    );
    assert_eq!(
        take_all_steps(Method::Post, "/c/f", "[1, 2]"),
        ["component", "func", "body", "reply"]
    );
    assert_eq!(take_all_steps(Method::Other(s("HEAD")), "/c", ""), ["reply"]);
}

#[test]
fn listed_paths_lead_to_what_they_list() {
    let trigger = RemoteTrigger::new();
    let exports = vec![
        (s("f"), Export::Func),
        (s("a:b/i@1.0.0"), Export::Instance(vec![(s("g"), true)])),
    ];
    let listing = list_exports("c", &exports);
    let mut found = vec![];
    for line in listing.lines() {
        let Step::FindComponent(lookup) = trigger.begin(&Method::Post, line) else {
            panic!("{line} finds no component");
        };
        found.push(lookup.found(Ok(())));
    }
    assert_eq!(
        found,
        vec![
            Step::FindFunc(FuncLookup {
                id: s("c"),
                interface: None,
                func: s("f"),
            }),
            Step::FindInstance(InstanceLookup {
                id: s("c"),
                interface: s("a:b/i@1.0.0"),
                func: s("g"),
            }),
        ]
    );
}
