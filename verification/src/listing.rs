//! The lists that answer a query: of components, and of the functions that one exports.
use vstd::prelude::*;
use vstd::string::StringExecFns;

verus! {

/// What a component exports under a name.
#[derive(Debug, PartialEq)]
pub enum Export {
    Func,
    /// An instance, by the names of what it exports; whether each is a function.
    Instance(Vec<(String, bool)>),
    Other,
}

/// What an export is.
pub enum ExportView {
    Func,
    Instance(Seq<(Seq<char>, bool)>),
    Other,
}

impl Export {
    pub open spec fn view(&self) -> ExportView {
        match self {
            Export::Func => ExportView::Func,
            Export::Instance(members) => ExportView::Instance(
                Seq::new(members@.len(), |i: int| (members@[i].0@, members@[i].1)),
            ),
            Export::Other => ExportView::Other,
        }
    }
}

/// What each of the exports is.
pub open spec fn exports_view(exports: Seq<(String, Export)>) -> Seq<(Seq<char>, ExportView)> {
    Seq::new(exports.len(), |i: int| (exports[i].0@, exports[i].1@))
}

/// The line for a component.
pub open spec fn component_line(id: Seq<char>) -> Seq<char> {
    "/"@ + id + "/<export>\n"@
}

/// A line for each component.
pub open spec fn components_text(ids: Seq<Seq<char>>) -> Seq<char>
    decreases ids.len(),
{
    if ids.len() == 0 {
        Seq::empty()
    } else {
        components_text(ids.drop_last()) + component_line(ids.last())
    }
}

/// The path of a function that a component exports.
pub open spec fn func_path(id: Seq<char>, name: Seq<char>) -> Seq<char> {
    "/"@ + id + "/"@ + name
}

/// The path of a function that an instance exports which a component exports.
pub open spec fn member_path(id: Seq<char>, interface: Seq<char>, func: Seq<char>) -> Seq<char> {
    "/"@ + id + "/"@ + interface + "/"@ + func
}

/// A line for each function of an instance.
pub open spec fn members_text(
    id: Seq<char>,
    interface: Seq<char>,
    members: Seq<(Seq<char>, bool)>,
) -> Seq<char>
    decreases members.len(),
{
    if members.len() == 0 {
        Seq::empty()
    } else if members.last().1 {
        members_text(id, interface, members.drop_last()) + member_path(
            id,
            interface,
            members.last().0,
        ) + "\n"@
    } else {
        members_text(id, interface, members.drop_last())
    }
}

/// The lines for an export.
pub open spec fn export_text(id: Seq<char>, name: Seq<char>, export: ExportView) -> Seq<char> {
    match export {
        ExportView::Func => func_path(id, name) + "\n"@,
        ExportView::Instance(members) => members_text(id, name, members),
        ExportView::Other => Seq::empty(),
    }
}

/// A line for each function that a component exports, itself or in an instance.
pub open spec fn exports_text(id: Seq<char>, exports: Seq<(Seq<char>, ExportView)>) -> Seq<char>
    decreases exports.len(),
{
    if exports.len() == 0 {
        Seq::empty()
    } else {
        exports_text(id, exports.drop_last()) + export_text(
            id,
            exports.last().0,
            exports.last().1,
        )
    }
}

/// Lists components.
pub fn list_components(ids: &Vec<String>) -> (text: String)
    ensures
        text@ == components_text(crate::values::texts_view(ids@)),
{
    let ghost all = crate::values::texts_view(ids@);
    let mut text = String::new();
    let mut i: usize = 0;
    assert(all.take(0) =~= Seq::empty());
    while i < ids.len()
        invariant
            i <= ids.len(),
            all == crate::values::texts_view(ids@),
            text@ == components_text(all.take(i as int)),
        decreases ids.len() - i,
    {
        let ghost before = text@;
        text.append("/");
        text.append(ids[i].as_str());
        text.append("/<export>\n");
        proof {
            assert(all.take(i + 1).drop_last() =~= all.take(i as int));
            assert(text@ =~= before + component_line(ids@[i as int]@));
        }
        i = i + 1;
    }
    assert(all.take(all.len() as int) =~= all);
    text
}

/// Lists the functions of an instance, after the lines that are there.
fn list_members(text: &mut String, id: &str, interface: &str, members: &Vec<(String, bool)>)
    ensures
        final(text)@ == old(text)@ + members_text(
            id@,
            interface@,
            Seq::new(members@.len(), |i: int| (members@[i].0@, members@[i].1)),
        ),
{
    let ghost all = Seq::new(members@.len(), |i: int| (members@[i].0@, members@[i].1));
    let ghost start = text@;
    let mut i: usize = 0;
    proof {
        assert(all.take(0) =~= Seq::empty());
        assert(text@ =~= start + members_text(id@, interface@, all.take(0)));
    }
    while i < members.len()
        invariant
            i <= members.len(),
            all == Seq::new(members@.len(), |i: int| (members@[i].0@, members@[i].1)),
            text@ == start + members_text(id@, interface@, all.take(i as int)),
        decreases members.len() - i,
    {
        proof {
            assert(all.take(i + 1).drop_last() =~= all.take(i as int));
        }
        if members[i].1 {
            let ghost before = text@;
            text.append("/");
            text.append(id);
            text.append("/");
            text.append(interface);
            text.append("/");
            text.append(members[i].0.as_str());
            text.append("\n");
            assert(text@ =~= before + member_path(id@, interface@, members@[i as int].0@) + "\n"@);
            assert(text@ =~= start + members_text(id@, interface@, all.take(i + 1)));
        }
        i = i + 1;
    }
    assert(all.take(all.len() as int) =~= all);
}

/// Lists the functions that a component exports.
pub fn list_exports(id: &str, exports: &Vec<(String, Export)>) -> (text: String)
    ensures
        text@ == exports_text(id@, exports_view(exports@)),
{
    let ghost all = exports_view(exports@);
    let mut text = String::new();
    let mut i: usize = 0;
    assert(all.take(0) =~= Seq::empty());
    while i < exports.len()
        invariant
            i <= exports.len(),
            all == exports_view(exports@),
            text@ == exports_text(id@, all.take(i as int)),
        decreases exports.len() - i,
    {
        let ghost before = text@;
        let name = &exports[i].0;
        proof {
            assert(all.take(i + 1).drop_last() =~= all.take(i as int));
        }
        match &exports[i].1 {
            Export::Func => {
                text.append("/");
                text.append(id);
                text.append("/");
                text.append(name.as_str());
                text.append("\n");
                assert(text@ =~= before + (func_path(id@, name@) + "\n"@));
            },
            Export::Instance(members) => {
                list_members(&mut text, id, name.as_str(), members);
            },
            Export::Other => {
                assert(text@ =~= before + Seq::<char>::empty());
            },
        }
        i = i + 1;
    }
    assert(all.take(all.len() as int) =~= all);
    text
}

} // verus!
