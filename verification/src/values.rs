//! The types of component functions, and the values that they take and return.
use crate::json::NumberView;
use vstd::prelude::*;

verus! {

/// A type of the component model.
#[derive(Debug, PartialEq)]
pub struct Type {
    pub kind: Kind,
    /// The type as the host shows it in a message.
    pub shown: String,
}

/// What types there are.
#[derive(Debug, PartialEq)]
pub enum Kind {
    Bool,
    S8,
    U8,
    S16,
    U16,
    S32,
    U32,
    S64,
    U64,
    Float32,
    Float64,
    Char,
    String,
    /// The type of the items.
    List(Box<Type>),
    /// The fields, by name, in their order.
    Record(Vec<(String, Type)>),
    Tuple(Vec<Type>),
    /// The cases, by name, each with the type of its payload.
    Variant(Vec<(String, Option<Type>)>),
    Enum,
    Option(Box<Type>),
    /// The type of the payload of success, and that of failure.
    Result(Option<Box<Type>>, Option<Box<Type>>),
    Flags,
    Own,
    Borrow,
}

/// A value to hand to a function of a component.
///
/// The library does no floating-point arithmetic: a floating-point argument is the JSON number that
/// was given for it, which the host converts to the precision of the parameter.
#[derive(Debug, PartialEq)]
pub enum Val {
    Bool(bool),
    S8(i8),
    U8(u8),
    S16(i16),
    U16(u16),
    S32(i32),
    U32(u32),
    S64(i64),
    U64(u64),
    Float32(serde_json::Number),
    Float64(serde_json::Number),
    Char(char),
    String(String),
    List(Vec<Val>),
    Record(Vec<(String, Val)>),
    Tuple(Vec<Val>),
    Variant(String, Option<Box<Val>>),
    Enum(String),
    Option(Option<Box<Val>>),
    Result(Result<Option<Box<Val>>, Option<Box<Val>>>),
    Flags(Vec<String>),
}

/// A floating-point value that a function returned: the JSON number that writes it, if it is finite;
/// JSON has no number for the others.
#[derive(Debug, PartialEq)]
pub enum Float {
    Finite(serde_json::Number),
    NonFinite,
}

/// A value that a function of a component returned.
#[derive(Debug, PartialEq)]
pub struct Output {
    pub content: Content,
    /// The value as the host shows it in a message.
    pub shown: String,
}

/// What a returned value can be.
#[derive(Debug, PartialEq)]
pub enum Content {
    Bool(bool),
    S8(i8),
    U8(u8),
    S16(i16),
    U16(u16),
    S32(i32),
    U32(u32),
    S64(i64),
    U64(u64),
    Float32(Float),
    Float64(Float),
    Char(char),
    String(String),
    List(Vec<Output>),
    Record(Vec<(String, Output)>),
    Tuple(Vec<Output>),
    Variant(String, Option<Box<Output>>),
    Enum(String),
    Option(Option<Box<Output>>),
    Result(Result<Option<Box<Output>>, Option<Box<Output>>>),
    Flags(Vec<String>),
    Resource,
}

/// What a type is.
pub struct TypeView {
    pub kind: KindView,
    pub shown: Seq<char>,
}

/// What kinds of types there are.
pub enum KindView {
    Bool,
    S8,
    U8,
    S16,
    U16,
    S32,
    U32,
    S64,
    U64,
    Float32,
    Float64,
    Char,
    String,
    List(Box<TypeView>),
    Record(Seq<(Seq<char>, TypeView)>),
    Tuple(Seq<TypeView>),
    Variant(Seq<(Seq<char>, Option<TypeView>)>),
    Enum,
    Option(Box<TypeView>),
    Result(Option<Box<TypeView>>, Option<Box<TypeView>>),
    Flags,
    Own,
    Borrow,
}

/// What an argument is.
pub enum ValView {
    Bool(bool),
    S8(i8),
    U8(u8),
    S16(i16),
    U16(u16),
    S32(i32),
    U32(u32),
    S64(i64),
    U64(u64),
    Float32(NumberView),
    Float64(NumberView),
    Char(char),
    String(Seq<char>),
    List(Seq<ValView>),
    Record(Seq<(Seq<char>, ValView)>),
    Tuple(Seq<ValView>),
    Variant(Seq<char>, Option<Box<ValView>>),
    Enum(Seq<char>),
    Option(Option<Box<ValView>>),
    Result(Result<Option<Box<ValView>>, Option<Box<ValView>>>),
    Flags(Seq<Seq<char>>),
}

/// What a returned floating-point value is.
pub enum FloatView {
    Finite(NumberView),
    NonFinite,
}

/// What a returned value is.
pub struct OutputView {
    pub content: ContentView,
    pub shown: Seq<char>,
}

/// What the content of a returned value is.
pub enum ContentView {
    Bool(bool),
    S8(i8),
    U8(u8),
    S16(i16),
    U16(u16),
    S32(i32),
    U32(u32),
    S64(i64),
    U64(u64),
    Float32(FloatView),
    Float64(FloatView),
    Char(char),
    String(Seq<char>),
    List(Seq<OutputView>),
    Record(Seq<(Seq<char>, OutputView)>),
    Tuple(Seq<OutputView>),
    Variant(Seq<char>, Option<Box<OutputView>>),
    Enum(Seq<char>),
    Option(Option<Box<OutputView>>),
    Result(Result<Option<Box<OutputView>>, Option<Box<OutputView>>>),
    Flags(Seq<Seq<char>>),
    Resource,
}

/// What each of the texts is.
pub open spec fn texts_view(texts: Seq<String>) -> Seq<Seq<char>> {
    Seq::new(texts.len(), |i: int| texts[i]@)
}

impl Type {
    pub open spec fn view(&self) -> TypeView
        decreases self,
    {
        TypeView { kind: self.kind.view(), shown: self.shown@ }
    }
}

impl Kind {
    pub open spec fn view(&self) -> KindView
        decreases self,
    {
        match self {
            Kind::Bool => KindView::Bool,
            Kind::S8 => KindView::S8,
            Kind::U8 => KindView::U8,
            Kind::S16 => KindView::S16,
            Kind::U16 => KindView::U16,
            Kind::S32 => KindView::S32,
            Kind::U32 => KindView::U32,
            Kind::S64 => KindView::S64,
            Kind::U64 => KindView::U64,
            Kind::Float32 => KindView::Float32,
            Kind::Float64 => KindView::Float64,
            Kind::Char => KindView::Char,
            Kind::String => KindView::String,
            Kind::List(item) => KindView::List(Box::new((**item).view())),
            Kind::Record(fields) => KindView::Record(fields_view(fields@)),
            Kind::Tuple(types) => KindView::Tuple(types_view(types@)),
            Kind::Variant(cases) => KindView::Variant(cases_view(cases@)),
            Kind::Enum => KindView::Enum,
            Kind::Option(payload) => KindView::Option(Box::new((**payload).view())),
            Kind::Result(ok, err) => KindView::Result(
                match ok {
                    Some(payload) => Some(Box::new((**payload).view())),
                    None => None,
                },
                match err {
                    Some(payload) => Some(Box::new((**payload).view())),
                    None => None,
                },
            ),
            Kind::Flags => KindView::Flags,
            Kind::Own => KindView::Own,
            Kind::Borrow => KindView::Borrow,
        }
    }
}

/// What each of the types is.
pub open spec fn types_view(types: Seq<Type>) -> Seq<TypeView>
    decreases types,
{
    Seq::new(
        types.len(),
        |i: int|
            if 0 <= i < types.len() {
                types[i].view()
            } else {
                arbitrary()
            },
    )
}

/// What each of the fields is.
pub open spec fn fields_view(fields: Seq<(String, Type)>) -> Seq<(Seq<char>, TypeView)>
    decreases fields,
{
    Seq::new(
        fields.len(),
        |i: int|
            if 0 <= i < fields.len() {
                (fields[i].0@, fields[i].1.view())
            } else {
                arbitrary()
            },
    )
}

/// What each of the cases is.
pub open spec fn cases_view(cases: Seq<(String, Option<Type>)>) -> Seq<
    (Seq<char>, Option<TypeView>),
>
    decreases cases,
{
    Seq::new(
        cases.len(),
        |i: int|
            if 0 <= i < cases.len() {
                (
                    cases[i].0@,
                    match cases[i].1 {
                        Some(payload) => Some(payload.view()),
                        None => None,
                    },
                )
            } else {
                arbitrary()
            },
    )
}

impl Val {
    pub open spec fn view(&self) -> ValView
        decreases self,
    {
        match self {
            Val::Bool(b) => ValView::Bool(*b),
            Val::S8(n) => ValView::S8(*n),
            Val::U8(n) => ValView::U8(*n),
            Val::S16(n) => ValView::S16(*n),
            Val::U16(n) => ValView::U16(*n),
            Val::S32(n) => ValView::S32(*n),
            Val::U32(n) => ValView::U32(*n),
            Val::S64(n) => ValView::S64(*n),
            Val::U64(n) => ValView::U64(*n),
            Val::Float32(number) => ValView::Float32(crate::json::number_view(*number)),
            Val::Float64(number) => ValView::Float64(crate::json::number_view(*number)),
            Val::Char(c) => ValView::Char(*c),
            Val::String(s) => ValView::String(s@),
            Val::List(items) => ValView::List(vals_view(items@)),
            Val::Record(fields) => ValView::Record(field_vals_view(fields@)),
            Val::Tuple(items) => ValView::Tuple(vals_view(items@)),
            Val::Variant(name, payload) => ValView::Variant(
                name@,
                match payload {
                    Some(val) => Some(Box::new((**val).view())),
                    None => None,
                },
            ),
            Val::Enum(name) => ValView::Enum(name@),
            Val::Option(payload) => ValView::Option(
                match payload {
                    Some(val) => Some(Box::new((**val).view())),
                    None => None,
                },
            ),
            Val::Result(Ok(payload)) => ValView::Result(
                Ok(
                    match payload {
                        Some(val) => Some(Box::new((**val).view())),
                        None => None,
                    },
                ),
            ),
            Val::Result(Err(payload)) => ValView::Result(
                Err(
                    match payload {
                        Some(val) => Some(Box::new((**val).view())),
                        None => None,
                    },
                ),
            ),
            Val::Flags(names) => ValView::Flags(texts_view(names@)),
        }
    }
}

/// What each of the values is.
pub open spec fn vals_view(vals: Seq<Val>) -> Seq<ValView>
    decreases vals,
{
    Seq::new(
        vals.len(),
        |i: int|
            if 0 <= i < vals.len() {
                vals[i].view()
            } else {
                arbitrary()
            },
    )
}

/// What each of the fields holds.
pub open spec fn field_vals_view(fields: Seq<(String, Val)>) -> Seq<(Seq<char>, ValView)>
    decreases fields,
{
    Seq::new(
        fields.len(),
        |i: int|
            if 0 <= i < fields.len() {
                (fields[i].0@, fields[i].1.view())
            } else {
                arbitrary()
            },
    )
}

impl Float {
    pub open spec fn view(&self) -> FloatView {
        match self {
            Float::Finite(number) => FloatView::Finite(crate::json::number_view(*number)),
            Float::NonFinite => FloatView::NonFinite,
        }
    }
}

impl Output {
    pub open spec fn view(&self) -> OutputView
        decreases self,
    {
        OutputView { content: self.content.view(), shown: self.shown@ }
    }
}

impl Content {
    pub open spec fn view(&self) -> ContentView
        decreases self,
    {
        match self {
            Content::Bool(b) => ContentView::Bool(*b),
            Content::S8(n) => ContentView::S8(*n),
            Content::U8(n) => ContentView::U8(*n),
            Content::S16(n) => ContentView::S16(*n),
            Content::U16(n) => ContentView::U16(*n),
            Content::S32(n) => ContentView::S32(*n),
            Content::U32(n) => ContentView::U32(*n),
            Content::S64(n) => ContentView::S64(*n),
            Content::U64(n) => ContentView::U64(*n),
            Content::Float32(float) => ContentView::Float32(float.view()),
            Content::Float64(float) => ContentView::Float64(float.view()),
            Content::Char(c) => ContentView::Char(*c),
            Content::String(s) => ContentView::String(s@),
            Content::List(items) => ContentView::List(outputs_view(items@)),
            Content::Record(fields) => ContentView::Record(field_outputs_view(fields@)),
            Content::Tuple(items) => ContentView::Tuple(outputs_view(items@)),
            Content::Variant(name, payload) => ContentView::Variant(
                name@,
                match payload {
                    Some(output) => Some(Box::new((**output).view())),
                    None => None,
                },
            ),
            Content::Enum(name) => ContentView::Enum(name@),
            Content::Option(payload) => ContentView::Option(
                match payload {
                    Some(output) => Some(Box::new((**output).view())),
                    None => None,
                },
            ),
            Content::Result(Ok(payload)) => ContentView::Result(
                Ok(
                    match payload {
                        Some(output) => Some(Box::new((**output).view())),
                        None => None,
                    },
                ),
            ),
            Content::Result(Err(payload)) => ContentView::Result(
                Err(
                    match payload {
                        Some(output) => Some(Box::new((**output).view())),
                        None => None,
                    },
                ),
            ),
            Content::Flags(names) => ContentView::Flags(texts_view(names@)),
            Content::Resource => ContentView::Resource,
        }
    }
}

/// What each of the returned values is.
pub open spec fn outputs_view(outputs: Seq<Output>) -> Seq<OutputView>
    decreases outputs,
{
    Seq::new(
        outputs.len(),
        |i: int|
            if 0 <= i < outputs.len() {
                outputs[i].view()
            } else {
                arbitrary()
            },
    )
}

/// What each of the returned fields holds.
pub open spec fn field_outputs_view(fields: Seq<(String, Output)>) -> Seq<(Seq<char>, OutputView)>
    decreases fields,
{
    Seq::new(
        fields.len(),
        |i: int|
            if 0 <= i < fields.len() {
                (fields[i].0@, fields[i].1.view())
            } else {
                arbitrary()
            },
    )
}

pub proof fn lemma_texts_push(texts: Seq<String>, text: String)
    ensures
        texts_view(texts.push(text)) == texts_view(texts).push(text@),
{
    assert(texts_view(texts.push(text)) =~= texts_view(texts).push(text@));
}

pub proof fn lemma_vals_push(vals: Seq<Val>, val: Val)
    ensures
        vals_view(vals.push(val)) == vals_view(vals).push(val.view()),
{
    assert(vals_view(vals.push(val)) =~= vals_view(vals).push(val.view()));
}

pub proof fn lemma_field_vals_push(fields: Seq<(String, Val)>, field: (String, Val))
    ensures
        field_vals_view(fields.push(field)) == field_vals_view(fields).push(
            (field.0@, field.1.view()),
        ),
{
    assert(field_vals_view(fields.push(field)) =~= field_vals_view(fields).push(
        (field.0@, field.1.view()),
    ));
}

} // verus!
