//! What the `Aggregate` derive macro decides: which attributes it takes, what it asks for, and
//! which names the generated code gets.
//!
//! A macro front end reads the arguments of the `aggregate` attributes one by one. It asks
//! [`argument_form`] how an argument is written, parses it, and hands the value to
//! [`AggregateArguments::take`]. At the end, [`AggregateArguments::plan`] says what to generate.
//! Types, paths and the names of path segments are only carried through, so the front end chooses
//! how to represent them.

use vstd::prelude::*;
use vstd::string::*;
use crate::text::joined;

verus! {

/// How an argument of the `aggregate` attribute is written.
#[derive(Debug, Clone, Copy, PartialEq, Eq, Structural)]
pub enum ArgumentForm {
    /// `name = Type`.
    Type,
    /// `name(Path, ...)`.
    Paths,
    /// `name = literal`.
    Literal,
    /// The name is not known: nothing is parsed after it.
    Unknown,
}

/// The form of the argument with the given name.
pub open spec fn form_of(name: Seq<char>) -> ArgumentForm {
    if name == "id"@ || name == "error"@ {
        ArgumentForm::Type
    } else if name == "events"@ || name == "commands"@ {
        ArgumentForm::Paths
    } else if name == "kind"@ || name == "event_enum"@ || name == "command_enum"@ {
        ArgumentForm::Literal
    } else {
        ArgumentForm::Unknown
    }
}

/// Whether a name is the given one.
fn is_named(name: &str, wanted: &str) -> (r: bool)
    ensures
        r == (name@ == wanted@),
{
    name.to_string() == wanted.to_string()
}

/// How the argument with the given name is written.
pub fn argument_form(name: &str) -> (r: ArgumentForm)
    ensures
        r == form_of(name@),
{
    if is_named(name, "id") || is_named(name, "error") {
        ArgumentForm::Type
    } else if is_named(name, "events") || is_named(name, "commands") {
        ArgumentForm::Paths
    } else if is_named(name, "kind") || is_named(name, "event_enum") || is_named(
        name,
        "command_enum",
    ) {
        ArgumentForm::Literal
    } else {
        ArgumentForm::Unknown
    }
}

/// A path to an event type, with the names of its segments.
pub struct EventPath<P, N> {
    pub path: P,
    pub segments: Vec<N>,
}

/// The value of an argument.
pub enum ArgumentValue<T, P, N> {
    Type(T),
    Paths(Vec<EventPath<P, N>>),
    /// A string literal.
    Text(String),
    /// A literal that is not a string.
    OtherLiteral,
}

/// The arguments of the `aggregate` attributes of a struct, as far as they were read.
pub struct AggregateArguments<T, P, N> {
    pub id: Option<T>,
    pub error: Option<T>,
    pub events: Vec<EventPath<P, N>>,
    pub kind: Option<String>,
    pub event_enum: Option<String>,
}

/// A variant of the generated event enum.
pub struct EventVariant<P, N> {
    /// The name of the variant: the last segment of the path.
    pub name: N,
    /// The event type that the variant holds.
    pub path: P,
}

/// What to generate for an aggregate.
pub struct AggregatePlan<T, P, N> {
    pub id: T,
    pub error: T,
    /// The kind of the aggregate.
    pub kind: String,
    /// The name of the generated event enum.
    pub event_enum: String,
    /// The variants of the event enum, in the order of the event types.
    pub variants: Vec<EventVariant<P, N>>,
}

/// What an `Aggregate` derive lacks.
#[derive(Debug, Clone, Copy, PartialEq, Eq, Structural)]
pub enum MissingArgument {
    Id,
    Error,
    Events,
}

impl MissingArgument {
    /// What [`MissingArgument::message`] writes.
    pub open spec fn text(self) -> Seq<char> {
        match self {
            MissingArgument::Id => "Aggregate derive requires #[aggregate(id = Type, ...)] attribute"@,
            MissingArgument::Error =>
                "Aggregate derive requires #[aggregate(error = Type, ...)] attribute"@,
            MissingArgument::Events =>
                "Aggregate derive requires #[aggregate(events(...), ...)] with at least one event type"@,
        }
    }

    /// The error in words.
    pub fn message(&self) -> (text: String)
        ensures
            text@ == self.text(),
    {
        match self {
            MissingArgument::Id => String::from_str(
                "Aggregate derive requires #[aggregate(id = Type, ...)] attribute",
            ),
            MissingArgument::Error => String::from_str(
                "Aggregate derive requires #[aggregate(error = Type, ...)] attribute",
            ),
            MissingArgument::Events => String::from_str(
                "Aggregate derive requires #[aggregate(events(...), ...)] with at least one event type",
            ),
        }
    }
}

/// The lowercase form of a text.
pub uninterp spec fn lowercase(text: Seq<char>) -> Seq<char>;

/// The lowercase form of a text, as `str::to_lowercase` of the standard library gives it.
///
/// The form is defined by Unicode and depends on the text alone; nothing more is claimed of it.
#[verifier::external_body]
fn to_lowercase(text: &str) -> (r: String)
    ensures
        r@ == lowercase(text@),
{
    text.to_lowercase()
}

/// The event types, each as a variant named by the last segment of its path.
pub open spec fn variants_of<P, N>(events: Seq<EventPath<P, N>>, variants: Seq<EventVariant<P, N>>) -> bool {
    &&& variants.len() == events.len()
    &&& forall|i: int|
        0 <= i < events.len() ==> {
            &&& (#[trigger] variants[i]).path == events[i].path
            &&& variants[i].name == events[i].segments@.last()
        }
}

/// What is missing: the first of the identifier type, the error type and the event types that was
/// not given.
pub open spec fn missing<T, P, N>(arguments: AggregateArguments<T, P, N>) -> Option<MissingArgument> {
    if arguments.id is None {
        Some(MissingArgument::Id)
    } else if arguments.error is None {
        Some(MissingArgument::Error)
    } else if arguments.events@.len() == 0 {
        Some(MissingArgument::Events)
    } else {
        None
    }
}

impl<T, P, N> AggregateArguments<T, P, N> {
    /// No arguments.
    pub fn new() -> (r: Self)
        ensures
            r.id is None,
            r.error is None,
            r.events@ == Seq::<EventPath<P, N>>::empty(),
            r.kind is None,
            r.event_enum is None,
    {
        AggregateArguments {
            id: None,
            error: None,
            events: Vec::new(),
            kind: None,
            event_enum: None,
        }
    }

    /// Every event path has segments.
    pub open spec fn has_segments(&self) -> bool {
        forall|i: int|
            0 <= i < self.events@.len() ==> (#[trigger] self.events@[i]).segments@.len() > 0
    }

    /// Takes the value of an argument.
    ///
    /// A later value replaces an earlier one, except that event types add up. A literal that is
    /// not a string counts as not given. Arguments about commands are read and ignored, as are
    /// arguments with an unknown name.
    pub fn take(&mut self, name: &str, value: ArgumentValue<T, P, N>)
        ensures
            final(self).id == match value {
                ArgumentValue::Type(ty) if name@ == "id"@ => Some(ty),
                _ => old(self).id,
            },
            final(self).error == match value {
                ArgumentValue::Type(ty) if name@ == "error"@ => Some(ty),
                _ => old(self).error,
            },
            final(self).events@ == match value {
                ArgumentValue::Paths(paths) if name@ == "events"@ => old(self).events@ + paths@,
                _ => old(self).events@,
            },
            final(self).kind == match value {
                ArgumentValue::Text(text) if name@ == "kind"@ => Some(text),
                _ => old(self).kind,
            },
            final(self).event_enum == match value {
                ArgumentValue::Text(text) if name@ == "event_enum"@ => Some(text),
                _ => old(self).event_enum,
            },
    {
        proof {
            reveal_strlit("id");
            reveal_strlit("error");
            reveal_strlit("kind");
            reveal_strlit("event_enum");
            assert("id"@.len() == 2);
            assert("error"@.len() == 5);
            assert("kind"@.len() == 4);
            assert("event_enum"@.len() == 10);
        }
        match value {
            ArgumentValue::Type(ty) => {
                if is_named(name, "id") {
                    self.id = Some(ty);
                } else if is_named(name, "error") {
                    self.error = Some(ty);
                }
            },
            ArgumentValue::Paths(paths) => {
                if is_named(name, "events") {
                    let mut more = paths;
                    self.events.append(&mut more);
                }
            },
            ArgumentValue::Text(text) => {
                if is_named(name, "kind") {
                    self.kind = Some(text);
                } else if is_named(name, "event_enum") {
                    self.event_enum = Some(text);
                }
            },
            ArgumentValue::OtherLiteral => {},
        }
    }

    /// What to generate, where `default_kind` is the kind of an aggregate that names none.
    ///
    /// The event enum is named after the struct, with `Event` behind it, unless a name was given.
    pub fn plan_with(self, struct_name: &str, default_kind: String) -> (r: Result<
        AggregatePlan<T, P, N>,
        MissingArgument,
    >)
        requires
            self.has_segments(),
        ensures
            match r {
                Err(error) => missing(self) == Some(error),
                Ok(plan) => {
                    &&& missing(self) is None
                    &&& self.id == Some(plan.id)
                    &&& self.error == Some(plan.error)
                    &&& plan.kind == match self.kind {
                        Some(kind) => kind,
                        None => default_kind,
                    }
                    &&& plan.event_enum@ == match self.event_enum {
                        Some(name) => name@,
                        None => struct_name@ + "Event"@,
                    }
                    &&& variants_of(self.events@, plan.variants@)
                },
            },
    {
        let id = match self.id {
            Some(id) => id,
            None => return Err(MissingArgument::Id),
        };
        let error = match self.error {
            Some(error) => error,
            None => return Err(MissingArgument::Error),
        };
        if self.events.is_empty() {
            return Err(MissingArgument::Events);
        }
        let kind = match self.kind {
            Some(kind) => kind,
            None => default_kind,
        };
        let event_enum = match self.event_enum {
            Some(name) => name,
            None => joined(struct_name, "Event"),
        };
        let variants = to_variants(self.events);
        Ok(AggregatePlan { id, error, kind, event_enum, variants })
    }

    /// What to generate. The kind of an aggregate that names none is the struct's name in
    /// lowercase.
    pub fn plan(self, struct_name: &str) -> (r: Result<AggregatePlan<T, P, N>, MissingArgument>)
        requires
            self.has_segments(),
        ensures
            match r {
                Err(error) => missing(self) == Some(error),
                Ok(plan) => {
                    &&& missing(self) is None
                    &&& self.id == Some(plan.id)
                    &&& self.error == Some(plan.error)
                    &&& plan.kind@ == match self.kind {
                        Some(kind) => kind@,
                        None => lowercase(struct_name@),
                    }
                    &&& plan.event_enum@ == match self.event_enum {
                        Some(name) => name@,
                        None => struct_name@ + "Event"@,
                    }
                    &&& variants_of(self.events@, plan.variants@)
                },
            },
    {
        self.plan_with(struct_name, to_lowercase(struct_name))
    }
}

/// The event types as variants.
fn to_variants<P, N>(events: Vec<EventPath<P, N>>) -> (r: Vec<EventVariant<P, N>>)
    requires
        forall|i: int| 0 <= i < events@.len() ==> (#[trigger] events@[i]).segments@.len() > 0,
    ensures
        variants_of(events@, r@),
{
    let mut variants: Vec<EventVariant<P, N>> = Vec::new();
    for event in it: events
        invariant
            it.seq() == events@,
            forall|i: int| 0 <= i < events@.len() ==> (#[trigger] events@[i]).segments@.len() > 0,
            variants_of(events@.take(it.index()), variants@),
    {
        let EventPath { path, segments } = event;
        let mut rest = segments;
        match rest.pop() {
            Some(name) => variants.push(EventVariant { name, path }),
            None => vstd::pervasive::unreached(),
        }
    }
    assert(events@.take(events@.len() as int) =~= events@);
    variants
}

} // verus!
