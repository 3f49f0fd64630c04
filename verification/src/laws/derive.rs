//! Laws of what the `Aggregate` derive decides.

use vstd::prelude::*;
use crate::derive::{
    form_of, missing, variants_of, AggregateArguments, EventPath, EventVariant, MissingArgument,
};

verus! {

/// Arguments are told by their names alone: two name a type, two name paths, three name a literal, and
/// every other name is unknown.
pub proof fn law_argument_forms(name: Seq<char>)
    ensures
        form_of(name) is Type <==> (name == "id"@ || name == "error"@),
        form_of(name) is Paths <==> (name == "events"@ || name == "commands"@),
        form_of(name) is Literal <==> (name == "kind"@ || name == "event_enum"@ || name
            == "command_enum"@),
        form_of(name) is Unknown <==> !(name == "id"@ || name == "error"@ || name == "events"@
            || name == "commands"@ || name == "kind"@ || name == "event_enum"@ || name
            == "command_enum"@),
{
    reveal_strlit("id");
    reveal_strlit("error");
    reveal_strlit("events");
    reveal_strlit("commands");
    reveal_strlit("kind");
    reveal_strlit("event_enum");
    reveal_strlit("command_enum");
    assert("id"@.len() == 2);
    assert("error"@.len() == 5);
    assert("events"@.len() == 6);
    assert("commands"@.len() == 8);
    assert("kind"@.len() == 4);
    assert("event_enum"@.len() == 10);
    assert("command_enum"@.len() == 12);
}

/// Nothing is missing exactly where there are an identifier type, an error type and at least one event
/// type. Otherwise the first of these that is not there is named, in this order.
pub proof fn law_first_missing_argument_is_named<T, P, N>(arguments: AggregateArguments<T, P, N>)
    ensures
        missing(arguments) is None <==> (arguments.id is Some && arguments.error is Some
            && arguments.events@.len() > 0),
        missing(arguments) matches Some(MissingArgument::Id) <==> arguments.id is None,
        missing(arguments) matches Some(MissingArgument::Error) <==> (arguments.id is Some
            && arguments.error is None),
        missing(arguments) matches Some(MissingArgument::Events) <==> (arguments.id is Some
            && arguments.error is Some && arguments.events@.len() == 0),
{
}

/// There is one variant for each event type, in order, with its path and the last of its segments as
/// the name, however many segments there are.
pub proof fn law_variants_are_named_by_last_segments<P, N>(
    events: Seq<EventPath<P, N>>,
    variants: Seq<EventVariant<P, N>>,
)
    requires
        variants_of(events, variants),
    ensures
        variants.len() == events.len(),
        forall|i: int|
            0 <= i < events.len() ==> {
                &&& (#[trigger] variants[i]).path == events[i].path
                &&& events[i].segments@.len() > 0 ==> variants[i].name
                    == events[i].segments@[events[i].segments@.len() - 1]
            },
{
}

/// Every event path has segments exactly where none is empty.
pub proof fn law_has_segments<T, P, N>(arguments: AggregateArguments<T, P, N>)
    ensures
        arguments.has_segments() <==> forall|i: int|
            0 <= i < arguments.events@.len() ==> (#[trigger] arguments.events@[i]).segments@.len()
                != 0,
{
}

/// Each message names the attribute that is missing.
pub proof fn law_messages_name_the_missing_attribute()
    ensures
        MissingArgument::Id.text()
            == "Aggregate derive requires #[aggregate(id = Type, ...)] attribute"@,
        MissingArgument::Error.text()
            == "Aggregate derive requires #[aggregate(error = Type, ...)] attribute"@,
        MissingArgument::Events.text()
            == "Aggregate derive requires #[aggregate(events(...), ...)] with at least one event type"@,
{
}

} // verus!
