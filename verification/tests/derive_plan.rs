//! What the `Aggregate` derive decides.

use event_sourcing::derive::{
    argument_form, AggregateArguments, AggregatePlan, ArgumentForm, ArgumentValue, EventPath,
    MissingArgument,
};

type Arguments = AggregateArguments<&'static str, &'static str, String>;

fn path(text: &'static str) -> EventPath<&'static str, String> {
    EventPath {
        path: text,
        segments: text.split("::").map(str::to_string).collect(),
    }
}

fn complete() -> Arguments {
    let mut arguments = Arguments::new();
    arguments.take("id", ArgumentValue::Type("String"));
    arguments.take("error", ArgumentValue::Type("AccountError"));
    arguments.take(
        "events",
        ArgumentValue::Paths(vec![path("FundsDeposited"), path("events::FundsWithdrawn")]),
    );
    arguments
}

fn planned(arguments: Arguments) -> AggregatePlan<&'static str, &'static str, String> {
    match arguments.plan("Account") {
        Ok(plan) => plan,
        Err(missing) => panic!("{}", missing.message()),
    }
}

#[test]
fn arguments_are_parsed_by_their_names() {
    assert_eq!(argument_form("id"), ArgumentForm::Type);
    assert_eq!(argument_form("error"), ArgumentForm::Type);
    assert_eq!(argument_form("events"), ArgumentForm::Paths);
    assert_eq!(argument_form("commands"), ArgumentForm::Paths);
    assert_eq!(argument_form("kind"), ArgumentForm::Literal);
    assert_eq!(argument_form("event_enum"), ArgumentForm::Literal);
    assert_eq!(argument_form("command_enum"), ArgumentForm::Literal);
    assert_eq!(argument_form("ids"), ArgumentForm::Unknown);
    assert_eq!(argument_form(""), ArgumentForm::Unknown);
}

#[test]
fn names_default_to_those_of_the_struct() {
    let plan = planned(complete());
    assert_eq!(plan.id, "String");
    assert_eq!(plan.error, "AccountError");
    assert_eq!(plan.kind, "account");
    assert_eq!(plan.event_enum, "AccountEvent");
    let variants: Vec<(String, &str)> = plan
        .variants
        .into_iter()
        .map(|variant| (variant.name, variant.path))
        .collect();
    assert_eq!(
        variants,
        vec![
            ("FundsDeposited".to_string(), "FundsDeposited"),
            ("FundsWithdrawn".to_string(), "events::FundsWithdrawn"),
        ]
    );
}

#[test]
fn given_names_replace_the_defaults() {
    let mut arguments = complete();
    arguments.take("kind", ArgumentValue::Text("bank-account".to_string()));
    arguments.take("event_enum", ArgumentValue::Text("Movement".to_string()));
    let plan = planned(arguments);
    assert_eq!(plan.kind, "bank-account");
    assert_eq!(plan.event_enum, "Movement");
}

#[test]
fn later_values_replace_earlier_ones_and_events_add_up() {
    let mut arguments = complete();
    arguments.take("id", ArgumentValue::Type("Uuid"));
    arguments.take("error", ArgumentValue::Type("()"));
    arguments.take("kind", ArgumentValue::Text("first".to_string()));
    arguments.take("kind", ArgumentValue::Text("second".to_string()));
    arguments.take("events", ArgumentValue::Paths(vec![path("Closed")]));
    let plan = planned(arguments);
    assert_eq!(plan.id, "Uuid");
    assert_eq!(plan.error, "()");
    assert_eq!(plan.kind, "second");
    assert_eq!(plan.variants.len(), 3);
    assert_eq!(plan.variants[2].name, "Closed");
}

#[test]
fn commands_unknown_names_and_other_literals_are_ignored() {
    let mut arguments = complete();
    arguments.take("commands", ArgumentValue::Paths(vec![path("Deposit")]));
    arguments.take("command_enum", ArgumentValue::Text("AccountCommand".to_string()));
    arguments.take("kind", ArgumentValue::OtherLiteral);
    arguments.take("event_enum", ArgumentValue::OtherLiteral);
    arguments.take("colour", ArgumentValue::Text("red".to_string()));
    let plan = planned(arguments);
    assert_eq!(plan.kind, "account");
    assert_eq!(plan.event_enum, "AccountEvent");
    assert_eq!(plan.variants.len(), 2);
}

#[test]
fn the_kind_defaults_to_what_it_is_given() {
    let plan = complete()
        .plan_with("Account", "elsewhere".to_string())
        .ok()
        .unwrap();
    assert_eq!(plan.kind, "elsewhere");
    assert_eq!(plan.event_enum, "AccountEvent");
}

#[test]
fn what_is_missing_is_named_in_order() {
    let missing = |arguments: Arguments| arguments.plan("Account").err();

    assert_eq!(missing(Arguments::new()), Some(MissingArgument::Id));

    let mut arguments = Arguments::new();
    arguments.take("id", ArgumentValue::Type("String"));
    assert_eq!(missing(arguments), Some(MissingArgument::Error));

    let mut arguments = Arguments::new();
    arguments.take("id", ArgumentValue::Type("String"));
    arguments.take("error", ArgumentValue::Type("String"));
    arguments.take("events", ArgumentValue::Paths(vec![]));
    assert_eq!(missing(arguments), Some(MissingArgument::Events));

    assert_eq!(missing(complete()), None);
}

#[test]
fn messages_say_which_attribute_is_required() {
    assert_eq!(
        MissingArgument::Id.message(),
        "Aggregate derive requires #[aggregate(id = Type, ...)] attribute"
    );
    assert_eq!(
        MissingArgument::Error.message(),
        "Aggregate derive requires #[aggregate(error = Type, ...)] attribute"
    );
    assert_eq!(
        MissingArgument::Events.message(),
        "Aggregate derive requires #[aggregate(events(...), ...)] with at least one event type"
    );
}
