use feature_watch::diff::render_diff;
use feature_watch::driver::{step, Action, Event, Phase};
use feature_watch::model::{
    Failure, Feature, FeatureCollection, FeatureResult, Field, QueryResult, Value,
};

fn payload(state: &str) -> FeatureCollection {
    let fields = vec![
        Field { name: "CodeAdress".to_string(), alias: "Adresse".to_string() },
        Field { name: "Etat".to_string(), alias: "Etat".to_string() },
    ];
    let features = vec![Feature {
        attributes: vec![Value::Text("5 rue B".to_string()), Value::Text(state.to_string())],
    }];
    FeatureCollection {
        query_result: Some(QueryResult { feature_result: FeatureResult { fields, features } }),
    }
}

fn fetching() -> Phase {
    Phase::Fetching { address: "5 rue B".to_string() }
}

fn reading(summary: &str) -> Phase {
    Phase::ReadingSnapshot { summary: summary.to_string() }
}

const SUMMARY: &str = "CodeAdress/Adresse: 5 rue B\nEtat/Etat: raccordable";

#[test]
fn run_with_a_changed_snapshot() {
    let (phase, action) = step(&Phase::Idle, Event::Started).unwrap();
    assert_eq!((&phase, &action), (&Phase::LoadingConfig, &Action::LoadConfig));

    let (phase, action) =
        step(&phase, Event::ConfigLoaded { address: "5 rue B".to_string() }).unwrap();
    assert_eq!((&phase, &action), (&fetching(), &Action::Fetch));

    let (phase, action) = step(&phase, Event::PayloadDecoded(payload("raccordable"))).unwrap();
    assert_eq!((&phase, &action), (&reading(SUMMARY), &Action::ReadSnapshot));

    let old = "CodeAdress/Adresse: 5 rue B\nEtat/Etat: prevu";
    let (phase, action) = step(&phase, Event::SnapshotFound(old.to_string())).unwrap();
    assert_eq!(phase, Phase::Notifying { summary: SUMMARY.to_string() });
    assert_eq!(
        action,
        Action::Notify {
            markup: "<pre><code><strong> </strong><span style=\"color:\">\
                     CodeAdress/Adresse: 5 rue B\n</span>\
                     <strong>+</strong><span style=\"color:green\">Etat/Etat: prevu\n</span>\
                     <strong>-</strong><span style=\"color:red\">Etat/Etat: raccordable\n</span>\
                     </code></pre>"
                .to_string()
        }
    );
    assert_eq!(action, Action::Notify { markup: render_diff(old, SUMMARY) });

    let (phase, action) = step(&phase, Event::Notified).unwrap();
    assert_eq!(phase, Phase::Persisting);
    assert_eq!(action, Action::Persist { summary: SUMMARY.to_string() });

    let (phase, action) = step(&phase, Event::Persisted).unwrap();
    assert_eq!((phase, action), (Phase::Finished, Action::Succeed));
}

#[test]
fn first_run_writes_without_comparing() {
    let decision = step(&reading(SUMMARY), Event::SnapshotAbsent);
    assert_eq!(decision, Some((Phase::Persisting, Action::Persist { summary: SUMMARY.to_string() })));
}

#[test]
fn unchanged_snapshot_writes_without_notifying() {
    let decision = step(&reading(SUMMARY), Event::SnapshotFound(SUMMARY.to_string()));
    assert_eq!(decision, Some((Phase::Persisting, Action::Persist { summary: SUMMARY.to_string() })));
}

#[test]
fn rejected_configuration_stops_the_run() {
    assert_eq!(
        step(&Phase::LoadingConfig, Event::ConfigRejected),
        Some((Phase::Aborted(Failure::ConfigError), Action::Fail(Failure::ConfigError)))
    );
}

#[test]
fn failed_fetch_stops_the_run() {
    assert_eq!(
        step(&fetching(), Event::FetchFailed),
        Some((Phase::Aborted(Failure::FetchError), Action::Fail(Failure::FetchError)))
    );
}

#[test]
fn failed_decode_stops_the_run() {
    assert_eq!(
        step(&fetching(), Event::DecodeFailed),
        Some((Phase::Aborted(Failure::DecodeError), Action::Fail(Failure::DecodeError)))
    );
}

#[test]
fn misaligned_payload_counts_as_undecodable() {
    let mut c = payload("raccordable");
    c.query_result.as_mut().unwrap().feature_result.features[0].attributes.pop();
    assert_eq!(
        step(&fetching(), Event::PayloadDecoded(c)),
        Some((Phase::Aborted(Failure::DecodeError), Action::Fail(Failure::DecodeError)))
    );
}

#[test]
fn extraction_failures_stop_the_run() {
    let none = FeatureCollection { query_result: None };
    assert_eq!(
        step(&fetching(), Event::PayloadDecoded(none)),
        Some((Phase::Aborted(Failure::NoQueryResult), Action::Fail(Failure::NoQueryResult)))
    );

    let mut c = payload("raccordable");
    c.query_result.as_mut().unwrap().feature_result.fields[0].name = "Adresse".to_string();
    assert_eq!(
        step(&fetching(), Event::PayloadDecoded(c)),
        Some((
            Phase::Aborted(Failure::AddressColumnMissing),
            Action::Fail(Failure::AddressColumnMissing)
        ))
    );

    let elsewhere = Phase::Fetching { address: "7 rue C".to_string() };
    assert_eq!(
        step(&elsewhere, Event::PayloadDecoded(payload("raccordable"))),
        Some((Phase::Aborted(Failure::FeatureNotFound), Action::Fail(Failure::FeatureNotFound)))
    );

    let mut c = payload("raccordable");
    c.query_result.as_mut().unwrap().feature_result.features[0].attributes[1] = Value::Unset;
    assert_eq!(
        step(&fetching(), Event::PayloadDecoded(c)),
        Some((Phase::Aborted(Failure::MalformedValue), Action::Fail(Failure::MalformedValue)))
    );
}

#[test]
fn failed_notification_stops_before_the_write() {
    let notifying = Phase::Notifying { summary: SUMMARY.to_string() };
    let (phase, action) = step(&notifying, Event::NotifyFailed).unwrap();
    assert_eq!(phase, Phase::Aborted(Failure::NotifyError));
    assert_eq!(action, Action::Fail(Failure::NotifyError));
    assert_eq!(step(&phase, Event::Notified), None);
    assert_eq!(step(&phase, Event::Persisted), None);
    assert_eq!(step(&phase, Event::Started), None);
}

#[test]
fn failed_write_stops_the_run() {
    assert_eq!(
        step(&Phase::Persisting, Event::PersistFailed),
        Some((Phase::Aborted(Failure::PersistenceError), Action::Fail(Failure::PersistenceError)))
    );
}

#[test]
fn finished_run_accepts_nothing() {
    assert_eq!(step(&Phase::Finished, Event::Started), None);
    assert_eq!(step(&Phase::Finished, Event::Persisted), None);
    assert_eq!(step(&Phase::Finished, Event::SnapshotAbsent), None);
}

#[test]
fn events_out_of_turn_are_refused() {
    assert_eq!(step(&Phase::Idle, Event::Persisted), None);
    assert_eq!(step(&Phase::Idle, Event::ConfigRejected), None);
    assert_eq!(step(&Phase::LoadingConfig, Event::Started), None);
    assert_eq!(step(&fetching(), Event::SnapshotAbsent), None);
    assert_eq!(step(&fetching(), Event::Notified), None);
    assert_eq!(step(&reading(SUMMARY), Event::Notified), None);
    assert_eq!(step(&reading(SUMMARY), Event::PayloadDecoded(payload("x"))), None);
    assert_eq!(step(&Phase::Notifying { summary: String::new() }, Event::Persisted), None);
    assert_eq!(step(&Phase::Persisting, Event::Notified), None);
}
