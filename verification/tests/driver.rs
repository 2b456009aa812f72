use sendlist::config::EnvConfig;
use sendlist::driver::{
    announce, describe_failure, note_failure, prepare, report, Action, DeliveryOutcome, Driver, Event,
    Failure, Phase,
};
use sendlist::message::{AddressField, ContentKind, OutgoingMessage};
use sendlist::render::Renderer;
use sendlist::table::{read_csv_file, RecipientRecord};

fn config(extra: &[(&str, &str)]) -> EnvConfig {
    let mut settings: Vec<(String, String)> =
        extra.iter().map(|(k, v)| (k.to_string(), v.to_string())).collect();
    settings.push(("HOST".to_string(), "smtp.example.org".to_string()));
    settings.push(("USER".to_string(), "mailer".to_string()));
    settings.push(("PASSWORD".to_string(), "secret".to_string()));
    settings.push(("FROM".to_string(), "sender@example.org".to_string()));
    EnvConfig::check_or_default(&settings).unwrap()
}

fn driver(extra: &[(&str, &str)], body: &str, table: &str) -> Driver {
    let settings = config(extra);
    let renderer = Renderer::new(&settings.subject, body).unwrap();
    Driver::new(settings, renderer, read_csv_file(table).unwrap(), Vec::new()).unwrap()
}

fn expect_send(action: Action) -> (String, OutgoingMessage) {
    match action {
        Action::Send { announce, message } => (announce, message),
        other => panic!("expected a message to send, got {other:?}"),
    }
}

fn expect_rest(action: Action) -> (String, u64) {
    match action {
        Action::Rest { note, seconds } => (note, seconds),
        other => panic!("expected a rest, got {other:?}"),
    }
}

fn expect_finish(action: Action) -> Vec<String> {
    match action {
        Action::Finish { report } => report,
        other => panic!("expected the end, got {other:?}"),
    }
}

const TWO: &str = "Alice,alice@x.com,TOKEN1\nBob,bob@x.com,TOKEN2\n";

#[test]
fn end_to_end_two_recipients() {
    let mut run = driver(&[("DELAY", "0")], "Hello {{name}}, code {{data}}", TWO);
    assert_eq!(run.phase(), Phase::Waiting);

    let (announce, first) = expect_send(run.step(Event::Proceed));
    assert_eq!(announce, "--- Sending to: \"Alice\" <alice@x.com> ");
    assert_eq!(first.body, "Hello Alice, code TOKEN1");
    assert_eq!(first.kind, ContentKind::Plain);
    assert_eq!(first.part_count(), 1);
    assert_eq!(first.to, "\"Alice\" <alice@x.com>");
    assert_eq!(first.from, "sender@example.org");
    assert_eq!(first.subject, "");
    assert_eq!(run.phase(), Phase::Sending);
    assert_eq!(expect_rest(run.step(Event::Delivered)), (String::new(), 0));

    let (announce, second) = expect_send(run.step(Event::Proceed));
    assert_eq!(announce, "--- Sending to: \"Bob\" <bob@x.com> ");
    assert_eq!(second.body, "Hello Bob, code TOKEN2");
    assert_eq!(second.kind, ContentKind::Plain);
    assert_eq!(second.part_count(), 1);
    assert_eq!(expect_rest(run.step(Event::Delivered)), (String::new(), 0));

    let lines = expect_finish(run.step(Event::Proceed));
    assert_eq!(lines, vec!["=== Processed 2 mails".to_string()]);
    assert_eq!(run.phase(), Phase::Finished);
    assert_eq!(run.attempted(), 2);
    assert_eq!(run.failures(), 0);
    assert_eq!(
        run.outcomes(),
        &vec![
            DeliveryOutcome { recipient: 0, failure: None },
            DeliveryOutcome { recipient: 1, failure: None },
        ]
    );
    assert!(run.outcomes().iter().all(|outcome| outcome.delivered()));
}

#[test]
fn a_refusal_does_not_stop_the_run() {
    let table = "A,a@x.com,1\nB,b@x.com,2\nC,c@x.com,3\n";
    let mut run = driver(&[("DELAY", "3")], "{{data}}", table);
    expect_send(run.step(Event::Proceed));
    assert_eq!(expect_rest(run.step(Event::Delivered)), (String::new(), 3));
    let (_, second) = expect_send(run.step(Event::Proceed));
    assert_eq!(second.body, "2");
    let (note, seconds) = expect_rest(run.step(Event::Refused("connection lost".to_string())));
    assert_eq!(note, "### Failed: connection lost");
    assert_eq!(seconds, 3);
    let (announce, third) = expect_send(run.step(Event::Proceed));
    assert_eq!(announce, "--- Sending to: \"C\" <c@x.com> ");
    assert_eq!(third.body, "3");
    assert_eq!(expect_rest(run.step(Event::Refused("again".to_string()))).0, "### Failed: again");
    let lines = expect_finish(run.step(Event::Proceed));
    assert_eq!(lines, vec!["### Failed to send: 2".to_string(), "=== Processed 3 mails".to_string()]);
    assert_eq!(run.attempted(), 3);
    assert_eq!(run.failures(), 2);
    assert_eq!(
        run.outcomes(),
        &vec![
            DeliveryOutcome { recipient: 0, failure: None },
            DeliveryOutcome { recipient: 1, failure: Some(Failure::Transport("connection lost".to_string())) },
            DeliveryOutcome { recipient: 2, failure: Some(Failure::Transport("again".to_string())) },
        ]
    );
    assert!(run.outcomes()[0].delivered());
    assert!(!run.outcomes()[1].delivered());
}

#[test]
fn a_recipient_that_is_no_address_fails_alone() {
    let table = "A,a@x.com,1\nB,not an address,2\nC,c@x.com,3\n";
    let mut run = driver(&[("DELAY", "5")], "{{data}}", table);
    expect_send(run.step(Event::Proceed));
    expect_rest(run.step(Event::Delivered));
    let (note, seconds) = expect_rest(run.step(Event::Proceed));
    assert_eq!(note, "--- Sending to: \"B\" <not an address> ### Failed: invalid To address");
    assert_eq!(seconds, 5);
    assert_eq!(run.phase(), Phase::Waiting);
    let (_, third) = expect_send(run.step(Event::Proceed));
    assert_eq!(third.body, "3");
    expect_rest(run.step(Event::Delivered));
    assert_eq!(
        expect_finish(run.step(Event::Proceed)),
        vec!["### Failed to send: 1".to_string(), "=== Processed 3 mails".to_string()]
    );
    assert_eq!(run.outcomes()[1], DeliveryOutcome { recipient: 1, failure: Some(Failure::Address(AddressField::To)) });
}

#[test]
fn a_rendering_that_fails_is_an_outcome() {
    let mut run = driver(&[], "{{phone}}", "A,a@x.com,1\n");
    let (note, seconds) = expect_rest(run.step(Event::Proceed));
    assert!(note.starts_with("--- Sending to: \"A\" <a@x.com> ### Failed: "));
    assert_eq!(seconds, 1);
    assert!(matches!(run.outcomes()[0].failure, Some(Failure::Body(_))));
    assert_eq!(
        expect_finish(run.step(Event::Proceed)),
        vec!["### Failed to send: 1".to_string(), "=== Processed 1 mails".to_string()]
    );
}

#[test]
fn the_subject_is_rendered_before_the_body() {
    let mut run = driver(&[("SUBJECT", "{{fax}}")], "{{phone}}", "A,a@x.com,1\n");
    expect_rest(run.step(Event::Proceed));
    assert!(matches!(run.outcomes()[0].failure, Some(Failure::Subject(_))));
}

#[test]
fn an_empty_table_finishes_at_once() {
    let mut run = driver(&[], "{{data}}", "");
    assert_eq!(expect_finish(run.step(Event::Proceed)), vec!["=== Processed 0 mails".to_string()]);
    assert_eq!(run.attempted(), 0);
    assert_eq!(run.step(Event::Proceed), Action::Rejected);
}

#[test]
fn events_that_do_not_fit_are_rejected() {
    let mut run = driver(&[], "{{data}}", "A,a@x.com,1\n");
    assert_eq!(run.step(Event::Delivered), Action::Rejected);
    assert_eq!(run.step(Event::Refused("x".to_string())), Action::Rejected);
    assert_eq!(run.attempted(), 0);
    assert_eq!(run.phase(), Phase::Waiting);
    expect_send(run.step(Event::Proceed));
    assert_eq!(run.step(Event::Proceed), Action::Rejected);
    assert_eq!(run.phase(), Phase::Sending);
    assert_eq!(run.attempted(), 0);
    expect_rest(run.step(Event::Delivered));
    assert_eq!(run.step(Event::Delivered), Action::Rejected);
    expect_finish(run.step(Event::Proceed));
    assert_eq!(run.step(Event::Proceed), Action::Rejected);
    assert_eq!(run.step(Event::Delivered), Action::Rejected);
    assert_eq!(run.phase(), Phase::Finished);
    assert_eq!(run.attempted(), 1);
}

#[test]
fn a_sender_that_is_no_address_stops_the_run_before_it_starts() {
    let settings = config(&[("FROM", "nobody")]);
    let renderer = Renderer::new("", "x").unwrap();
    let made = Driver::new(settings, renderer, read_csv_file(TWO).unwrap(), Vec::new());
    assert_eq!(made.err(), Some(AddressField::From));
}

#[test]
fn every_message_carries_the_attachment() {
    let settings = config(&[("ATTACHMENT", "docs/terms.pdf"), ("HTML", "true"), ("SUBJECT", "For {{name}}")]);
    let renderer = Renderer::new(&settings.subject, "<p>{{data}}</p>").unwrap();
    let bytes = vec![37u8, 80, 68, 70, 0, 255];
    let mut run = Driver::new(settings, renderer, read_csv_file(TWO).unwrap(), bytes.clone()).unwrap();
    let (_, first) = expect_send(run.step(Event::Proceed));
    assert_eq!(first.part_count(), 2);
    assert_eq!(first.kind, ContentKind::Html);
    assert_eq!(first.subject, "For Alice");
    assert_eq!(first.body, "<p>TOKEN1</p>");
    let attached = first.attachment.unwrap();
    assert_eq!(attached.file_name, "terms.pdf");
    assert_eq!(attached.bytes, bytes);
    expect_rest(run.step(Event::Delivered));
    let (_, second) = expect_send(run.step(Event::Proceed));
    assert_eq!(second.attachment.unwrap().bytes, bytes);
}

#[test]
fn the_file_counts_for_nothing_without_the_setting() {
    let settings = config(&[]);
    let renderer = Renderer::new("", "x").unwrap();
    let mut run = Driver::new(settings, renderer, read_csv_file(TWO).unwrap(), vec![1, 2, 3]).unwrap();
    let (_, first) = expect_send(run.step(Event::Proceed));
    assert_eq!(first.part_count(), 1);
    assert_eq!(first.attachment, None);
}

#[test]
fn comments_are_never_attempted() {
    let table = "#name,email,data\nA,a@x.com,1\n#B,b@x.com,2\n\"#C\",c@x.com,3\nD,d@x.com,4\n";
    let mut run = driver(&[("DELAY", "0")], "{{name}}", table);
    assert_eq!(run.records().len(), 2);
    let (_, first) = expect_send(run.step(Event::Proceed));
    assert_eq!(first.body, "A");
    expect_rest(run.step(Event::Delivered));
    let (_, second) = expect_send(run.step(Event::Proceed));
    assert_eq!(second.body, "D");
    expect_rest(run.step(Event::Delivered));
    assert_eq!(expect_finish(run.step(Event::Proceed)), vec!["=== Processed 2 mails".to_string()]);
}

#[test]
fn the_steps_can_be_taken_one_by_one() {
    let mut run = driver(&[("DELAY", "2")], "{{data}}", TWO);
    let alice = RecipientRecord { name: "Alice".into(), email: "alice@x.com".into(), data: "TOKEN1".into() };
    let settings = config(&[("DELAY", "2")]);
    let renderer = Renderer::new("", "{{data}}").unwrap();
    let prepared = prepare(&settings, &renderer, &alice, &None);
    assert_eq!(prepared.as_ref().unwrap().body, "TOKEN1");
    let (announce, message) = expect_send(run.begin(prepared));
    assert_eq!(announce, "--- Sending to: \"Alice\" <alice@x.com> ");
    assert_eq!(message.body, "TOKEN1");
    assert_eq!(expect_rest(run.settle(None)), (String::new(), 2));
    let (note, _) = expect_rest(run.begin(Err(Failure::Address(AddressField::Cc))));
    assert_eq!(note, "--- Sending to: \"Bob\" <bob@x.com> ### Failed: invalid CC address");
    assert_eq!(
        expect_finish(run.finish()),
        vec!["### Failed to send: 1".to_string(), "=== Processed 2 mails".to_string()]
    );
}

#[test]
fn prepare_reports_the_first_failure() {
    let settings = config(&[("REPLY_TO", "nowhere")]);
    let renderer = Renderer::new("", "{{data}}").unwrap();
    let alice = RecipientRecord { name: "Alice".into(), email: "alice@x.com".into(), data: "1".into() };
    assert_eq!(prepare(&settings, &renderer, &alice, &None), Err(Failure::Address(AddressField::ReplyTo)));
}

#[test]
fn the_words_for_failures() {
    assert_eq!(describe_failure(&Failure::Subject("s".to_string())), "s");
    assert_eq!(describe_failure(&Failure::Body("b".to_string())), "b");
    assert_eq!(describe_failure(&Failure::Transport("t".to_string())), "t");
    assert_eq!(describe_failure(&Failure::Address(AddressField::From)), "invalid From address");
    assert_eq!(describe_failure(&Failure::Address(AddressField::To)), "invalid To address");
    assert_eq!(describe_failure(&Failure::Address(AddressField::ReplyTo)), "invalid Reply-To address");
    assert_eq!(describe_failure(&Failure::Address(AddressField::Cc)), "invalid CC address");
    assert_eq!(describe_failure(&Failure::Address(AddressField::Bcc)), "invalid BCC address");
    assert_eq!(note_failure(&Failure::Transport("t".to_string())), "### Failed: t");
}

#[test]
fn the_announcement_names_the_recipient() {
    let bob = RecipientRecord { name: "Bob".into(), email: "bob@x.com".into(), data: "".into() };
    assert_eq!(announce(&bob), "--- Sending to: \"Bob\" <bob@x.com> ");
}

#[test]
fn the_report_counts() {
    assert_eq!(report(0, 0), vec!["=== Processed 0 mails".to_string()]);
    assert_eq!(report(12, 0), vec!["=== Processed 12 mails".to_string()]);
    assert_eq!(
        report(12, 3),
        vec!["### Failed to send: 3".to_string(), "=== Processed 12 mails".to_string()]
    );
}

#[test]
fn the_sender_check_can_be_handed_in() {
    let renderer = Renderer::new("", "x").unwrap();
    let refused = Driver::with_sender_checked(config(&[]), renderer, Vec::new(), Vec::new(), false);
    assert_eq!(refused.err(), Some(AddressField::From));
    let renderer = Renderer::new("", "x").unwrap();
    let mut run =
        Driver::with_sender_checked(config(&[("FROM", "nobody")]), renderer, Vec::new(), Vec::new(), true)
            .unwrap();
    assert_eq!(run.attempted(), 0);
    assert_eq!(expect_finish(run.step(Event::Proceed)), vec!["=== Processed 0 mails".to_string()]);
}

#[test]
fn the_rest_follows_the_last_attempt_too() {
    let mut run = driver(&[("DELAY", "9")], "{{data}}", "A,a@x.com,1\n");
    expect_send(run.step(Event::Proceed));
    assert_eq!(expect_rest(run.step(Event::Delivered)), (String::new(), 9));
    assert_eq!(run.phase(), Phase::Waiting);
    assert_eq!(expect_finish(run.step(Event::Proceed)), vec!["=== Processed 1 mails".to_string()]);
}
