use each::action::{question, Action, RenderFailure, Slot, TemplateFailure, NO_PARTIALS};
use each::command::{describe_run, Command};
use each::templates::includes_partial;
use each::errors::ErrorClass;
use each::scheduler::{
    first_error, io_failed, prepare_record, run_failed, Prepared, RecordEvent, RecordState, Work,
};
use each::errors::EachError;
use serde_json::Value;

fn value(text: &str) -> Value {
    serde_json::from_str(text).unwrap()
}

fn strings(words: &[&str]) -> Vec<String> {
    words.iter().map(|w| w.to_string()).collect()
}

fn bart() -> Value {
    value(r#"{"name":"Bart","email":"bart@example.com"}"#)
}

fn echo(templates: &[&str]) -> Action {
    Action::new("echo".to_string(), None, strings(templates), false, false).unwrap()
}

fn stdout_of(cmd: Command) -> String {
    run_of(cmd.exec())
}

fn run_of(cmd: subprocess::Exec) -> String {
    let captured = cmd.capture().unwrap();
    assert!(captured.success());
    captured.stdout_str()
}

#[test]
fn an_action_renders_its_arguments_for_a_record() {
    let action = echo(&["-n", "{{name}} <{{email}}>", "fixed"]);
    let cmd = action.prepare(&bart()).unwrap();
    assert_eq!(cmd.line(), "echo -n 'Bart <bart@example.com>' fixed");
    assert_eq!(stdout_of(cmd), "Bart <bart@example.com> fixed");
}

#[test]
fn an_action_without_arguments_runs_the_program_alone() {
    let action = echo(&[]);
    let cmd = action.prepare(&bart()).unwrap();
    assert_eq!(cmd.line(), "echo");
    assert_eq!(stdout_of(cmd), "\n");
}

#[test]
fn an_action_feeds_the_rendered_stdin() {
    let action = Action::new(
        "cat".to_string(),
        Some("to: {{email}}\n".to_string()),
        vec![],
        false,
        false,
    )
    .unwrap();
    assert_eq!(stdout_of(action.prepare(&bart()).unwrap()), "to: bart@example.com\n");
}

#[test]
fn more_than_ten_arguments_keep_their_order() {
    let templates: Vec<String> = (0..12).map(|i| format!("{{{{f{}}}}}", i)).collect();
    let action = Action::new("echo".to_string(), None, templates, false, false).unwrap();
    let record = value(
        r#"{"f0":"a","f1":"b","f2":"c","f3":"d","f4":"e","f5":"f","f6":"g","f7":"h","f8":"i","f9":"j","f10":"k","f11":"l"}"#,
    );
    let cmd = action.prepare(&record).unwrap();
    assert_eq!(cmd.line(), "echo a b c d e f g h i j k l");
}

#[test]
fn a_malformed_argument_is_named() {
    let templates = strings(&["ok", "{{name", "{{#if"]);
    let r = Action::new("echo".to_string(), None, templates, false, false);
    match r {
        Err(TemplateFailure { slot, message }) => {
            assert_eq!(slot, Slot::Arg(1));
            assert!(!message.is_empty());
        }
        Ok(_) => panic!("the second argument is no template"),
    }
}

#[test]
fn a_malformed_stdin_is_named_before_an_argument() {
    let r = Action::new(
        "echo".to_string(),
        Some("{{#each x}}".to_string()),
        strings(&["{{name"]),
        true,
        true,
    );
    assert!(matches!(r, Err(TemplateFailure { slot: Slot::Stdin, .. })));
    let stdin = Some("{{x}}".to_string());
    let r = Action::new("echo".to_string(), stdin, strings(&["{{"]), true, true);
    assert!(matches!(r, Err(TemplateFailure { slot: Slot::Arg(0), .. })));
}

#[test]
fn a_field_that_the_record_lacks_fails_the_rendering() {
    let action = echo(&["{{name}}", "{{phone}}", "{{fax}}"]);
    match action.prepare(&bart()) {
        Err(RenderFailure { slot, message }) => {
            assert_eq!(slot, Slot::Arg(1));
            assert!(!message.is_empty());
        }
        Ok(_) => panic!("the record has no phone"),
    }
    let stdin = Some("{{phone}}".to_string());
    let action = Action::new("cat".to_string(), stdin, vec![], false, false).unwrap();
    assert!(matches!(action.prepare(&bart()), Err(RenderFailure { slot: Slot::Stdin, .. })));
}

#[test]
fn the_flags_of_an_action() {
    let action = Action::new("echo".to_string(), None, vec![], true, false).unwrap();
    assert!(action.is_interactive());
    assert!(!action.shows_stdin());
    let action = echo(&[]);
    assert!(!action.is_interactive());
}

#[test]
fn the_question_is_the_command_line() {
    let action =
        Action::new("echo".to_string(), None, strings(&["{{name}}"]), true, false).unwrap();
    let cmd = action.prepare(&bart()).unwrap();
    assert_eq!(action.prompt(&cmd, &bart()).unwrap(), "echo Bart");
}

#[test]
fn the_question_shows_the_stdin_before_the_command_line() {
    let action = Action::new(
        "mail".to_string(),
        Some("Dear {{name}}".to_string()),
        strings(&["{{email}}"]),
        true,
        true,
    )
    .unwrap();
    assert!(action.shows_stdin());
    let cmd = action.prepare(&bart()).unwrap();
    assert_eq!(
        action.prompt(&cmd, &bart()).unwrap(),
        "# Stdin:\nDear Bart\n- Command:\nmail 'bart@example.com'\n"
    );
}

#[test]
fn a_question_without_a_stdin_template_fails() {
    let action = Action::new("echo".to_string(), None, vec![], true, true).unwrap();
    let cmd = action.prepare(&bart()).unwrap();
    assert!(matches!(action.prompt(&cmd, &bart()), Err(RenderFailure { slot: Slot::Stdin, .. })));
}

#[test]
fn slots_are_named_in_words() {
    assert_eq!(Slot::Arg(0).describe(), "argument 0");
    assert_eq!(Slot::Arg(12).describe(), "argument 12");
    assert_eq!(Slot::Stdin.describe(), "stdin");
}

#[test]
fn a_record_is_prepared_to_run_or_to_ask() {
    let action = echo(&["{{name}}"]);
    match prepare_record(&action, &bart()).unwrap() {
        Prepared::Run { cmd } => assert_eq!(cmd.line(), "echo Bart"),
        Prepared::Ask { .. } => panic!("the action does not ask"),
    }
    let action =
        Action::new("echo".to_string(), None, strings(&["{{name}}"]), true, false).unwrap();
    match prepare_record(&action, &bart()).unwrap() {
        Prepared::Ask { question, cmd } => {
            assert_eq!(question, "echo Bart");
            assert_eq!(cmd.line(), "echo Bart");
        }
        Prepared::Run { .. } => panic!("the action asks"),
    }
}

#[test]
fn a_record_that_does_not_render_is_a_data_error() {
    let action = echo(&["{{phone}}"]);
    let e = match prepare_record(&action, &bart()) {
        Err(e) => e,
        Ok(_) => panic!("the record has no phone"),
    };
    assert_eq!(e.class(), ErrorClass::Data);
    assert!(e.message().starts_with("failed to prepare command: argument 0: "));
    let action = Action::new("echo".to_string(), None, vec![], true, true).unwrap();
    let e = match prepare_record(&action, &bart()) {
        Err(e) => e,
        Ok(_) => panic!("there is no stdin to show"),
    };
    assert_eq!(e.class(), ErrorClass::Data);
    assert!(e.message().starts_with("failed to render stdin: "));
}

#[test]
fn a_record_goes_from_pending_to_done() {
    let mut state = RecordState::Pending;
    assert_eq!(state.work(), Work::Render);
    state = state.advance(RecordEvent::Rendered { ok: true }).unwrap();
    assert_eq!(state, RecordState::Rendered);
    assert_eq!(state.work(), Work::Confirm);
    state = state.advance(RecordEvent::Answered { run: true }).unwrap();
    assert_eq!(state, RecordState::Confirmed);
    assert_eq!(state.work(), Work::Launch);
    state = state.advance(RecordEvent::Ran { ok: true }).unwrap();
    assert_eq!(state, RecordState::Executed);
    assert_eq!(state.work(), Work::Close);
    state = state.advance(RecordEvent::Closed).unwrap();
    assert_eq!(state, RecordState::Done { failed: false });
    assert_eq!(state.work(), Work::Nothing);
    assert_eq!(state.advance(RecordEvent::Closed), None);
}

#[test]
fn a_declined_record_is_skipped_without_an_error() {
    let state = RecordState::Rendered.advance(RecordEvent::Answered { run: false }).unwrap();
    assert_eq!(state, RecordState::Declined);
    assert_eq!(state.work(), Work::Skip);
    assert_eq!(state.advance(RecordEvent::Closed), None);
    let state = state.advance(RecordEvent::Skipped).unwrap();
    assert_eq!(state, RecordState::Skipped);
    assert_eq!(state.work(), Work::Close);
    assert_eq!(state.advance(RecordEvent::Closed), Some(RecordState::Done { failed: false }));
}

#[test]
fn a_failed_record_is_done_with_an_error() {
    let state = RecordState::Pending.advance(RecordEvent::Rendered { ok: false }).unwrap();
    assert_eq!(state, RecordState::RenderFailed);
    assert_eq!(state.advance(RecordEvent::Closed), Some(RecordState::Done { failed: true }));
    let state = RecordState::Confirmed.advance(RecordEvent::Ran { ok: false }).unwrap();
    assert_eq!(state, RecordState::ExecutionFailed);
    assert_eq!(state.advance(RecordEvent::Closed), Some(RecordState::Done { failed: true }));
}

#[test]
fn an_event_out_of_turn_is_refused() {
    assert_eq!(RecordState::Pending.advance(RecordEvent::Ran { ok: true }), None);
    assert_eq!(RecordState::Pending.advance(RecordEvent::Answered { run: true }), None);
    assert_eq!(RecordState::Rendered.advance(RecordEvent::Ran { ok: true }), None);
    assert_eq!(RecordState::Declined.advance(RecordEvent::Ran { ok: true }), None);
    assert_eq!(RecordState::Confirmed.advance(RecordEvent::Closed), None);
    assert_eq!(RecordState::Executed.advance(RecordEvent::Rendered { ok: true }), None);
}

#[test]
fn the_failed_record_with_the_lowest_index_is_reported() {
    let outcomes = vec![
        Ok(()),
        Err(EachError::Data { message: "second".to_string() }),
        Ok(()),
        Err(EachError::Io { message: "fourth".to_string() }),
    ];
    let e = first_error(outcomes).unwrap_err();
    assert_eq!(e.class(), ErrorClass::Data);
    assert_eq!(e.message(), "second");
    assert!(first_error(vec![Ok(()), Ok(())]).is_ok());
    assert!(first_error(vec![]).is_ok());
    let e = first_error(vec![Err(EachError::Usage { message: "only".to_string() })]).unwrap_err();
    assert_eq!(e.message(), "only");
}

#[test]
fn failures_of_the_run_are_worded() {
    let e = run_failed("No such file or directory");
    assert_eq!(e.class(), ErrorClass::Data);
    assert_eq!(e.message(), "failed to run command: No such file or directory");
    let e = io_failed("people.csv", "permission denied");
    assert_eq!(e.class(), ErrorClass::Io);
    assert_eq!(e.message(), "people.csv: permission denied");
}

#[test]
fn a_run_is_described_by_program_arguments_and_stdin() {
    let cmd = describe_run("echo", &strings(&["a b", "c"]), None);
    assert_eq!(cmd.to_cmdline_lossy(), "echo 'a b' c");
    assert_eq!(run_of(cmd), "a b c\n");
    let cmd = describe_run("cat", &strings(&["-"]), Some("fed"));
    assert_eq!(cmd.to_cmdline_lossy(), "cat -");
    assert_eq!(run_of(cmd), "fed");
    assert_eq!(describe_run("true", &vec![], None).to_cmdline_lossy(), "true");
}

#[test]
fn a_question_is_worded_from_its_parts() {
    assert_eq!(question(None, "echo Bart"), "echo Bart");
    assert_eq!(question(None, ""), "");
    assert_eq!(
        question(Some("Dear Bart"), "mail bart"),
        "# Stdin:\nDear Bart\n- Command:\nmail bart\n"
    );
    assert_eq!(question(Some(""), "x"), "# Stdin:\n\n- Command:\nx\n");
}

fn shown(word: &str) -> String {
    Command { program: word.to_string(), args: vec![], stdin: None }.line()
}

#[test]
fn words_are_shown_plain_or_quoted() {
    assert_eq!(shown("plain-word_1.2,3/4"), "plain-word_1.2,3/4");
    assert_eq!(shown(""), "");
    assert_eq!(shown("two words"), "'two words'");
    assert_eq!(shown("it's"), r"'it'\''s'");
    assert_eq!(shown("'"), r"''\'''");
    assert_eq!(shown("\u{e9}"), "'\u{e9}'");
    let command =
        Command { program: "a b".to_string(), args: strings(&["", "c", "d'e"]), stdin: None };
    assert_eq!(command.line(), r"'a b'  c 'd'\''e'");
    // The text for the standard input is no part of the line.
    let fed = Command { program: "cat".to_string(), args: vec![], stdin: Some("x y".to_string()) };
    assert_eq!(fed.line(), "cat");
}

#[test]
fn a_command_is_described_for_the_process_crate() {
    let command = Command {
        program: "cat".to_string(),
        args: strings(&["-"]),
        stdin: Some("fed".to_string()),
    };
    assert_eq!(run_of(command.exec()), "fed");
}

#[test]
fn a_partial_is_found_where_a_tag_opens_with_it() {
    let with = [
        "{{> other}}", "a {{>x}} b", "{{~> x}}", "{{#> x}}{{/x}}", "{{ > x}}", "{{~#>x}}",
        "{{\n\t>x}}", "{{{{>x}}}}", "{{{> x}}}", "x{{{{ # ~ > y",
    ];
    for text in with {
        assert!(includes_partial(text), "{:?}", text);
    }
    let without = [
        "", "{{name}} <{{email}}>", "{{a}} > {{b}}", "{ {> x}}", "{{x >}}", "{{!> x}}",
        "{{#if a}}>{{/if}}", "{{#each x}}{{this}}{{/each}}", ">", "{{", "{{ ~#", "{{a}}{>",
    ];
    for text in without {
        assert!(!includes_partial(text), "{:?}", text);
    }
}

#[test]
fn templates_that_include_each_other_are_refused() {
    let r = Action::new("echo".to_string(), None, strings(&["{{> 1}}", "{{> 0}}"]), false, false);
    match r {
        Err(TemplateFailure { slot, message }) => {
            assert_eq!(slot, Slot::Arg(0));
            assert_eq!(message, NO_PARTIALS);
        }
        Ok(_) => panic!("the first argument includes a partial"),
    }
    let r = Action::new(
        "echo".to_string(),
        Some("{{#> layout}}x{{/layout}}".to_string()),
        strings(&["{{name}}"]),
        false,
        false,
    );
    assert!(matches!(r, Err(TemplateFailure { slot: Slot::Stdin, .. })));
    let r = Action::new(
        "echo".to_string(),
        None,
        strings(&["{{name}}", "{{> 1 a=1 b=2}}", "{{#each this}}{{@key}}{{/each}}"]),
        false,
        false,
    );
    assert!(matches!(r, Err(TemplateFailure { slot: Slot::Arg(1), .. })));
}

#[test]
fn each_walks_the_fields_of_a_record_in_their_order() {
    let action = echo(&["{{#each this}}{{@key}}={{this}};{{/each}}"]);
    let record = value(r#"{"zeta":"1","alpha":"2","mid":"3"}"#);
    for _ in 0..5 {
        let cmd = action.prepare(&record).unwrap();
        assert_eq!(cmd.args, vec!["zeta=1;alpha=2;mid=3;"]);
    }
}

#[test]
fn odd_templates_fail_or_render() {
    let templates = [
        "{{else}}", "{{#if a}}{{else}}{{else}}{{/if}}", "{{^}}", "{{#each}}", "{{/if}}",
        "{{#if a}}{{/each}}", "{{{{raw}}}}", "{{{{raw}}}} {{a}} {{{{/raw}}}}",
        "{{#*inline \"x\"}}y{{/inline}}", "{{*x}}", "{{a.[0]}}", "{{@root}}", "{{@root.name}}",
        "{{lookup}}", "{{lookup this \"name\"}}", "{{#with}}{{/with}}", "{{#with name}}{{this}}{{/with}}",
        "{{![}}", "{{!-- }} --}}", "\\{{a}}", "\\\\{{name}}", "{{'a'}}", "{{\"a\"}}", "{{1}}",
        "{{[a b]}}", "{{a=b}}", "{{#if}}{{/if}}", "{{#if name}}yes{{else}}no{{/if}}", "{{log name}}",
        "{{#each a as |b c|}}{{/each}}", "{{#each this as |v k|}}{{k}}{{/each}}", "{{a (b)}}",
        "{{(a)}}", "{{eq name \"Bart\"}}", "{{#unless x}}{{/unless}}", "{{~name~}}", "{{{name}}}",
        "{{&name}}", "{{this}}", "{{.}}", "{{../name}}", "{{name.length}}", "{{#each name}}{{/each}}",
        "{{len name}}", "{{not true}}", "{{gt 1 2}}", "{{and}}", "{{", "}}", "{{}}", "{{ }}", "{{#}}",
        "{{/}}", "{{# if}}{{/if}}", "{{@}}", "{{@index}}", "{{@key}}", "{{@first}}", "{{true}}",
        "{{null}}", "{{name}}{{", "{{#if a}}", "{{\u{e9}}}", "{{a.b.c.d}}", "{{[}}", "{{]}}",
    ];
    let record = value(r#"{"name":"Bart","email":"bart@example.com","list":[1,2],"o":{"k":"v"}}"#);
    let mut usable = 0;
    for template in templates {
        let stdin = Some(template.to_string());
        if let Ok(action) = Action::new("echo".to_string(), stdin, strings(&[template]), true, true) {
            usable += 1;
            if let Ok(cmd) = action.prepare(&record) {
                assert_eq!(cmd.stdin.as_deref(), Some(cmd.args[0].as_str()));
                assert!(action.prompt(&cmd, &record).is_ok());
            }
        }
    }
    assert!(usable > 10);
}
