use paint_type::tools::wizard::{PluginCapability, PluginLanguage, PluginType};
use paint_type::tools::wizard_flow::{
    advance, default_output_for, event_fits, non_interactive_config, parse_tags, start, WizardArgs, WizardEvent,
    WizardPrompt, WizardSession, WizardStep,
};

fn no_args() -> WizardArgs {
    WizardArgs {
        plugin_type: None,
        language: None,
        id: None,
        name: None,
        description: None,
        output: None,
        non_interactive: false,
        yes: false,
    }
}

fn text(s: &str) -> WizardEvent {
    WizardEvent::Text(s.to_string())
}

fn answer(s: WizardSession, e: WizardEvent) -> (WizardSession, WizardPrompt) {
    advance(s, e)
}

#[test]
fn full_interactive_run_collects_every_answer() {
    let (s, p) = start(no_args());
    assert_eq!(s.step, WizardStep::ChooseType);
    match p {
        WizardPrompt::Select { prompt, options } => {
            assert_eq!(prompt, "Plugin type:");
            assert_eq!(options.len(), 2);
        }
        other => panic!("unexpected {other:?}"),
    }
    let (s, _) = answer(s, WizardEvent::Selected(1));
    let (s, _) = answer(s, WizardEvent::Selected(2));
    assert_eq!(s.step, WizardStep::EnterId);
    let (s, p) = answer(s, text("nodots"));
    assert_eq!(s.step, WizardStep::EnterId, "an invalid id is asked again");
    assert!(matches!(p, WizardPrompt::Input { allow_empty: false, .. }));
    let (s, _) = answer(s, text("com.example.brush"));
    let (s, _) = answer(s, text("Soft Brush"));
    let (s, p) = answer(s, text("0.2.0"));
    assert!(matches!(p, WizardPrompt::Input { ref prompt, .. } if prompt == "Short description:"));
    let (s, _) = answer(s, text("A soft brush"));
    let (s, _) = answer(s, text(""));
    let (s, _) = answer(s, text("Ada"));
    let (s, _) = answer(s, text("ada@example.com"));
    let (s, _) = answer(s, text("_start"));
    let (s, p) = answer(s, WizardEvent::Selected(1));
    assert_eq!(s.step, WizardStep::ChooseCapabilities);
    assert!(matches!(p, WizardPrompt::MultiSelect { ref options, .. } if options.len() == 8));
    let (s, _) = answer(s, WizardEvent::Picked(vec![0, 7]));
    let (s, p) = answer(s, text(" paint , ,brush "));
    match p {
        WizardPrompt::Input { prompt, default, allow_empty } => {
            assert_eq!(prompt, "Output directory (default: ./plugin-soft-brush:");
            assert_eq!(default.as_deref(), Some("./plugin-soft-brush"));
            assert!(!allow_empty);
        }
        other => panic!("unexpected {other:?}"),
    }
    let (s, _) = answer(s, text("./out"));
    let (s, _) = answer(s, WizardEvent::Answered(false));
    assert_eq!(s.step, WizardStep::ConfirmSummary);
    let (s, p) = answer(s, WizardEvent::Answered(true));
    assert_eq!(s.step, WizardStep::Finished);
    assert!(matches!(p, WizardPrompt::Done));

    let c = s.config;
    assert_eq!(c.plugin_type, PluginType::Tool);
    assert_eq!(c.language, PluginLanguage::Idris2);
    assert_eq!(c.id, "com.example.brush");
    assert_eq!(c.name, "Soft Brush");
    assert_eq!(c.version, "0.2.0");
    assert_eq!(c.long_description, None);
    assert_eq!(c.author_email.as_deref(), Some("ada@example.com"));
    assert_eq!(c.license, "MIT");
    assert_eq!(c.capabilities, vec![PluginCapability::CanvasRead, PluginCapability::PersistentStorage]);
    assert_eq!(c.tags, vec!["paint".to_string(), "brush".to_string()]);
    assert_eq!(c.output_dir, "./out");
    assert!(!c.create_minter);
}

#[test]
fn command_line_answers_are_not_asked_again() {
    let args = WizardArgs {
        plugin_type: Some(PluginType::Effect),
        language: Some(PluginLanguage::Rust),
        id: Some("org.paint.blur".to_string()),
        name: Some("Blur".to_string()),
        description: None,
        output: None,
        non_interactive: false,
        yes: true,
    };
    let (s, p) = start(args);
    assert_eq!(s.step, WizardStep::EnterVersion);
    assert!(matches!(p, WizardPrompt::Input { ref default, .. } if default.as_deref() == Some("0.1.0")));
    assert_eq!(s.config.id, "org.paint.blur");
    let (s, _) = answer(s, text("1.0.0"));
    let (s, _) = answer(s, text("Blurs"));
    let (s, _) = answer(s, text("Long text"));
    let (s, _) = answer(s, text("Bo"));
    let (s, _) = answer(s, text(""));
    let (s, _) = answer(s, text("_start"));
    let (s, p) = answer(s, WizardEvent::Selected(5));
    assert_eq!(s.step, WizardStep::EnterCustomLicense);
    assert!(matches!(p, WizardPrompt::Input { ref prompt, .. } if prompt == "Enter custom license SPDX identifier:"));
    let (s, _) = answer(s, text("MPL-2.0"));
    let (s, _) = answer(s, WizardEvent::Picked(vec![]));
    let (s, _) = answer(s, text(""));
    let (s, _) = answer(s, text("./blur"));
    let (s, p) = answer(s, WizardEvent::Answered(true));
    assert_eq!(s.step, WizardStep::Finished, "--yes skips the summary confirmation");
    assert!(matches!(p, WizardPrompt::Done));
    assert_eq!(s.config.license, "MPL-2.0");
    assert_eq!(s.config.long_description.as_deref(), Some("Long text"));
    assert!(s.config.tags.is_empty());
}

#[test]
fn invalid_command_line_id_fails_the_wizard() {
    let mut args = no_args();
    args.plugin_type = Some(PluginType::Tool);
    args.language = Some(PluginLanguage::Zig);
    args.id = Some(".bad.".to_string());
    let (s, p) = start(args);
    assert_eq!(s.step, WizardStep::Failed);
    match p {
        WizardPrompt::Failed { message } => assert_eq!(message, "Plugin ID cannot start or end with a dot"),
        other => panic!("unexpected {other:?}"),
    }
}

#[test]
fn empty_required_answer_fails() {
    let (s, _) = start(no_args());
    let (s, _) = answer(s, WizardEvent::Selected(0));
    let (s, _) = answer(s, WizardEvent::Selected(0));
    let (s, p) = answer(s, text(""));
    assert_eq!(s.step, WizardStep::Failed);
    assert!(matches!(p, WizardPrompt::Failed { ref message } if message == "Input cannot be empty"));
}

#[test]
fn declining_the_summary_cancels() {
    let mut args = no_args();
    args.plugin_type = Some(PluginType::Effect);
    args.language = Some(PluginLanguage::Rust);
    args.id = Some("a.b".to_string());
    args.name = Some("N".to_string());
    args.description = Some("D".to_string());
    args.output = Some("./o".to_string());
    let (s, _) = start(args);
    assert_eq!(s.step, WizardStep::EnterVersion);
    let (s, _) = answer(s, text("0.1.0"));
    assert_eq!(s.step, WizardStep::EnterLongDescription);
    let (s, _) = answer(s, text(""));
    let (s, _) = answer(s, text("A"));
    let (s, _) = answer(s, text(""));
    let (s, _) = answer(s, text("_start"));
    let (s, _) = answer(s, WizardEvent::Selected(0));
    let (s, _) = answer(s, WizardEvent::Picked(vec![1]));
    let (s, p) = answer(s, text("x"));
    assert_eq!(s.step, WizardStep::ConfirmMinter, "the output directory came from the command line");
    assert!(matches!(p, WizardPrompt::Confirm { default: true, .. }));
    let (s, _) = answer(s, WizardEvent::Answered(true));
    let (s, p) = answer(s, WizardEvent::Answered(false));
    assert_eq!(s.step, WizardStep::Failed);
    assert!(matches!(p, WizardPrompt::Failed { ref message } if message == "Wizard cancelled by user"));
}

#[test]
fn non_interactive_requires_each_flag() {
    let mut args = no_args();
    args.non_interactive = true;
    assert_eq!(non_interactive_config(&args).unwrap_err(), "In non-interactive mode, --type is required");
    args.plugin_type = Some(PluginType::Tool);
    assert_eq!(non_interactive_config(&args).unwrap_err(), "In non-interactive mode, --id is required");
    args.id = Some("nodot".to_string());
    assert_eq!(
        non_interactive_config(&args).unwrap_err(),
        "Plugin ID must be in reverse domain notation (e.g., com.example.plugin)"
    );
    args.id = Some("com.x.y".to_string());
    assert_eq!(non_interactive_config(&args).unwrap_err(), "In non-interactive mode, --name is required");
    args.name = Some(String::new());
    assert_eq!(non_interactive_config(&args).unwrap_err(), "In non-interactive mode, --description is required");
    args.description = Some("d".to_string());
    assert_eq!(non_interactive_config(&args).unwrap_err(), "In non-interactive mode, --output is required");
    args.output = Some("./p".to_string());
    let c = non_interactive_config(&args).unwrap();
    assert_eq!(c.plugin_type, PluginType::Tool);
    assert_eq!(c.language, PluginLanguage::Rust);
    assert_eq!(c.output_dir, "./p");
    assert_eq!(c.version, "0.1.0");
    args.language = Some(PluginLanguage::TypeScript);
    assert_eq!(non_interactive_config(&args).unwrap().language, PluginLanguage::TypeScript);
}

#[test]
fn tags_are_trimmed_and_empty_ones_dropped() {
    assert_eq!(parse_tags("filter, blur, experimental"), vec!["filter", "blur", "experimental"]);
    assert_eq!(parse_tags(" a ,, b,"), vec!["a", "b"]);
    assert!(parse_tags(" , ").is_empty());
    assert!(parse_tags("").is_empty());
}

#[test]
fn default_output_lowercases_and_dashes() {
    assert_eq!(default_output_for("My Cool Plugin"), "./plugin-my-cool-plugin");
    assert_eq!(default_output_for("ÄB"), "./plugin-äb");
}

#[test]
fn answers_are_checked_against_the_question() {
    assert!(event_fits(WizardStep::ChooseType, &WizardEvent::Selected(1)));
    assert!(!event_fits(WizardStep::ChooseType, &WizardEvent::Selected(2)));
    assert!(event_fits(WizardStep::ChooseLanguage, &WizardEvent::Selected(3)));
    assert!(!event_fits(WizardStep::ChooseLanguage, &WizardEvent::Text("x".to_string())));
    assert!(event_fits(WizardStep::ChooseCapabilities, &WizardEvent::Picked(vec![0, 7])));
    assert!(!event_fits(WizardStep::ChooseCapabilities, &WizardEvent::Picked(vec![0, 8])));
    assert!(event_fits(WizardStep::EnterName, &WizardEvent::Text("Blur".to_string())));
    assert!(event_fits(WizardStep::ConfirmSummary, &WizardEvent::Answered(true)));
    assert!(!event_fits(WizardStep::Finished, &WizardEvent::Answered(true)));
}
