//! The plugin wizard's question-and-answer flow as a state machine: each
//! answer moves the session on and names the next question to ask, with
//! the answers given on the command line filled in without asking.

use vstd::prelude::*;
use crate::text::{chars_of, string_from_chars, trim, trim_range};
use crate::tools::minter::{replace_char, replace_char_exec, to_lowercase, unicode_lowercase};
use crate::tools::wizard::{
    texts_of, validate_id, validate_name, PluginCapability, PluginLanguage, PluginType, WizardConfig,
};

verus! {

//==============================================================================
// Answers to free-text questions
//==============================================================================

/// The pieces of `s` between commas, as `str::split(',')` gives them: one
/// more piece than there are commas.
pub open spec fn comma_pieces(s: Seq<char>) -> Seq<Seq<char>>
    decreases s.len(),
{
    if s.len() == 0 {
        seq![Seq::empty()]
    } else if s.last() == ',' {
        comma_pieces(s.drop_last()).push(Seq::empty())
    } else {
        let p = comma_pieces(s.drop_last());
        p.update(p.len() - 1, p.last().push(s.last()))
    }
}

/// The trimmed pieces, empty ones dropped.
pub open spec fn nonempty_trimmed(pieces: Seq<Seq<char>>) -> Seq<Seq<char>>
    decreases pieces.len(),
{
    if pieces.len() == 0 {
        Seq::empty()
    } else {
        let rest = nonempty_trimmed(pieces.drop_last());
        let t = trim(pieces.last());
        if t.len() > 0 {
            rest.push(t)
        } else {
            rest
        }
    }
}

/// The tags of a comma-separated answer: each piece trimmed, empty pieces
/// dropped.
pub open spec fn tag_list(answer: Seq<char>) -> Seq<Seq<char>> {
    nonempty_trimmed(comma_pieces(answer))
}

proof fn lemma_comma_pieces_nonempty(s: Seq<char>)
    ensures
        comma_pieces(s).len() >= 1,
    decreases s.len(),
{
    if s.len() > 0 {
        lemma_comma_pieces_nonempty(s.drop_last());
    }
}

/// Split a comma-separated answer into its tags.
pub fn parse_tags(answer: &str) -> (tags: Vec<String>)
    ensures
        texts_of(tags@) == tag_list(answer@),
{
    let v = chars_of(answer);
    let n = v.len();
    let mut tags: Vec<String> = Vec::new();
    let mut start: usize = 0;
    let mut i: usize = 0;
    let ghost mut done: Seq<Seq<char>> = Seq::empty();
    assert(v@.take(0) =~= Seq::<char>::empty());
    assert(v@.subrange(0, 0) =~= Seq::<char>::empty());
    while i < n
        invariant
            n == v@.len(),
            v@ == answer@,
            start <= i <= n,
            comma_pieces(v@.take(i as int)) == done.push(v@.subrange(start as int, i as int)),
            texts_of(tags@) == nonempty_trimmed(done),
        decreases n - i,
    {
        proof {
            lemma_comma_pieces_nonempty(v@.take(i as int));
            assert(v@.take(i + 1).drop_last() =~= v@.take(i as int));
            assert(v@.take(i + 1).last() == v@[i as int]);
        }
        if v[i] == ',' {
            let (a, b) = trim_range(&v, start, i);
            let ghost piece = v@.subrange(start as int, i as int);
            proof {
                assert(done.push(piece).drop_last() =~= done);
                assert(done.push(piece).last() == piece);
            }
            if a < b {
                let t = string_from_chars(&v, a, b);
                tags.push(t);
                proof {
                    assert(texts_of(tags@) =~= texts_of(tags@).drop_last().push(t@));
                    assert(texts_of(tags@).drop_last() =~= nonempty_trimmed(done));
                }
            } else {
                proof {
                    assert(v@.subrange(a as int, b as int).len() == 0);
                }
            }
            proof {
                done = done.push(piece);
                assert(v@.subrange(i + 1, i + 1) =~= Seq::<char>::empty());
            }
            start = i + 1;
        } else {
            proof {
                assert(v@.subrange(start as int, i + 1) =~= v@.subrange(start as int, i as int).push(v@[i as int]));
                assert(done.push(v@.subrange(start as int, i as int)).update(done.len() as int, v@.subrange(start as int, i + 1)) =~= done.push(v@.subrange(start as int, i + 1)));
            }
        }
        i += 1;
    }
    assert(v@.take(n as int) =~= v@);
    let (a, b) = trim_range(&v, start, n);
    let ghost piece = v@.subrange(start as int, n as int);
    proof {
        assert(done.push(piece).drop_last() =~= done);
        assert(done.push(piece).last() == piece);
    }
    if a < b {
        let t = string_from_chars(&v, a, b);
        tags.push(t);
        proof {
            assert(texts_of(tags@) =~= texts_of(tags@).drop_last().push(t@));
            assert(texts_of(tags@).drop_last() =~= nonempty_trimmed(done));
        }
    }
    tags
}

/// The output directory offered by default: `./plugin-` and the name in
/// lower case with spaces made dashes.
pub open spec fn default_output_dir(name: Seq<char>) -> Seq<char> {
    "./plugin-"@ + replace_char(unicode_lowercase(name), ' ', '-')
}

/// The output directory offered by default for a plugin called `name`.
pub fn default_output_for(name: &str) -> (d: String)
    ensures
        d@ == default_output_dir(name@),
{
    let lower = to_lowercase(name);
    let dashed = replace_char_exec(lower.as_str(), ' ', '-');
    let mut d = String::from_str("./plugin-");
    d.append(dashed.as_str());
    d
}

//==============================================================================
// The session
//==============================================================================

/// The content of a wizard configuration.
pub struct WizardConfigView {
    pub plugin_type: PluginType,
    pub language: PluginLanguage,
    pub id: Seq<char>,
    pub version: Seq<char>,
    pub name: Seq<char>,
    pub description: Seq<char>,
    pub long_description: Option<Seq<char>>,
    pub author: Seq<char>,
    pub author_email: Option<Seq<char>>,
    pub wasm_entry: Seq<char>,
    pub license: Seq<char>,
    pub homepage: Option<Seq<char>>,
    pub icon: Option<Seq<char>>,
    pub capabilities: Seq<PluginCapability>,
    pub tags: Seq<Seq<char>>,
    pub output_dir: Seq<char>,
    pub create_minter: bool,
}

/// The text of an optional string.
pub open spec fn opt_text(o: Option<String>) -> Option<Seq<char>> {
    match o {
        Some(s) => Some(s@),
        None => None,
    }
}

impl View for WizardConfig {
    type V = WizardConfigView;

    open spec fn view(&self) -> WizardConfigView {
        WizardConfigView {
            plugin_type: self.plugin_type,
            language: self.language,
            id: self.id@,
            version: self.version@,
            name: self.name@,
            description: self.description@,
            long_description: opt_text(self.long_description),
            author: self.author@,
            author_email: opt_text(self.author_email),
            wasm_entry: self.wasm_entry@,
            license: self.license@,
            homepage: opt_text(self.homepage),
            icon: opt_text(self.icon),
            capabilities: self.capabilities@,
            tags: texts_of(self.tags@),
            output_dir: self.output_dir@,
            create_minter: self.create_minter,
        }
    }
}

/// The configuration the wizard starts from (`WizardConfig::default`).
pub open spec fn initial_config() -> WizardConfigView {
    WizardConfigView {
        plugin_type: PluginType::Effect,
        language: PluginLanguage::Rust,
        id: Seq::empty(),
        version: "0.1.0"@,
        name: Seq::empty(),
        description: Seq::empty(),
        long_description: None,
        author: Seq::empty(),
        author_email: None,
        wasm_entry: "_start"@,
        license: "AGPL-3.0-or-later"@,
        homepage: None,
        icon: None,
        capabilities: Seq::empty(),
        tags: Seq::empty(),
        output_dir: Seq::empty(),
        create_minter: true,
    }
}

/// What the command line already answered.
#[derive(Clone, Debug)]
pub struct WizardArgs {
    pub plugin_type: Option<PluginType>,
    pub language: Option<PluginLanguage>,
    pub id: Option<String>,
    pub name: Option<String>,
    pub description: Option<String>,
    pub output: Option<String>,
    pub non_interactive: bool,
    /// Skip the final confirmation.
    pub yes: bool,
}

/// The question a session is waiting on, or how it ended.
#[derive(Clone, Copy, Debug, PartialEq, Eq, Structural)]
pub enum WizardStep {
    ChooseType,
    ChooseLanguage,
    EnterId,
    EnterName,
    EnterVersion,
    EnterDescription,
    EnterLongDescription,
    EnterAuthor,
    EnterEmail,
    EnterWasmEntry,
    ChooseLicense,
    EnterCustomLicense,
    ChooseCapabilities,
    EnterTags,
    EnterOutput,
    ConfirmMinter,
    ConfirmSummary,
    Finished,
    Failed,
}

/// A wizard in progress.
#[derive(Clone, Debug)]
pub struct WizardSession {
    pub step: WizardStep,
    pub config: WizardConfig,
    pub args: WizardArgs,
    /// Why the wizard failed; empty otherwise.
    pub message: String,
}

/// The content of a session: where it stands, what it has collected, and
/// its failure message.
pub struct SessionView {
    pub step: WizardStep,
    pub config: WizardConfigView,
    pub message: Seq<char>,
}

impl View for WizardSession {
    type V = SessionView;

    open spec fn view(&self) -> SessionView {
        SessionView { step: self.step, config: self.config@, message: self.message@ }
    }
}

/// An answer from the user.
#[derive(Clone, Debug)]
pub enum WizardEvent {
    /// The index of the chosen option.
    Selected(usize),
    /// The indices of the chosen options.
    Picked(Vec<usize>),
    /// Typed text.
    Text(String),
    /// A yes or no.
    Answered(bool),
}

/// What to ask the user next, or how the wizard ended.
#[derive(Clone, Debug)]
pub enum WizardPrompt {
    Select { prompt: String, options: Vec<String> },
    MultiSelect { prompt: String, options: Vec<String> },
    Input { prompt: String, default: Option<String>, allow_empty: bool },
    Confirm { prompt: String, default: bool },
    Done,
    Failed { message: String },
}

/// The content of a prompt.
pub enum PromptView {
    Select { prompt: Seq<char>, options: Seq<Seq<char>> },
    MultiSelect { prompt: Seq<char>, options: Seq<Seq<char>> },
    Input { prompt: Seq<char>, default: Option<Seq<char>>, allow_empty: bool },
    Confirm { prompt: Seq<char>, default: bool },
    Done,
    Failed { message: Seq<char> },
}

impl View for WizardPrompt {
    type V = PromptView;

    open spec fn view(&self) -> PromptView {
        match self {
            WizardPrompt::Select { prompt, options } => PromptView::Select { prompt: prompt@, options: texts_of(options@) },
            WizardPrompt::MultiSelect { prompt, options } => PromptView::MultiSelect {
                prompt: prompt@,
                options: texts_of(options@),
            },
            WizardPrompt::Input { prompt, default, allow_empty } => PromptView::Input {
                prompt: prompt@,
                default: opt_text(*default),
                allow_empty: *allow_empty,
            },
            WizardPrompt::Confirm { prompt, default } => PromptView::Confirm { prompt: prompt@, default: *default },
            WizardPrompt::Done => PromptView::Done,
            WizardPrompt::Failed { message } => PromptView::Failed { message: message@ },
        }
    }
}


//==============================================================================
// Moving through the questions
//==============================================================================

/// The order of the steps.
pub open spec fn step_rank(s: WizardStep) -> int {
    match s {
        WizardStep::ChooseType => 0,
        WizardStep::ChooseLanguage => 1,
        WizardStep::EnterId => 2,
        WizardStep::EnterName => 3,
        WizardStep::EnterVersion => 4,
        WizardStep::EnterDescription => 5,
        WizardStep::EnterLongDescription => 6,
        WizardStep::EnterAuthor => 7,
        WizardStep::EnterEmail => 8,
        WizardStep::EnterWasmEntry => 9,
        WizardStep::ChooseLicense => 10,
        WizardStep::EnterCustomLicense => 11,
        WizardStep::ChooseCapabilities => 12,
        WizardStep::EnterTags => 13,
        WizardStep::EnterOutput => 14,
        WizardStep::ConfirmMinter => 15,
        WizardStep::ConfirmSummary => 16,
        WizardStep::Finished => 17,
        WizardStep::Failed => 18,
    }
}

/// A session waiting at `step`.
pub open spec fn waiting(step: WizardStep, c: WizardConfigView) -> SessionView {
    SessionView { step, config: c, message: Seq::empty() }
}

/// A session that failed with `m`.
pub open spec fn failed_with(c: WizardConfigView, m: Seq<char>) -> SessionView {
    SessionView { step: WizardStep::Failed, config: c, message: m }
}

/// A plugin id `validate_id` accepts.
pub open spec fn id_ok(id: Seq<char>) -> bool {
    id.len() > 0 && id.contains('.') && id[0] != '.' && id.last() != '.'
}

/// Why `validate_id` refuses an id.
pub open spec fn id_error(id: Seq<char>) -> Seq<char> {
    if id.len() == 0 {
        "Plugin ID cannot be empty"@
    } else if !id.contains('.') {
        "Plugin ID must be in reverse domain notation (e.g., com.example.plugin)"@
    } else {
        "Plugin ID cannot start or end with a dot"@
    }
}

/// Arrive at `step`: the steps the command line answered are filled in
/// (a refused id or an empty name ends the wizard), and the session waits
/// at the first question left to ask.
pub open spec fn enter(step: WizardStep, c: WizardConfigView, a: WizardArgs) -> SessionView
    decreases 20 - step_rank(step),
{
    match step {
        WizardStep::ChooseType => match a.plugin_type {
            Some(t) => enter(WizardStep::ChooseLanguage, WizardConfigView { plugin_type: t, ..c }, a),
            None => waiting(step, c),
        },
        WizardStep::ChooseLanguage => match a.language {
            Some(l) => enter(WizardStep::EnterId, WizardConfigView { language: l, ..c }, a),
            None => waiting(step, c),
        },
        WizardStep::EnterId => match a.id {
            Some(id) => if id_ok(id@) {
                enter(WizardStep::EnterName, WizardConfigView { id: id@, ..c }, a)
            } else {
                failed_with(WizardConfigView { id: id@, ..c }, id_error(id@))
            },
            None => waiting(step, c),
        },
        WizardStep::EnterName => match a.name {
            Some(n) => if n@.len() > 0 {
                enter(WizardStep::EnterVersion, WizardConfigView { name: n@, ..c }, a)
            } else {
                failed_with(WizardConfigView { name: n@, ..c }, "Plugin name cannot be empty"@)
            },
            None => waiting(step, c),
        },
        WizardStep::EnterDescription => match a.description {
            Some(d) => enter(WizardStep::EnterLongDescription, WizardConfigView { description: d@, ..c }, a),
            None => waiting(step, c),
        },
        WizardStep::EnterOutput => match a.output {
            Some(o) => enter(WizardStep::ConfirmMinter, WizardConfigView { output_dir: o@, ..c }, a),
            None => waiting(step, c),
        },
        WizardStep::ConfirmSummary => if a.yes {
            waiting(WizardStep::Finished, c)
        } else {
            waiting(step, c)
        },
        _ => waiting(step, c),
    }
}


fn waiting_at(step: WizardStep, config: WizardConfig, args: WizardArgs) -> (s: WizardSession)
    ensures
        s@ == waiting(step, config@),
        s.args == args,
{
    let s = WizardSession { step, config, args, message: String::new() };
    assert(s@.message =~= Seq::<char>::empty());
    s
}

/// Arrive at `step` with `config` collected so far.
fn enter_exec(step: WizardStep, config: WizardConfig, args: WizardArgs) -> (s: WizardSession)
    ensures
        s@ == enter(step, config@, args),
        s.args == args,
    decreases 20 - step_rank(step),
{
    let mut config = config;
    match step {
        WizardStep::ChooseType => match args.plugin_type {
            Some(t) => {
                config.plugin_type = t;
                enter_exec(WizardStep::ChooseLanguage, config, args)
            },
            None => waiting_at(step, config, args),
        },
        WizardStep::ChooseLanguage => match args.language {
            Some(l) => {
                config.language = l;
                enter_exec(WizardStep::EnterId, config, args)
            },
            None => waiting_at(step, config, args),
        },
        WizardStep::EnterId => match &args.id {
            Some(id) => {
                config.id = id.clone();
                match validate_id(id.as_str()) {
                    Ok(()) => enter_exec(WizardStep::EnterName, config, args),
                    Err(m) => WizardSession { step: WizardStep::Failed, config, args, message: m },
                }
            },
            None => waiting_at(step, config, args),
        },
        WizardStep::EnterName => match &args.name {
            Some(n) => {
                config.name = n.clone();
                match validate_name(n.as_str()) {
                    Ok(()) => enter_exec(WizardStep::EnterVersion, config, args),
                    Err(m) => WizardSession { step: WizardStep::Failed, config, args, message: m },
                }
            },
            None => waiting_at(step, config, args),
        },
        WizardStep::EnterDescription => match &args.description {
            Some(d) => {
                config.description = d.clone();
                enter_exec(WizardStep::EnterLongDescription, config, args)
            },
            None => waiting_at(step, config, args),
        },
        WizardStep::EnterOutput => match &args.output {
            Some(o) => {
                config.output_dir = o.clone();
                enter_exec(WizardStep::ConfirmMinter, config, args)
            },
            None => waiting_at(step, config, args),
        },
        WizardStep::ConfirmSummary => if args.yes {
            waiting_at(WizardStep::Finished, config, args)
        } else {
            waiting_at(step, config, args)
        },
        _ => waiting_at(step, config, args),
    }
}


//==============================================================================
// The questions
//==============================================================================

/// The licence options, the last of which asks for an identifier.
pub open spec fn license_options() -> Seq<Seq<char>> {
    seq!["AGPL-3.0-or-later"@, "MIT"@, "Apache-2.0"@, "GPL-3.0-or-later"@, "BSD-3-Clause"@, "Other"@]
}

/// The capability options, in the order `capability_at` reads them.
pub open spec fn capability_options() -> Seq<Seq<char>> {
    seq![
        "Canvas Read"@,
        "Canvas Write"@,
        "Layer Access"@,
        "Selection Access"@,
        "File Access"@,
        "Network Access"@,
        "User Interface"@,
        "Persistent Storage"@,
    ]
}

/// A question that must be answered with non-empty text.
pub open spec fn required(prompt: Seq<char>, default: Seq<char>) -> PromptView {
    PromptView::Input { prompt, default: Some(default), allow_empty: false }
}

/// A question that may be skipped with empty text.
pub open spec fn optional(prompt: Seq<char>) -> PromptView {
    PromptView::Input { prompt, default: None, allow_empty: true }
}

/// What a session asks next, or how it ended.
pub open spec fn prompt_of(s: SessionView) -> PromptView {
    match s.step {
        WizardStep::ChooseType => PromptView::Select {
            prompt: "Plugin type:"@,
            options: seq![
                "Effect (stateless transformations like filters)"@,
                "Tool (stateful interactive tools like brushes)"@,
            ],
        },
        WizardStep::ChooseLanguage => PromptView::Select {
            prompt: "Implementation language:"@,
            options: seq!["Rust"@, "Zig"@, "Idris2"@, "TypeScript"@],
        },
        WizardStep::EnterId => required("Plugin ID (reverse domain notation, e.g., com.example.myplugin):"@, ""@),
        WizardStep::EnterName => required("Plugin name (human-readable):"@, ""@),
        WizardStep::EnterVersion => required("Plugin version (default: 0.1.0):"@, "0.1.0"@),
        WizardStep::EnterDescription => required("Short description:"@, ""@),
        WizardStep::EnterLongDescription => optional("Long description (markdown, optional - press Enter to skip):"@),
        WizardStep::EnterAuthor => required("Author name:"@, ""@),
        WizardStep::EnterEmail => optional("Author email (optional - press Enter to skip):"@),
        WizardStep::EnterWasmEntry => required("WASM entry point (default: _start):"@, "_start"@),
        WizardStep::ChooseLicense => PromptView::Select { prompt: "License:"@, options: license_options() },
        WizardStep::EnterCustomLicense => required("Enter custom license SPDX identifier:"@, ""@),
        WizardStep::ChooseCapabilities => PromptView::MultiSelect {
            prompt: "Required capabilities (select with space, confirm with Enter):"@,
            options: capability_options(),
        },
        WizardStep::EnterTags => optional("Tags (comma-separated, e.g., filter, blur, experimental):"@),
        WizardStep::EnterOutput => required(
            "Output directory (default: "@ + default_output_dir(s.config.name) + ":"@,
            default_output_dir(s.config.name),
        ),
        WizardStep::ConfirmMinter => PromptView::Confirm { prompt: "Create minter.toml for reproducibility?"@, default: true },
        WizardStep::ConfirmSummary => PromptView::Confirm { prompt: "Does this look correct?"@, default: true },
        WizardStep::Finished => PromptView::Done,
        WizardStep::Failed => PromptView::Failed { message: s.message },
    }
}

fn owned_all(items: &[&str]) -> (v: Vec<String>)
    ensures
        v@.len() == items@.len(),
        forall|i: int| 0 <= i < items@.len() ==> #[trigger] v@[i]@ == items@[i]@,
{
    let mut v: Vec<String> = Vec::new();
    let mut i: usize = 0;
    while i < items.len()
        invariant
            i <= items@.len(),
            v@.len() == i,
            forall|k: int| 0 <= k < i ==> #[trigger] v@[k]@ == items@[k]@,
        decreases items@.len() - i,
    {
        v.push(items[i].to_owned());
        i += 1;
    }
    v
}

fn required_input(prompt: &str, default: &str) -> (p: WizardPrompt)
    ensures
        p@ == required(prompt@, default@),
{
    WizardPrompt::Input { prompt: prompt.to_owned(), default: Some(default.to_owned()), allow_empty: false }
}

fn optional_input(prompt: &str) -> (p: WizardPrompt)
    ensures
        p@ == optional(prompt@),
{
    WizardPrompt::Input { prompt: prompt.to_owned(), default: None, allow_empty: true }
}

/// What `session` asks next, or how it ended.
pub fn prompt_for(session: &WizardSession) -> (p: WizardPrompt)
    ensures
        p@ == prompt_of(session@),
{
    match session.step {
        WizardStep::ChooseType => {
            let options = owned_all(
                &["Effect (stateless transformations like filters)", "Tool (stateful interactive tools like brushes)"],
            );
            let p = WizardPrompt::Select { prompt: "Plugin type:".to_owned(), options };
            assert(texts_of(options@) =~= seq![
                "Effect (stateless transformations like filters)"@,
                "Tool (stateful interactive tools like brushes)"@,
            ]);
            p
        },
        WizardStep::ChooseLanguage => {
            let options = owned_all(&["Rust", "Zig", "Idris2", "TypeScript"]);
            let p = WizardPrompt::Select { prompt: "Implementation language:".to_owned(), options };
            assert(texts_of(options@) =~= seq!["Rust"@, "Zig"@, "Idris2"@, "TypeScript"@]);
            p
        },
        WizardStep::EnterId => required_input("Plugin ID (reverse domain notation, e.g., com.example.myplugin):", ""),
        WizardStep::EnterName => required_input("Plugin name (human-readable):", ""),
        WizardStep::EnterVersion => required_input("Plugin version (default: 0.1.0):", "0.1.0"),
        WizardStep::EnterDescription => required_input("Short description:", ""),
        WizardStep::EnterLongDescription => optional_input("Long description (markdown, optional - press Enter to skip):"),
        WizardStep::EnterAuthor => required_input("Author name:", ""),
        WizardStep::EnterEmail => optional_input("Author email (optional - press Enter to skip):"),
        WizardStep::EnterWasmEntry => required_input("WASM entry point (default: _start):", "_start"),
        WizardStep::ChooseLicense => {
            let options = owned_all(&["AGPL-3.0-or-later", "MIT", "Apache-2.0", "GPL-3.0-or-later", "BSD-3-Clause", "Other"]);
            let p = WizardPrompt::Select { prompt: "License:".to_owned(), options };
            assert(texts_of(options@) =~= license_options());
            p
        },
        WizardStep::EnterCustomLicense => required_input("Enter custom license SPDX identifier:", ""),
        WizardStep::ChooseCapabilities => {
            let options = owned_all(
                &[
                    "Canvas Read",
                    "Canvas Write",
                    "Layer Access",
                    "Selection Access",
                    "File Access",
                    "Network Access",
                    "User Interface",
                    "Persistent Storage",
                ],
            );
            let p = WizardPrompt::MultiSelect {
                prompt: "Required capabilities (select with space, confirm with Enter):".to_owned(),
                options,
            };
            assert(texts_of(options@) =~= capability_options());
            p
        },
        WizardStep::EnterTags => optional_input("Tags (comma-separated, e.g., filter, blur, experimental):"),
        WizardStep::EnterOutput => {
            let d = default_output_for(session.config.name.as_str());
            let mut prompt = String::from_str("Output directory (default: ");
            prompt.append(d.as_str());
            prompt.append(":");
            WizardPrompt::Input { prompt, default: Some(d), allow_empty: false }
        },
        WizardStep::ConfirmMinter => WizardPrompt::Confirm {
            prompt: "Create minter.toml for reproducibility?".to_owned(),
            default: true,
        },
        WizardStep::ConfirmSummary => WizardPrompt::Confirm { prompt: "Does this look correct?".to_owned(), default: true },
        WizardStep::Finished => WizardPrompt::Done,
        WizardStep::Failed => WizardPrompt::Failed { message: session.message.clone() },
    }
}


//==============================================================================
// Answers
//==============================================================================

/// The capability behind option `i` of the capability question.
pub open spec fn capability_at(i: int) -> PluginCapability {
    if i == 0 {
        PluginCapability::CanvasRead
    } else if i == 1 {
        PluginCapability::CanvasWrite
    } else if i == 2 {
        PluginCapability::LayerAccess
    } else if i == 3 {
        PluginCapability::SelectionAccess
    } else if i == 4 {
        PluginCapability::FileAccess
    } else if i == 5 {
        PluginCapability::NetworkAccess
    } else if i == 6 {
        PluginCapability::UserInterface
    } else {
        PluginCapability::PersistentStorage
    }
}

/// The capabilities behind the chosen options.
pub open spec fn picked_capabilities(picked: Seq<usize>) -> Seq<PluginCapability> {
    Seq::new(picked.len(), |k: int| capability_at(picked[k] as int))
}

/// An answer of the kind the session's question asks for: an option
/// index in range, every picked capability index in range, text for a
/// text question, yes or no for a confirmation.
pub open spec fn answer_fits(step: WizardStep, e: WizardEvent) -> bool {
    match step {
        WizardStep::ChooseType => e matches WizardEvent::Selected(i) && i < 2,
        WizardStep::ChooseLanguage => e matches WizardEvent::Selected(i) && i < 4,
        WizardStep::ChooseLicense => e is Selected,
        WizardStep::ChooseCapabilities => e matches WizardEvent::Picked(v) && forall|k: int|
            0 <= k < v@.len() ==> #[trigger] v@[k] < 8,
        WizardStep::ConfirmMinter | WizardStep::ConfirmSummary => e is Answered,
        WizardStep::Finished | WizardStep::Failed => false,
        _ => e is Text,
    }
}

/// Whether `e` answers the question asked at `step` (see `answer_fits`).
pub fn event_fits(step: WizardStep, e: &WizardEvent) -> (b: bool)
    ensures
        b == answer_fits(step, *e),
{
    match step {
        WizardStep::ChooseType => match e {
            WizardEvent::Selected(i) => *i < 2,
            _ => false,
        },
        WizardStep::ChooseLanguage => match e {
            WizardEvent::Selected(i) => *i < 4,
            _ => false,
        },
        WizardStep::ChooseLicense => match e {
            WizardEvent::Selected(_) => true,
            _ => false,
        },
        WizardStep::ChooseCapabilities => match e {
            WizardEvent::Picked(v) => {
                let mut k: usize = 0;
                while k < v.len()
                    invariant
                        k <= v@.len(),
                        step == WizardStep::ChooseCapabilities,
                        *e == WizardEvent::Picked(*v),
                        forall|j: int| 0 <= j < k ==> #[trigger] v@[j] < 8,
                    decreases v@.len() - k,
                {
                    if v[k] >= 8 {
                        assert(!(v@[k as int] < 8));
                        assert(match *e {
                            WizardEvent::Picked(w) => !(w@[k as int] < 8),
                            _ => false,
                        });
                        return false;
                    }
                    k += 1;
                }
                true
            },
            _ => false,
        },
        WizardStep::ConfirmMinter | WizardStep::ConfirmSummary => match e {
            WizardEvent::Answered(_) => true,
            _ => false,
        },
        WizardStep::Finished | WizardStep::Failed => false,
        _ => match e {
            WizardEvent::Text(_) => true,
            _ => false,
        },
    }
}

/// The text of a text answer.
pub open spec fn answer_text(e: WizardEvent) -> Seq<char> {
    match e {
        WizardEvent::Text(t) => t@,
        _ => Seq::empty(),
    }
}

/// A required text answer: empty text ends the wizard, other text moves
/// on to `then`.
pub open spec fn required_answer(c: WizardConfigView, t: Seq<char>, then: SessionView) -> SessionView {
    if t.len() == 0 {
        failed_with(c, "Input cannot be empty"@)
    } else {
        then
    }
}

/// Where an answer to the session's question leads.
pub open spec fn answered(s: SessionView, a: WizardArgs, e: WizardEvent) -> SessionView {
    let c = s.config;
    let t = answer_text(e);
    match s.step {
        WizardStep::ChooseType => match e {
            WizardEvent::Selected(i) => enter(
                WizardStep::ChooseLanguage,
                WizardConfigView { plugin_type: if i == 0 { PluginType::Effect } else { PluginType::Tool }, ..c },
                a,
            ),
            _ => s,
        },
        WizardStep::ChooseLanguage => match e {
            WizardEvent::Selected(i) => enter(
                WizardStep::EnterId,
                WizardConfigView {
                    language: if i == 0 {
                        PluginLanguage::Rust
                    } else if i == 1 {
                        PluginLanguage::Zig
                    } else if i == 2 {
                        PluginLanguage::Idris2
                    } else {
                        PluginLanguage::TypeScript
                    },
                    ..c
                },
                a,
            ),
            _ => s,
        },
        WizardStep::EnterId => required_answer(
            c,
            t,
            if id_ok(t) {
                enter(WizardStep::EnterName, WizardConfigView { id: t, ..c }, a)
            } else {
                waiting(WizardStep::EnterId, WizardConfigView { id: t, ..c })
            },
        ),
        WizardStep::EnterName => required_answer(
            c,
            t,
            enter(WizardStep::EnterVersion, WizardConfigView { name: t, ..c }, a),
        ),
        WizardStep::EnterVersion => required_answer(
            c,
            t,
            enter(WizardStep::EnterDescription, WizardConfigView { version: t, ..c }, a),
        ),
        WizardStep::EnterDescription => required_answer(
            c,
            t,
            enter(WizardStep::EnterLongDescription, WizardConfigView { description: t, ..c }, a),
        ),
        WizardStep::EnterLongDescription => enter(
            WizardStep::EnterAuthor,
            if t.len() > 0 { WizardConfigView { long_description: Some(t), ..c } } else { c },
            a,
        ),
        WizardStep::EnterAuthor => required_answer(
            c,
            t,
            enter(WizardStep::EnterEmail, WizardConfigView { author: t, ..c }, a),
        ),
        WizardStep::EnterEmail => enter(
            WizardStep::EnterWasmEntry,
            if t.len() > 0 { WizardConfigView { author_email: Some(t), ..c } } else { c },
            a,
        ),
        WizardStep::EnterWasmEntry => required_answer(
            c,
            t,
            enter(WizardStep::ChooseLicense, WizardConfigView { wasm_entry: t, ..c }, a),
        ),
        WizardStep::ChooseLicense => match e {
            WizardEvent::Selected(i) => if i < 5 {
                enter(WizardStep::ChooseCapabilities, WizardConfigView { license: license_options()[i as int], ..c }, a)
            } else {
                waiting(WizardStep::EnterCustomLicense, c)
            },
            _ => s,
        },
        WizardStep::EnterCustomLicense => required_answer(
            c,
            t,
            enter(WizardStep::ChooseCapabilities, WizardConfigView { license: t, ..c }, a),
        ),
        WizardStep::ChooseCapabilities => match e {
            WizardEvent::Picked(v) => enter(
                WizardStep::EnterTags,
                WizardConfigView { capabilities: picked_capabilities(v@), ..c },
                a,
            ),
            _ => s,
        },
        WizardStep::EnterTags => enter(
            WizardStep::EnterOutput,
            if t.len() > 0 { WizardConfigView { tags: tag_list(t), ..c } } else { c },
            a,
        ),
        WizardStep::EnterOutput => required_answer(
            c,
            t,
            enter(WizardStep::ConfirmMinter, WizardConfigView { output_dir: t, ..c }, a),
        ),
        WizardStep::ConfirmMinter => match e {
            WizardEvent::Answered(b) => enter(WizardStep::ConfirmSummary, WizardConfigView { create_minter: b, ..c }, a),
            _ => s,
        },
        WizardStep::ConfirmSummary => match e {
            WizardEvent::Answered(b) => if b {
                waiting(WizardStep::Finished, c)
            } else {
                failed_with(c, "Wizard cancelled by user"@)
            },
            _ => s,
        },
        _ => s,
    }
}


fn capability_at_exec(i: usize) -> (c: PluginCapability)
    ensures
        c == capability_at(i as int),
{
    if i == 0 {
        PluginCapability::CanvasRead
    } else if i == 1 {
        PluginCapability::CanvasWrite
    } else if i == 2 {
        PluginCapability::LayerAccess
    } else if i == 3 {
        PluginCapability::SelectionAccess
    } else if i == 4 {
        PluginCapability::FileAccess
    } else if i == 5 {
        PluginCapability::NetworkAccess
    } else if i == 6 {
        PluginCapability::UserInterface
    } else {
        PluginCapability::PersistentStorage
    }
}

fn capabilities_from(picked: &Vec<usize>) -> (caps: Vec<PluginCapability>)
    ensures
        caps@ == picked_capabilities(picked@),
{
    let mut caps: Vec<PluginCapability> = Vec::new();
    let mut k: usize = 0;
    while k < picked.len()
        invariant
            k <= picked@.len(),
            caps@ =~= picked_capabilities(picked@).take(k as int),
        decreases picked@.len() - k,
    {
        caps.push(capability_at_exec(picked[k]));
        k += 1;
    }
    caps
}

fn license_at(i: usize) -> (l: String)
    requires
        i < 5,
    ensures
        l@ == license_options()[i as int],
{
    if i == 0 {
        "AGPL-3.0-or-later".to_owned()
    } else if i == 1 {
        "MIT".to_owned()
    } else if i == 2 {
        "Apache-2.0".to_owned()
    } else if i == 3 {
        "GPL-3.0-or-later".to_owned()
    } else {
        "BSD-3-Clause".to_owned()
    }
}

fn fail_empty(config: WizardConfig, args: WizardArgs) -> (s: WizardSession)
    ensures
        s@ == failed_with(config@, "Input cannot be empty"@),
        s.args == args,
{
    WizardSession { step: WizardStep::Failed, config, args, message: "Input cannot be empty".to_owned() }
}

/// Open a wizard session: the answers the command line gave are filled
/// in, and the first question left is asked.
pub fn start(args: WizardArgs) -> (r: (WizardSession, WizardPrompt))
    ensures
        r.0@ == enter(WizardStep::ChooseType, initial_config(), args),
        r.0.args == args,
        r.1@ == prompt_of(r.0@),
{
    let config = WizardConfig::default();
    assert(config@ == initial_config()) by {
        assert(config.capabilities@ =~= Seq::<PluginCapability>::empty());
        assert(texts_of(config.tags@) =~= Seq::<Seq<char>>::empty());
        assert(config.id@ =~= Seq::<char>::empty());
        assert(config.name@ =~= Seq::<char>::empty());
        assert(config.description@ =~= Seq::<char>::empty());
        assert(config.author@ =~= Seq::<char>::empty());
        assert(config.output_dir@ =~= Seq::<char>::empty());
    }
    let session = enter_exec(WizardStep::ChooseType, config, args);
    let prompt = prompt_for(&session);
    (session, prompt)
}

/// Take the user's answer to the session's question; the session moves on
/// and names the next question, or ends.
pub fn advance(session: WizardSession, event: WizardEvent) -> (r: (WizardSession, WizardPrompt))
    requires
        answer_fits(session.step, event),
    ensures
        r.0@ == answered(session@, session.args, event),
        r.0.args == session.args,
        r.1@ == prompt_of(r.0@),
{
    let ghost s0 = session@;
    let WizardSession { step, config, args, message } = session;
    let mut config = config;
    let next = match (step, event) {
        (WizardStep::ChooseType, WizardEvent::Selected(i)) => {
            config.plugin_type = if i == 0 { PluginType::Effect } else { PluginType::Tool };
            enter_exec(WizardStep::ChooseLanguage, config, args)
        },
        (WizardStep::ChooseLanguage, WizardEvent::Selected(i)) => {
            config.language = if i == 0 {
                PluginLanguage::Rust
            } else if i == 1 {
                PluginLanguage::Zig
            } else if i == 2 {
                PluginLanguage::Idris2
            } else {
                PluginLanguage::TypeScript
            };
            enter_exec(WizardStep::EnterId, config, args)
        },
        (WizardStep::EnterId, WizardEvent::Text(t)) => {
            if t.unicode_len() == 0 {
                fail_empty(config, args)
            } else {
                let ok = validate_id(t.as_str()).is_ok();
                config.id = t;
                if ok {
                    enter_exec(WizardStep::EnterName, config, args)
                } else {
                    waiting_at(WizardStep::EnterId, config, args)
                }
            }
        },
        (WizardStep::EnterName, WizardEvent::Text(t)) => {
            if t.unicode_len() == 0 {
                fail_empty(config, args)
            } else {
                config.name = t;
                enter_exec(WizardStep::EnterVersion, config, args)
            }
        },
        (WizardStep::EnterVersion, WizardEvent::Text(t)) => {
            if t.unicode_len() == 0 {
                fail_empty(config, args)
            } else {
                config.version = t;
                enter_exec(WizardStep::EnterDescription, config, args)
            }
        },
        (WizardStep::EnterDescription, WizardEvent::Text(t)) => {
            if t.unicode_len() == 0 {
                fail_empty(config, args)
            } else {
                config.description = t;
                enter_exec(WizardStep::EnterLongDescription, config, args)
            }
        },
        (WizardStep::EnterLongDescription, WizardEvent::Text(t)) => {
            if t.unicode_len() > 0 {
                config.long_description = Some(t);
            }
            enter_exec(WizardStep::EnterAuthor, config, args)
        },
        (WizardStep::EnterAuthor, WizardEvent::Text(t)) => {
            if t.unicode_len() == 0 {
                fail_empty(config, args)
            } else {
                config.author = t;
                enter_exec(WizardStep::EnterEmail, config, args)
            }
        },
        (WizardStep::EnterEmail, WizardEvent::Text(t)) => {
            if t.unicode_len() > 0 {
                config.author_email = Some(t);
            }
            enter_exec(WizardStep::EnterWasmEntry, config, args)
        },
        (WizardStep::EnterWasmEntry, WizardEvent::Text(t)) => {
            if t.unicode_len() == 0 {
                fail_empty(config, args)
            } else {
                config.wasm_entry = t;
                enter_exec(WizardStep::ChooseLicense, config, args)
            }
        },
        (WizardStep::ChooseLicense, WizardEvent::Selected(i)) => {
            if i < 5 {
                config.license = license_at(i);
                enter_exec(WizardStep::ChooseCapabilities, config, args)
            } else {
                waiting_at(WizardStep::EnterCustomLicense, config, args)
            }
        },
        (WizardStep::EnterCustomLicense, WizardEvent::Text(t)) => {
            if t.unicode_len() == 0 {
                fail_empty(config, args)
            } else {
                config.license = t;
                enter_exec(WizardStep::ChooseCapabilities, config, args)
            }
        },
        (WizardStep::ChooseCapabilities, WizardEvent::Picked(v)) => {
            config.capabilities = capabilities_from(&v);
            enter_exec(WizardStep::EnterTags, config, args)
        },
        (WizardStep::EnterTags, WizardEvent::Text(t)) => {
            if t.unicode_len() > 0 {
                config.tags = parse_tags(t.as_str());
            }
            enter_exec(WizardStep::EnterOutput, config, args)
        },
        (WizardStep::EnterOutput, WizardEvent::Text(t)) => {
            if t.unicode_len() == 0 {
                fail_empty(config, args)
            } else {
                config.output_dir = t;
                enter_exec(WizardStep::ConfirmMinter, config, args)
            }
        },
        (WizardStep::ConfirmMinter, WizardEvent::Answered(b)) => {
            config.create_minter = b;
            enter_exec(WizardStep::ConfirmSummary, config, args)
        },
        (WizardStep::ConfirmSummary, WizardEvent::Answered(b)) => {
            if b {
                waiting_at(WizardStep::Finished, config, args)
            } else {
                WizardSession {
                    step: WizardStep::Failed,
                    config,
                    args,
                    message: "Wizard cancelled by user".to_owned(),
                }
            }
        },
        _ => WizardSession { step, config, args, message },
    };
    let prompt = prompt_for(&next);
    (next, prompt)
}


//==============================================================================
// Without questions
//==============================================================================

/// The configuration of a non-interactive run: type, id, name,
/// description and output are required in that order, the id must pass
/// `validate_id`, the language is optional; everything else keeps its
/// default.
pub open spec fn non_interactive_outcome(a: WizardArgs) -> Result<WizardConfigView, Seq<char>> {
    let c = initial_config();
    match a.plugin_type {
        None => Err("In non-interactive mode, --type is required"@),
        Some(t) => match a.id {
            None => Err("In non-interactive mode, --id is required"@),
            Some(id) => if !id_ok(id@) {
                Err(id_error(id@))
            } else {
                match a.name {
                    None => Err("In non-interactive mode, --name is required"@),
                    Some(n) => match a.description {
                        None => Err("In non-interactive mode, --description is required"@),
                        Some(d) => match a.output {
                            None => Err("In non-interactive mode, --output is required"@),
                            Some(o) => Ok(
                                WizardConfigView {
                                    plugin_type: t,
                                    id: id@,
                                    name: n@,
                                    description: d@,
                                    output_dir: o@,
                                    language: match a.language {
                                        Some(l) => l,
                                        None => PluginLanguage::Rust,
                                    },
                                    ..c
                                },
                            ),
                        },
                    },
                }
            },
        },
    }
}

/// The configuration of a non-interactive run, from the command line
/// alone.
pub fn non_interactive_config(args: &WizardArgs) -> (r: Result<WizardConfig, String>)
    ensures
        match non_interactive_outcome(*args) {
            Ok(v) => r matches Ok(c) && c@ == v,
            Err(m) => r matches Err(e) && e@ == m,
        },
{
    let mut config = WizardConfig::default();
    assert(config@ == initial_config()) by {
        assert(config.capabilities@ =~= Seq::<PluginCapability>::empty());
        assert(texts_of(config.tags@) =~= Seq::<Seq<char>>::empty());
        assert(config.id@ =~= Seq::<char>::empty());
        assert(config.name@ =~= Seq::<char>::empty());
        assert(config.description@ =~= Seq::<char>::empty());
        assert(config.author@ =~= Seq::<char>::empty());
        assert(config.output_dir@ =~= Seq::<char>::empty());
    }
    match args.plugin_type {
        None => {
            return Err("In non-interactive mode, --type is required".to_owned());
        },
        Some(t) => {
            config.plugin_type = t;
        },
    }
    match &args.id {
        None => {
            return Err("In non-interactive mode, --id is required".to_owned());
        },
        Some(id) => {
            config.id = id.clone();
            match validate_id(id.as_str()) {
                Ok(()) => {},
                Err(m) => {
                    return Err(m);
                },
            }
        },
    }
    match &args.name {
        None => {
            return Err("In non-interactive mode, --name is required".to_owned());
        },
        Some(n) => {
            config.name = n.clone();
        },
    }
    match &args.description {
        None => {
            return Err("In non-interactive mode, --description is required".to_owned());
        },
        Some(d) => {
            config.description = d.clone();
        },
    }
    match &args.output {
        None => {
            return Err("In non-interactive mode, --output is required".to_owned());
        },
        Some(o) => {
            config.output_dir = o.clone();
        },
    }
    match args.language {
        Some(l) => {
            config.language = l;
        },
        None => {},
    }
    Ok(config)
}


//==============================================================================
// What every session keeps
//==============================================================================

/// Past the id question a live session holds an id `validate_id` accepts,
/// and past the name question a non-empty name.
pub open spec fn answers_valid(s: SessionView) -> bool {
    s.step != WizardStep::Failed ==> {
        &&& step_rank(s.step) > 2 ==> id_ok(s.config.id)
        &&& step_rank(s.step) > 3 ==> s.config.name.len() > 0
    }
}

/// What a configuration must hold on arriving at `step`.
pub open spec fn valid_before(step: WizardStep, c: WizardConfigView) -> bool {
    &&& step_rank(step) > 2 ==> id_ok(c.id)
    &&& step_rank(step) > 3 ==> c.name.len() > 0
}

proof fn lemma_enter_valid(step: WizardStep, c: WizardConfigView, a: WizardArgs)
    requires
        valid_before(step, c),
    ensures
        answers_valid(enter(step, c, a)),
    decreases 20 - step_rank(step),
{
    match step {
        WizardStep::ChooseType => {
            if let Some(t) = a.plugin_type {
                lemma_enter_valid(WizardStep::ChooseLanguage, WizardConfigView { plugin_type: t, ..c }, a);
            }
        },
        WizardStep::ChooseLanguage => {
            if let Some(l) = a.language {
                lemma_enter_valid(WizardStep::EnterId, WizardConfigView { language: l, ..c }, a);
            }
        },
        WizardStep::EnterId => {
            if let Some(id) = a.id {
                if id_ok(id@) {
                    lemma_enter_valid(WizardStep::EnterName, WizardConfigView { id: id@, ..c }, a);
                }
            }
        },
        WizardStep::EnterName => {
            if let Some(n) = a.name {
                if n@.len() > 0 {
                    lemma_enter_valid(WizardStep::EnterVersion, WizardConfigView { name: n@, ..c }, a);
                }
            }
        },
        WizardStep::EnterDescription => {
            if let Some(d) = a.description {
                lemma_enter_valid(WizardStep::EnterLongDescription, WizardConfigView { description: d@, ..c }, a);
            }
        },
        WizardStep::EnterOutput => {
            if let Some(o) = a.output {
                lemma_enter_valid(WizardStep::ConfirmMinter, WizardConfigView { output_dir: o@, ..c }, a);
            }
        },
        _ => {},
    }
}

/// The wizard never moves past the id question without an id that
/// `validate_id` accepts, nor past the name question without a name:
/// this holds of every session `start` opens and is kept by every answer.
pub proof fn law_wizard_answers_stay_valid(s: SessionView, a: WizardArgs, e: WizardEvent)
    requires
        answers_valid(s),
        answer_fits(s.step, e),
    ensures
        answers_valid(enter(WizardStep::ChooseType, initial_config(), a)),
        answers_valid(answered(s, a, e)),
{
    lemma_enter_valid(WizardStep::ChooseType, initial_config(), a);
    let c = s.config;
    let t = answer_text(e);
    match s.step {
        WizardStep::ChooseType => {
            if let WizardEvent::Selected(i) = e {
                lemma_enter_valid(
                    WizardStep::ChooseLanguage,
                    WizardConfigView { plugin_type: if i == 0 { PluginType::Effect } else { PluginType::Tool }, ..c },
                    a,
                );
            }
        },
        WizardStep::ChooseLanguage => {
            if let WizardEvent::Selected(i) = e {
                let l = if i == 0 {
                    PluginLanguage::Rust
                } else if i == 1 {
                    PluginLanguage::Zig
                } else if i == 2 {
                    PluginLanguage::Idris2
                } else {
                    PluginLanguage::TypeScript
                };
                lemma_enter_valid(WizardStep::EnterId, WizardConfigView { language: l, ..c }, a);
            }
        },
        WizardStep::EnterId => {
            if id_ok(t) {
                lemma_enter_valid(WizardStep::EnterName, WizardConfigView { id: t, ..c }, a);
            }
        },
        WizardStep::EnterName => {
            if t.len() > 0 {
                lemma_enter_valid(WizardStep::EnterVersion, WizardConfigView { name: t, ..c }, a);
            }
        },
        WizardStep::EnterVersion => {
            lemma_enter_valid(WizardStep::EnterDescription, WizardConfigView { version: t, ..c }, a);
        },
        WizardStep::EnterDescription => {
            lemma_enter_valid(WizardStep::EnterLongDescription, WizardConfigView { description: t, ..c }, a);
        },
        WizardStep::EnterLongDescription => {
            lemma_enter_valid(
                WizardStep::EnterAuthor,
                if t.len() > 0 { WizardConfigView { long_description: Some(t), ..c } } else { c },
                a,
            );
        },
        WizardStep::EnterAuthor => {
            lemma_enter_valid(WizardStep::EnterEmail, WizardConfigView { author: t, ..c }, a);
        },
        WizardStep::EnterEmail => {
            lemma_enter_valid(
                WizardStep::EnterWasmEntry,
                if t.len() > 0 { WizardConfigView { author_email: Some(t), ..c } } else { c },
                a,
            );
        },
        WizardStep::EnterWasmEntry => {
            lemma_enter_valid(WizardStep::ChooseLicense, WizardConfigView { wasm_entry: t, ..c }, a);
        },
        WizardStep::ChooseLicense => {
            if let WizardEvent::Selected(i) = e {
                if i < 5 {
                    lemma_enter_valid(
                        WizardStep::ChooseCapabilities,
                        WizardConfigView { license: license_options()[i as int], ..c },
                        a,
                    );
                }
            }
        },
        WizardStep::EnterCustomLicense => {
            lemma_enter_valid(WizardStep::ChooseCapabilities, WizardConfigView { license: t, ..c }, a);
        },
        WizardStep::ChooseCapabilities => {
            if let WizardEvent::Picked(v) = e {
                lemma_enter_valid(
                    WizardStep::EnterTags,
                    WizardConfigView { capabilities: picked_capabilities(v@), ..c },
                    a,
                );
            }
        },
        WizardStep::EnterTags => {
            lemma_enter_valid(
                WizardStep::EnterOutput,
                if t.len() > 0 { WizardConfigView { tags: tag_list(t), ..c } } else { c },
                a,
            );
        },
        WizardStep::EnterOutput => {
            lemma_enter_valid(WizardStep::ConfirmMinter, WizardConfigView { output_dir: t, ..c }, a);
        },
        WizardStep::ConfirmMinter => {
            if let WizardEvent::Answered(b) = e {
                lemma_enter_valid(WizardStep::ConfirmSummary, WizardConfigView { create_minter: b, ..c }, a);
            }
        },
        _ => {},
    }
}

} // verus!
