//! The local Ollama server: what to run to install, start, stop and query it,
//! and what to make of the answers.
//!
//! Nothing here runs a process or opens a connection. The functions say which
//! command is due on which platform and turn what came back (an exit status,
//! an output, the list of models) into the values that the commands of the
//! application hand to their callers.

use crate::std_text::{lossy_text, lossy_utf8, trim, trimmed, utf8_text};
use crate::text::{decimal, decimal_text, digit, digit_char, names, texts};
use vstd::prelude::*;

verus! {

/// Bytes in a gigabyte, as sizes are shown.
pub const GB: u64 = 1073741824;

/// Bytes in a megabyte, as sizes are shown.
pub const MB: u64 = 1048576;

/// `numerator / denominator` rounded to the nearest whole number, a half to
/// the even neighbour.
pub open spec fn round_half_even(numerator: nat, denominator: nat) -> nat {
    let quotient = numerator / denominator;
    let rest = numerator % denominator;
    if 2 * rest < denominator {
        quotient
    } else if 2 * rest > denominator {
        quotient + 1
    } else if quotient % 2 == 0 {
        quotient
    } else {
        quotient + 1
    }
}

/// The distance between neighbouring double-precision numbers at `n`: 1 up
/// to 2^53, and twice as much with every further doubling of `n`.
pub open spec fn double_step(n: nat) -> nat {
    if n < 0x20_0000_0000_0000 {
        1
    } else if n < 0x40_0000_0000_0000 {
        2
    } else if n < 0x80_0000_0000_0000 {
        4
    } else if n < 0x100_0000_0000_0000 {
        8
    } else if n < 0x200_0000_0000_0000 {
        16
    } else if n < 0x400_0000_0000_0000 {
        32
    } else if n < 0x800_0000_0000_0000 {
        64
    } else if n < 0x1000_0000_0000_0000 {
        128
    } else if n < 0x2000_0000_0000_0000 {
        256
    } else if n < 0x4000_0000_0000_0000 {
        512
    } else if n < 0x8000_0000_0000_0000 {
        1024
    } else {
        2048
    }
}

/// The double-precision number nearest to `n`, a tie going to the one with
/// the even significand. Sizes are shown as a double holds them.
pub open spec fn as_double(n: nat) -> nat {
    round_half_even(n, double_step(n)) * double_step(n)
}

/// `value / unit` with one digit after the point, rounded to the nearest
/// tenth and a half to the even tenth.
pub open spec fn one_decimal(value: nat, unit: nat) -> Seq<char> {
    let tenths = round_half_even(10 * value, unit);
    decimal_text(tenths / 10) + seq!['.', digit_char(tenths % 10)]
}

/// A size as it is shown: in gigabytes from 1 GB on, in megabytes from 1 MB
/// on, each with one digit after the point, and in bytes below that.
pub open spec fn size_text(bytes: u64) -> Seq<char> {
    if bytes >= GB {
        one_decimal(as_double(bytes as nat), GB as nat) + " GB"@
    } else if bytes >= MB {
        one_decimal(as_double(bytes as nat), MB as nat) + " MB"@
    } else {
        decimal_text(bytes as nat) + " bytes"@
    }
}

/// `numerator / denominator` rounded to the nearest whole number, a half to
/// the even neighbour.
fn rounded_quotient(numerator: u128, denominator: u128) -> (quotient: u128)
    requires
        0 < denominator <= 0x1_0000_0000_0000_0000,
        numerator <= 0xffff_ffff_ffff_ffff_ffff,
    ensures
        quotient == round_half_even(numerator as nat, denominator as nat),
        quotient <= numerator + 1,
{
    let quotient: u128 = numerator / denominator;
    let rest: u128 = numerator % denominator;
    if 2 * rest < denominator {
        quotient
    } else if 2 * rest > denominator {
        quotient + 1
    } else if quotient % 2 == 0 {
        quotient
    } else {
        quotient + 1
    }
}

/// The distance between neighbouring double-precision numbers at `n`.
fn step_at(n: u64) -> (step: u64)
    ensures
        step == double_step(n as nat),
        1 <= step <= 2048,
{
    if n < 0x20_0000_0000_0000 {
        1
    } else if n < 0x40_0000_0000_0000 {
        2
    } else if n < 0x80_0000_0000_0000 {
        4
    } else if n < 0x100_0000_0000_0000 {
        8
    } else if n < 0x200_0000_0000_0000 {
        16
    } else if n < 0x400_0000_0000_0000 {
        32
    } else if n < 0x800_0000_0000_0000 {
        64
    } else if n < 0x1000_0000_0000_0000 {
        128
    } else if n < 0x2000_0000_0000_0000 {
        256
    } else if n < 0x4000_0000_0000_0000 {
        512
    } else if n < 0x8000_0000_0000_0000 {
        1024
    } else {
        2048
    }
}

/// A size in a unit, with one digit after the point and the unit's name.
fn scaled(bytes: u64, unit: u64, suffix: &str) -> (text: String)
    requires
        unit == GB || unit == MB,
    ensures
        text@ == one_decimal(as_double(bytes as nat), unit as nat) + suffix@,
{
    let step: u128 = step_at(bytes) as u128;
    let steps: u128 = rounded_quotient(bytes as u128, step);
    assert(steps * step <= bytes + step) by {
        let whole = (bytes as int) / (step as int);
        vstd::arithmetic::div_mod::lemma_fundamental_div_mod(bytes as int, step as int);
        vstd::arithmetic::div_mod::lemma_mod_bound(bytes as int, step as int);
        assert(steps * step <= (whole + 1) * step) by (nonlinear_arith)
            requires
                step > 0,
                0 <= steps <= whole + 1,
        ;
        assert((whole + 1) * step == step * whole + step) by (nonlinear_arith);
    }
    let value: u128 = steps * step;
    let tenths: u128 = rounded_quotient(value * 10, unit as u128);
    assert(tenths / 10 <= u64::MAX);
    let whole: u64 = (tenths / 10) as u64;
    let last: u8 = (tenths % 10) as u8;
    let mut text = decimal(whole);
    text.push('.');
    text.push(digit(last));
    text.append(suffix);
    assert(text@ =~= one_decimal(as_double(bytes as nat), unit as nat) + suffix@);
    text
}

/// Shows a size: in gigabytes from 1 GB on, in megabytes from 1 MB on, each
/// with one digit after the point, and in bytes below that.
pub fn format_size(bytes: u64) -> (text: String)
    ensures
        text@ == size_text(bytes),
{
    if bytes >= GB {
        scaled(bytes, GB, " GB")
    } else if bytes >= MB {
        scaled(bytes, MB, " MB")
    } else {
        let mut text = decimal(bytes);
        text.append(" bytes");
        text
    }
}

/// The address of the local Ollama server.
pub const OLLAMA_API_URL: &'static str = "http://localhost:11434";

/// The address that lists the models of the local server.
pub const OLLAMA_TAGS_URL: &'static str = "http://localhost:11434/api/tags";

/// Where the installer for Windows is downloaded from.
pub const OLLAMA_DOWNLOAD_URL_WINDOWS: &'static str = "https://ollama.com/download/OllamaSetup.exe";

/// The name under which the installer for Windows is kept while it runs.
pub const INSTALLER_FILE: &'static str = "OllamaSetup.exe";

/// How long to wait after starting the server before it is asked for the
/// first time, in milliseconds.
pub const STARTUP_WAIT_MS: u64 = 2000;

/// How long to wait between two askings, in milliseconds.
pub const RETRY_WAIT_MS: u64 = 500;

/// How often a starting server is asked at most.
pub const MAX_RETRIES: u32 = 10;

/// Whether Ollama is installed and running, and what it offers.
#[derive(Debug, Clone, PartialEq, Eq)]
pub struct OllamaStatus {
    pub installed: bool,
    pub running: bool,
    pub version: Option<String>,
    pub models: Vec<String>,
}

/// A model as it is shown to the user.
#[derive(Debug, Clone, PartialEq, Eq)]
pub struct OllamaModel {
    pub name: String,
    pub size: Option<String>,
    pub modified_at: Option<String>,
}

/// How far an installation has come.
#[derive(Debug, Clone, PartialEq, Eq)]
pub struct InstallProgress {
    pub stage: String,
    pub progress: u8,
    pub message: String,
}

/// How far the download of a model has come.
#[derive(Debug, Clone, PartialEq, Eq)]
pub struct PullProgress {
    pub status: String,
    pub completed: Option<u64>,
    pub total: Option<u64>,
}

/// A model as the server lists it.
#[derive(Debug, Clone, PartialEq, Eq)]
pub struct OllamaModelInfo {
    pub name: String,
    pub size: Option<u64>,
    pub modified_at: Option<String>,
}

/// What the server answers when asked for its models.
#[derive(Debug, Clone, PartialEq, Eq)]
pub struct OllamaTagsResponse {
    pub models: Option<Vec<OllamaModelInfo>>,
}

/// What came of asking the server for its models.
#[derive(Debug, Clone, PartialEq, Eq)]
pub enum Probe {
    /// No answer, or an answer that reports a failure.
    Silent,
    /// An answer that reports success; with it the list that its body holds,
    /// `None` where the body cannot be read.
    Answered(Option<OllamaTagsResponse>),
}

/// The operating systems that are told apart.
#[derive(Debug, Clone, Copy, PartialEq, Eq)]
pub enum Platform {
    Windows,
    MacOs,
    Linux,
    Other,
}

/// A program to run, with its arguments.
#[derive(Debug, Clone, PartialEq, Eq)]
pub struct Command {
    pub program: String,
    pub args: Vec<String>,
}

/// How a program ended and what it wrote.
#[derive(Debug, Clone, PartialEq, Eq)]
pub struct Output {
    pub success: bool,
    pub stdout: Vec<u8>,
    pub stderr: Vec<u8>,
}

/// How Ollama gets installed on a platform.
#[derive(Debug, Clone, PartialEq, Eq)]
pub enum InstallPlan {
    /// Download the installer from `url` into the data directory as `file`,
    /// run it with `args`, and remove it again.
    Download { url: String, file: String, args: Vec<String> },
    /// Run a command that installs it.
    Run(Command),
    /// There is no automatic installation.
    Unsupported,
}

/// What to do next while a started server is awaited.
#[derive(Debug, Clone, PartialEq, Eq)]
pub enum StartStep {
    /// The server answers: report this message.
    Started(String),
    /// Wait so many milliseconds, then ask again.
    Retry { wait_ms: u64 },
    /// Give up with this message.
    Failed(String),
}

/// The plain value of an [`OllamaStatus`].
pub struct StatusView {
    pub installed: bool,
    pub running: bool,
    pub version: Option<Seq<char>>,
    pub models: Seq<Seq<char>>,
}

/// The plain value of an [`OllamaModel`].
pub struct ModelView {
    pub name: Seq<char>,
    pub size: Option<Seq<char>>,
    pub modified_at: Option<Seq<char>>,
}

/// The plain value of a [`Command`].
pub struct CommandView {
    pub program: Seq<char>,
    pub args: Seq<Seq<char>>,
}

/// The plain value of an [`InstallPlan`].
pub enum InstallPlanView {
    Download { url: Seq<char>, file: Seq<char>, args: Seq<Seq<char>> },
    Run(CommandView),
    Unsupported,
}

/// The plain value of a [`StartStep`].
pub enum StartStepView {
    Started(Seq<char>),
    Retry { wait_ms: u64 },
    Failed(Seq<char>),
}

impl View for OllamaStatus {
    type V = StatusView;

    open spec fn view(&self) -> StatusView {
        StatusView {
            installed: self.installed,
            running: self.running,
            version: texts(self.version),
            models: names(self.models@),
        }
    }
}

impl View for OllamaModel {
    type V = ModelView;

    open spec fn view(&self) -> ModelView {
        ModelView {
            name: self.name@,
            size: texts(self.size),
            modified_at: texts(self.modified_at),
        }
    }
}

impl View for Command {
    type V = CommandView;

    open spec fn view(&self) -> CommandView {
        CommandView { program: self.program@, args: names(self.args@) }
    }
}

impl View for InstallPlan {
    type V = InstallPlanView;

    open spec fn view(&self) -> InstallPlanView {
        match self {
            InstallPlan::Download { url, file, args } => InstallPlanView::Download {
                url: url@,
                file: file@,
                args: names(args@),
            },
            InstallPlan::Run(command) => InstallPlanView::Run(command@),
            InstallPlan::Unsupported => InstallPlanView::Unsupported,
        }
    }
}

impl View for StartStep {
    type V = StartStepView;

    open spec fn view(&self) -> StartStepView {
        match self {
            StartStep::Started(message) => StartStepView::Started(message@),
            StartStep::Retry { wait_ms } => StartStepView::Retry { wait_ms: *wait_ms },
            StartStep::Failed(message) => StartStepView::Failed(message@),
        }
    }
}

/// A message for the user, good or bad, seen as plain text.
pub open spec fn message_outcome(result: Result<String, String>) -> Result<Seq<char>, Seq<char>> {
    match result {
        Ok(message) => Ok(message@),
        Err(message) => Err(message@),
    }
}

/// The models that an answer lists: none where the server is silent, where
/// the body cannot be read, and where the body lists none.
pub open spec fn reported_models(probe: Probe) -> Seq<OllamaModelInfo> {
    match probe {
        Probe::Answered(Some(response)) => match response.models {
            Some(models) => models@,
            None => Seq::empty(),
        },
        _ => Seq::empty(),
    }
}

/// The names of the models, in order.
pub open spec fn model_names(models: Seq<OllamaModelInfo>) -> Seq<Seq<char>> {
    Seq::new(models.len(), |i: int| models[i].name@)
}

/// A model as it is shown: its size turned into text.
pub open spec fn shown_model(model: OllamaModelInfo) -> ModelView {
    ModelView {
        name: model.name@,
        size: match model.size {
            Some(bytes) => Some(size_text(bytes)),
            None => None,
        },
        modified_at: texts(model.modified_at),
    }
}

/// The models as they are shown, in order.
pub open spec fn shown_models(models: Seq<OllamaModelInfo>) -> Seq<ModelView> {
    Seq::new(models.len(), |i: int| shown_model(models[i]))
}

/// The plain values of a sequence of shown models.
pub open spec fn model_views(models: Seq<OllamaModel>) -> Seq<ModelView> {
    Seq::new(models.len(), |i: int| models[i]@)
}

/// The status that follows from what was found out. Of a server that is not
/// installed nothing else is reported. An installed server runs when it
/// answers, and offers the models that its answer lists.
pub open spec fn status_of(installed: bool, version: Option<Seq<char>>, probe: Probe) -> StatusView {
    if installed {
        StatusView {
            installed: true,
            running: probe is Answered,
            version,
            models: model_names(reported_models(probe)),
        }
    } else {
        StatusView { installed: false, running: false, version: None, models: Seq::empty() }
    }
}

/// The command that finds out whether Ollama is installed.
pub open spec fn lookup_command_view(platform: Platform) -> CommandView {
    match platform {
        Platform::Windows => CommandView { program: "where"@, args: seq!["ollama"@] },
        _ => CommandView { program: "which"@, args: seq!["ollama"@] },
    }
}

/// The command that asks Ollama for its version.
pub open spec fn version_command_view() -> CommandView {
    CommandView { program: "ollama"@, args: seq!["--version"@] }
}

/// The command that starts the server in the background.
pub open spec fn start_command_view(platform: Platform) -> CommandView {
    match platform {
        Platform::Windows => CommandView {
            program: "cmd"@,
            args: seq!["/C"@, "start"@, "/B"@, "ollama"@, "serve"@],
        },
        _ => CommandView {
            program: "sh"@,
            args: seq!["-c"@, "nohup ollama serve > /dev/null 2>&1 &"@],
        },
    }
}

/// The command that stops the server.
pub open spec fn stop_command_view(platform: Platform) -> CommandView {
    match platform {
        Platform::Windows => CommandView {
            program: "taskkill"@,
            args: seq!["/F"@, "/IM"@, "ollama.exe"@],
        },
        _ => CommandView { program: "pkill"@, args: seq!["-f"@, "ollama"@] },
    }
}

/// The command that downloads a model.
pub open spec fn pull_command_view(model_name: Seq<char>) -> CommandView {
    CommandView { program: "ollama"@, args: seq!["pull"@, model_name] }
}

/// How Ollama gets installed on a platform.
pub open spec fn install_plan_view(platform: Platform) -> InstallPlanView {
    match platform {
        Platform::Windows => InstallPlanView::Download {
            url: OLLAMA_DOWNLOAD_URL_WINDOWS@,
            file: INSTALLER_FILE@,
            args: seq!["/S"@],
        },
        Platform::MacOs => InstallPlanView::Run(
            CommandView { program: "brew"@, args: seq!["install"@, "ollama"@] },
        ),
        Platform::Linux => InstallPlanView::Run(
            CommandView {
                program: "sh"@,
                args: seq!["-c"@, "curl -fsSL https://ollama.com/install.sh | sh"@],
            },
        ),
        Platform::Other => InstallPlanView::Unsupported,
    }
}

/// The message that ends an installation.
pub open spec fn install_message(platform: Platform, success: bool) -> Result<Seq<char>, Seq<char>> {
    match platform {
        Platform::Other => Err("Unsupported operating system for automatic Ollama installation"@),
        Platform::Windows => if success {
            Ok("Ollama installed successfully"@)
        } else {
            Err("Ollama installation failed"@)
        },
        _ => if success {
            Ok("Ollama installed successfully"@)
        } else {
            Err(
                "Ollama installation failed. Please install manually from https://ollama.com/download"@,
            )
        },
    }
}

/// What to do after the server was asked for the `attempt`-th time, counted
/// from 0: done where it answers, once more after a wait as long as askings
/// are left, and given up after the last one.
pub open spec fn start_step(attempt: u32, responding: bool) -> StartStepView {
    if responding {
        StartStepView::Started("Ollama server started successfully"@)
    } else if attempt < MAX_RETRIES - 1 {
        StartStepView::Retry { wait_ms: RETRY_WAIT_MS }
    } else {
        StartStepView::Failed("Ollama server started but not responding. Please check manually."@)
    }
}

/// The message that ends the download of a model: that it was pulled, or
/// that it was not, with what the program complained of.
pub open spec fn pull_outcome(model_name: Seq<char>, success: bool, complaint: Seq<char>) -> Result<
    Seq<char>,
    Seq<char>,
> {
    if success {
        Ok("Model '"@ + model_name + "' pulled successfully"@)
    } else {
        Err("Failed to pull model '"@ + model_name + "': "@ + complaint)
    }
}

/// The message that ends the download of a model, from the output of the
/// program. What it wrote to its error stream is shown as text, whatever
/// bytes it holds.
pub open spec fn pull_message(model_name: Seq<char>, output: Output) -> Result<Seq<char>, Seq<char>> {
    pull_outcome(model_name, output.success, lossy_utf8(output.stderr@))
}

/// The version that the output of `ollama --version` gives: what it printed,
/// without the white space around it, where it ended well and printed text.
pub open spec fn version_of(output: Option<Output>) -> Option<Seq<char>> {
    match output {
        Some(output) => if output.success && vstd::utf8::valid_utf8(output.stdout@) {
            Some(trimmed(vstd::utf8::decode_utf8(output.stdout@)))
        } else {
            None
        },
        None => None,
    }
}

/// The models that are recommended, each with its size and what it is good
/// for.
pub open spec fn recommended() -> Seq<(Seq<char>, Seq<char>, Seq<char>)> {
    seq![
        ("llama3.2"@, "3B"@, "Fast, good for general tasks"@),
        ("llama3.2:1b"@, "1B"@, "Smallest, fastest option"@),
        ("mistral"@, "7B"@, "Good balance of speed and quality"@),
        ("gemma2:2b"@, "2B"@, "Google's efficient model"@),
    ]
}

/// The plain values of a list of recommendations.
pub open spec fn recommendation_views(
    models: Seq<(&'static str, &'static str, &'static str)>,
) -> Seq<(Seq<char>, Seq<char>, Seq<char>)> {
    Seq::new(models.len(), |i: int| (models[i].0@, models[i].1@, models[i].2@))
}

/// Owned copies of some words.
fn words(items: Vec<&str>) -> (owned: Vec<String>)
    ensures
        names(owned@) == Seq::new(items@.len(), |i: int| items@[i]@),
{
    let mut owned: Vec<String> = Vec::new();
    let mut i: usize = 0;
    while i < items.len()
        invariant
            i <= items.len(),
            owned@.len() == i,
            forall|j: int| 0 <= j < i ==> (#[trigger] owned@[j])@ == items@[j]@,
        decreases items.len() - i,
    {
        owned.push(String::from_str(items[i]));
        i = i + 1;
    }
    assert(names(owned@) =~= Seq::new(items@.len(), |i: int| items@[i]@));
    owned
}

/// A command from its words.
fn command(program: &str, args: Vec<&str>) -> (made: Command)
    ensures
        made@ == (CommandView { program: program@, args: Seq::new(args@.len(), |i: int| args@[i]@) }),
{
    Command { program: String::from_str(program), args: words(args) }
}

/// The command that finds out whether Ollama is installed.
pub fn lookup_command(platform: Platform) -> (made: Command)
    ensures
        made@ == lookup_command_view(platform),
{
    let made = match platform {
        Platform::Windows => command("where", vec!["ollama"]),
        _ => command("which", vec!["ollama"]),
    };
    assert(made@.args =~= lookup_command_view(platform).args);
    made
}

/// Whether Ollama is installed: the lookup ran and ended well.
pub fn is_ollama_installed(lookup: &Option<Output>) -> (installed: bool)
    ensures
        installed == (lookup matches Some(output) && output.success),
{
    match lookup {
        Some(output) => output.success,
        None => false,
    }
}

/// The command that asks Ollama for its version.
pub fn version_command() -> (made: Command)
    ensures
        made@ == version_command_view(),
{
    let made = command("ollama", vec!["--version"]);
    assert(made@.args =~= version_command_view().args);
    made
}

/// The version that the output of `ollama --version` gives.
pub fn get_ollama_version(output: Option<Output>) -> (version: Option<String>)
    ensures
        texts(version) == version_of(output),
{
    match output {
        Some(output) => if output.success {
            match utf8_text(output.stdout) {
                Some(text) => Some(trim(text.as_str())),
                None => None,
            }
        } else {
            None
        },
        None => None,
    }
}

/// The status that follows from what was found out: see [`status_of`].
pub fn check_ollama_status(installed: bool, version: Option<String>, probe: &Probe) -> (status:
    OllamaStatus)
    ensures
        status@ == status_of(installed, texts(version), *probe),
        status.running ==> status.installed,
        status.models@.len() > 0 ==> status.running,
{
    if !installed {
        let models: Vec<String> = Vec::new();
        assert(names(models@) =~= Seq::<Seq<char>>::empty());
        return OllamaStatus { installed: false, running: false, version: None, models };
    }
    let mut models: Vec<String> = Vec::new();
    let running = match probe {
        Probe::Answered(body) => {
            match body {
                Some(response) => match &response.models {
                    Some(listed) => {
                        let mut i: usize = 0;
                        while i < listed.len()
                            invariant
                                i <= listed.len(),
                                models@.len() == i,
                                forall|j: int|
                                    0 <= j < i ==> (#[trigger] models@[j])@ == listed@[j].name@,
                            decreases listed.len() - i,
                        {
                            models.push(listed[i].name.clone());
                            i = i + 1;
                        }
                    },
                    None => {},
                },
                None => {},
            }
            true
        },
        Probe::Silent => false,
    };
    assert(names(models@) =~= model_names(reported_models(*probe)));
    OllamaStatus { installed: true, running, version, models }
}

/// The models that an answer lists, as they are shown: see [`shown_models`].
pub fn list_ollama_models(probe: &Probe) -> (models: Vec<OllamaModel>)
    ensures
        model_views(models@) == shown_models(reported_models(*probe)),
{
    let mut models: Vec<OllamaModel> = Vec::new();
    match probe {
        Probe::Answered(Some(response)) => match &response.models {
            Some(listed) => {
                let mut i: usize = 0;
                while i < listed.len()
                    invariant
                        i <= listed.len(),
                        models@.len() == i,
                        forall|j: int|
                            0 <= j < i ==> (#[trigger] models@[j])@ == shown_model(listed@[j]),
                    decreases listed.len() - i,
                {
                    let size = match listed[i].size {
                        Some(bytes) => Some(format_size(bytes)),
                        None => None,
                    };
                    let modified_at = match &listed[i].modified_at {
                        Some(text) => Some(text.clone()),
                        None => None,
                    };
                    models.push(OllamaModel { name: listed[i].name.clone(), size, modified_at });
                    i = i + 1;
                }
            },
            None => {},
        },
        _ => {},
    }
    assert(model_views(models@) =~= shown_models(reported_models(*probe)));
    models
}

/// How Ollama gets installed on a platform.
pub fn install_plan(platform: Platform) -> (plan: InstallPlan)
    ensures
        plan@ == install_plan_view(platform),
{
    match platform {
        Platform::Windows => {
            let args = words(vec!["/S"]);
            assert(names(args@) =~= seq!["/S"@]);
            InstallPlan::Download {
                url: String::from_str(OLLAMA_DOWNLOAD_URL_WINDOWS),
                file: String::from_str(INSTALLER_FILE),
                args,
            }
        },
        Platform::MacOs => {
            let made = command("brew", vec!["install", "ollama"]);
            assert(made@.args =~= seq!["install"@, "ollama"@]);
            InstallPlan::Run(made)
        },
        Platform::Linux => {
            let made = command("sh", vec!["-c", "curl -fsSL https://ollama.com/install.sh | sh"]);
            assert(made@.args =~= seq!["-c"@, "curl -fsSL https://ollama.com/install.sh | sh"@]);
            InstallPlan::Run(made)
        },
        Platform::Other => InstallPlan::Unsupported,
    }
}

/// The message that ends an installation: `success` says whether the
/// installer, or the command that installs, ended well.
pub fn install_ollama(platform: Platform, success: bool) -> (message: Result<String, String>)
    ensures
        message_outcome(message) == install_message(platform, success),
{
    match platform {
        Platform::Other => Err(
            String::from_str("Unsupported operating system for automatic Ollama installation"),
        ),
        Platform::Windows => if success {
            Ok(String::from_str("Ollama installed successfully"))
        } else {
            Err(String::from_str("Ollama installation failed"))
        },
        _ => if success {
            Ok(String::from_str("Ollama installed successfully"))
        } else {
            Err(
                String::from_str(
                    "Ollama installation failed. Please install manually from https://ollama.com/download",
                ),
            )
        },
    }
}

/// The command that starts the server in the background.
pub fn start_command(platform: Platform) -> (made: Command)
    ensures
        made@ == start_command_view(platform),
{
    let made = match platform {
        Platform::Windows => command("cmd", vec!["/C", "start", "/B", "ollama", "serve"]),
        _ => command("sh", vec!["-c", "nohup ollama serve > /dev/null 2>&1 &"]),
    };
    assert(made@.args =~= start_command_view(platform).args);
    made
}

/// What to do after a started server was asked for the `attempt`-th time,
/// counted from 0: see [`start_step`].
pub fn start_ollama(attempt: u32, responding: bool) -> (step: StartStep)
    ensures
        step@ == start_step(attempt, responding),
{
    if responding {
        StartStep::Started(String::from_str("Ollama server started successfully"))
    } else if attempt < MAX_RETRIES - 1 {
        StartStep::Retry { wait_ms: RETRY_WAIT_MS }
    } else {
        StartStep::Failed(
            String::from_str("Ollama server started but not responding. Please check manually."),
        )
    }
}

/// The command that stops the server.
pub fn stop_command(platform: Platform) -> (made: Command)
    ensures
        made@ == stop_command_view(platform),
{
    let made = match platform {
        Platform::Windows => command("taskkill", vec!["/F", "/IM", "ollama.exe"]),
        _ => command("pkill", vec!["-f", "ollama"]),
    };
    assert(made@.args =~= stop_command_view(platform).args);
    made
}

/// The message after the server was told to stop, however that ended.
pub fn stop_ollama() -> (message: String)
    ensures
        message@ == "Ollama server stopped"@,
{
    String::from_str("Ollama server stopped")
}

/// The command that downloads a model.
pub fn pull_command(model_name: &str) -> (made: Command)
    ensures
        made@ == pull_command_view(model_name@),
{
    let made = command("ollama", vec!["pull", model_name]);
    assert(made@.args =~= pull_command_view(model_name@).args);
    made
}

/// The message that ends the download of a model: see [`pull_outcome`].
pub fn pull_report(model_name: &str, success: bool, complaint: &str) -> (message: Result<
    String,
    String,
>)
    ensures
        message_outcome(message) == pull_outcome(model_name@, success, complaint@),
{
    if success {
        let mut text = String::from_str("Model '");
        text.append(model_name);
        text.append("' pulled successfully");
        Ok(text)
    } else {
        let mut text = String::from_str("Failed to pull model '");
        text.append(model_name);
        text.append("': ");
        text.append(complaint);
        Err(text)
    }
}

/// The message that ends the download of a model, from the output of the
/// program: see [`pull_message`].
pub fn pull_ollama_model(model_name: &str, output: &Output) -> (message: Result<String, String>)
    ensures
        message_outcome(message) == pull_message(model_name@, *output),
{
    let complaint = lossy_text(&output.stderr);
    pull_report(model_name, output.success, complaint.as_str())
}

/// The models that are recommended for making teaching material.
pub fn get_recommended_models() -> (models: Vec<(&'static str, &'static str, &'static str)>)
    ensures
        recommendation_views(models@) == recommended(),
{
    let models = vec![
        ("llama3.2", "3B", "Fast, good for general tasks"),
        ("llama3.2:1b", "1B", "Smallest, fastest option"),
        ("mistral", "7B", "Good balance of speed and quality"),
        ("gemma2:2b", "2B", "Google's efficient model"),
    ];
    assert(recommendation_views(models@) =~= recommended());
    models
}

} // verus!
