//! Where the document is kept on disk, and how it is read back whatever
//! state its file is in.
//!
//! The library touches no file itself. Reading is a dialogue: the caller
//! takes a step on the file system and tells [`ConfigManager::read`] how it
//! went, and `read` answers with the next step, until that step is to
//! finish with a document. A missing, empty, unreadable or corrupt file
//! ends in the initial document; reading never writes the document's file.

use crate::config::{Config, ConfigView};
use crate::text::{trim, trimmed};
use vstd::prelude::*;

verus! {

/// The name of the document's file, in the directory of the executable.
pub const CONFIG_FILE_NAME: &'static str = "sn-config.json";

/// What replaces the extension of the document's file in the name of its
/// backup.
pub const BACKUP_EXTENSION: &'static str = "json.backup";

/// The path that the standard library's `Path::parent` gives for `path`,
/// if it gives one, on the platform that the library is built for.
pub uninterp spec fn parent_of(path: Seq<char>) -> Option<Seq<char>>;

/// The path that the standard library's `Path::join` makes of `dir` and
/// `name`, on the platform that the library is built for.
pub uninterp spec fn joined(dir: Seq<char>, name: Seq<char>) -> Seq<char>;

/// The path that the standard library's `Path::with_extension` makes of
/// `path` and `extension`, on the platform that the library is built for.
pub uninterp spec fn with_extension(path: Seq<char>, extension: Seq<char>) -> Seq<char>;

/// Whether `c` separates the parts of a path on some platform.
pub open spec fn is_separator(c: char) -> bool {
    c == '/' || c == '\\'
}

/// The standard library's `Path::parent` on `path`: the path without its
/// last component, or nothing where it has none to lose. What comes back is
/// named, not described: the same path always gives the same answer.
#[verifier::external_body]
fn path_parent(path: &str) -> (parent: Option<String>)
    ensures
        match parent {
            Some(dir) => parent_of(path@) == Some(dir@),
            None => parent_of(path@) is None,
        },
{
    match std::path::Path::new(path).parent() {
        Some(dir) => Some(dir.to_string_lossy().into_owned()),
        None => None,
    }
}

/// The standard library's `Path::join` on `dir` and `name`. What comes back
/// is named, not described: the same arguments always give the same path.
#[verifier::external_body]
fn path_join(dir: &str, name: &str) -> (path: String)
    ensures
        path@ == joined(dir@, name@),
{
    std::path::Path::new(dir).join(name).to_string_lossy().into_owned()
}

/// The standard library's `Path::with_extension` on `path` and `extension`,
/// which must hold no separator. What comes back is named, not described:
/// the same arguments always give the same path.
#[verifier::external_body]
fn path_with_extension(path: &str, extension: &str) -> (renamed: String)
    requires
        forall|i: int| 0 <= i < extension@.len() ==> !is_separator(#[trigger] extension@[i]),
    ensures
        renamed@ == with_extension(path@, extension@),
{
    std::path::Path::new(path).with_extension(extension).to_string_lossy().into_owned()
}

/// What is written out, for the message of a failure to do so.
#[derive(Debug, Clone, Copy, PartialEq, Eq, Structural)]
pub enum Payload {
    Config,
    Modpack,
    ModpackList,
}

/// What can go wrong around the document's file. Only the failures to
/// locate the file and to write it stop an operation; the others are
/// reported and answered with the initial document.
#[derive(Debug)]
pub enum StoreError {
    /// The host could not tell where the executable is; holds its reason.
    ExecutableUnknown(String),
    /// The executable's path has no directory part.
    NoExecutableDirectory,
    /// The file is there and could not be read; holds the reason.
    Unreadable(String),
    /// The file holds nothing but whitespace.
    Empty,
    /// The file's content is not a document; holds the parser's reason.
    Corrupt(String),
    /// The corrupt file could not be copied aside; holds the reason.
    BackupFailed(String),
    /// A value could not be written out as text; holds the reason.
    NotSerialized(Payload, String),
    /// The document's file could not be written; holds the reason.
    NotWritten(String),
}

/// A `StoreError` as plain values.
pub ghost enum StoreErrorView {
    ExecutableUnknown(Seq<char>),
    NoExecutableDirectory,
    Unreadable(Seq<char>),
    Empty,
    Corrupt(Seq<char>),
    BackupFailed(Seq<char>),
    NotSerialized(Payload, Seq<char>),
    NotWritten(Seq<char>),
}

impl View for StoreError {
    type V = StoreErrorView;

    open spec fn view(&self) -> StoreErrorView {
        match self {
            StoreError::ExecutableUnknown(reason) => StoreErrorView::ExecutableUnknown(reason@),
            StoreError::NoExecutableDirectory => StoreErrorView::NoExecutableDirectory,
            StoreError::Unreadable(reason) => StoreErrorView::Unreadable(reason@),
            StoreError::Empty => StoreErrorView::Empty,
            StoreError::Corrupt(reason) => StoreErrorView::Corrupt(reason@),
            StoreError::BackupFailed(reason) => StoreErrorView::BackupFailed(reason@),
            StoreError::NotSerialized(payload, reason) => StoreErrorView::NotSerialized(
                *payload,
                reason@,
            ),
            StoreError::NotWritten(reason) => StoreErrorView::NotWritten(reason@),
        }
    }
}

/// Holds the path of the document's file.
#[derive(Debug)]
pub struct ConfigManager {
    pub path: String,
}

impl View for ConfigManager {
    type V = Seq<char>;

    open spec fn view(&self) -> Seq<char> {
        self.path@
    }
}

/// The path of the document's file for an executable at `executable`: the
/// fixed file name in the executable's directory, if it has one.
pub open spec fn config_path_for(executable: Seq<char>) -> Option<Seq<char>> {
    match parent_of(executable) {
        Some(dir) => Some(joined(dir, CONFIG_FILE_NAME@)),
        None => None,
    }
}

/// The path of the backup of the file at `path`: its sibling with the
/// backup extension in place of its own.
pub open spec fn backup_path_for(path: Seq<char>) -> Seq<char> {
    with_extension(path, BACKUP_EXTENSION@)
}

/// The manager for what the host said of the executable's location: its
/// path, or the reason why it has none to give.
pub open spec fn manager_for(executable: Result<Seq<char>, Seq<char>>) -> Result<
    Seq<char>,
    StoreErrorView,
> {
    match executable {
        Ok(location) => match config_path_for(location) {
            Some(path) => Ok(path),
            None => Err(StoreErrorView::NoExecutableDirectory),
        },
        Err(reason) => Err(StoreErrorView::ExecutableUnknown(reason)),
    }
}

/// What the host said of the executable's location, as plain values.
pub open spec fn location_view(executable: Result<String, String>) -> Result<
    Seq<char>,
    Seq<char>,
> {
    match executable {
        Ok(location) => Ok(location@),
        Err(reason) => Err(reason@),
    }
}

impl ConfigManager {
    /// The manager of the document that belongs to the running executable.
    ///
    /// `executable` is what the host answered when asked for the
    /// executable's location: its path, or the reason for having none. The
    /// document's file is [`CONFIG_FILE_NAME`] in the directory of that
    /// path. Nothing is remembered between calls.
    pub fn new(executable: Result<String, String>) -> (manager: Result<ConfigManager, StoreError>)
        ensures
            match manager {
                Ok(m) => manager_for(location_view(executable)) == Ok::<Seq<char>, StoreErrorView>(
                    m@,
                ),
                Err(error) => manager_for(location_view(executable)) == Err::<
                    Seq<char>,
                    StoreErrorView,
                >(error@),
            },
    {
        match executable {
            Ok(location) => match path_parent(location.as_str()) {
                Some(dir) => Ok(ConfigManager { path: path_join(dir.as_str(), CONFIG_FILE_NAME) }),
                None => Err(StoreError::NoExecutableDirectory),
            },
            Err(reason) => Err(StoreError::ExecutableUnknown(reason)),
        }
    }

    /// Where a corrupt file is copied before the initial document takes its
    /// place: beside the file, with [`BACKUP_EXTENSION`] for its extension.
    /// There is one such place, so a later backup replaces an earlier one.
    pub fn backup_path(&self) -> (path: String)
        ensures
            path@ == backup_path_for(self@),
    {
        proof {
            reveal_strlit("json.backup");
        }
        path_with_extension(self.path.as_str(), BACKUP_EXTENSION)
    }
}

impl Payload {
    /// The words for this kind of value in a message.
    pub open spec fn words(self) -> Seq<char> {
        match self {
            Payload::Config => "config"@,
            Payload::Modpack => "modpack"@,
            Payload::ModpackList => "modpack list"@,
        }
    }

    /// The words for this kind of value in a message.
    pub fn name(self) -> (words: &'static str)
        ensures
            words@ == self.words(),
    {
        match self {
            Payload::Config => "config",
            Payload::Modpack => "modpack",
            Payload::ModpackList => "modpack list",
        }
    }
}

impl StoreErrorView {
    /// The sentence that tells of this failure, in a result or in a log.
    pub open spec fn message(self) -> Seq<char> {
        match self {
            StoreErrorView::ExecutableUnknown(reason) => "Failed to get executable path: "@
                + reason,
            StoreErrorView::NoExecutableDirectory => "Could not determine executable directory"@,
            StoreErrorView::Unreadable(reason) => "Failed to read config file: "@ + reason,
            StoreErrorView::Empty => "Config file is empty. Using default values."@,
            StoreErrorView::Corrupt(reason) => "Config file corrupted: "@ + reason
                + ". Creating backup."@,
            StoreErrorView::BackupFailed(reason) => "Failed to create backup: "@ + reason,
            StoreErrorView::NotSerialized(payload, reason) => "Failed to serialize "@
                + payload.words() + ": "@ + reason,
            StoreErrorView::NotWritten(reason) => "Failed to write config file: "@ + reason,
        }
    }
}

/// `before` and `after` in one string.
fn joined_text(before: &str, after: &str) -> (text: String)
    ensures
        text@ == before@ + after@,
{
    let mut text = before.to_owned();
    text.append(after);
    text
}

impl StoreError {
    /// The sentence that tells of this failure, in a result or in a log.
    pub fn message(&self) -> (text: String)
        ensures
            text@ == self@.message(),
    {
        match self {
            StoreError::ExecutableUnknown(reason) => joined_text(
                "Failed to get executable path: ",
                reason.as_str(),
            ),
            StoreError::NoExecutableDirectory => "Could not determine executable directory".to_owned(),
            StoreError::Unreadable(reason) => joined_text(
                "Failed to read config file: ",
                reason.as_str(),
            ),
            StoreError::Empty => "Config file is empty. Using default values.".to_owned(),
            StoreError::Corrupt(reason) => {
                let mut text = joined_text("Config file corrupted: ", reason.as_str());
                text.append(". Creating backup.");
                text
            },
            StoreError::BackupFailed(reason) => joined_text(
                "Failed to create backup: ",
                reason.as_str(),
            ),
            StoreError::NotSerialized(payload, reason) => {
                let mut text = joined_text("Failed to serialize ", payload.name());
                text.append(": ");
                text.append(reason.as_str());
                text
            },
            StoreError::NotWritten(reason) => joined_text(
                "Failed to write config file: ",
                reason.as_str(),
            ),
        }
    }
}

/// How the step that the caller last took on the document's file went.
#[derive(Debug)]
pub enum ReadEvent {
    /// No step was taken yet.
    Started,
    /// The file was looked for: it exists, or it does not.
    Probed(bool),
    /// The file was read; holds its text.
    Content(String),
    /// The file could not be read; holds the reason.
    Unreadable(String),
    /// The text was parsed; holds the document in it.
    Parsed(Config),
    /// The text is not a document; holds the parser's reason.
    Malformed(String),
    /// The file was copied to its backup.
    BackedUp,
    /// The file could not be copied to its backup; holds the reason.
    BackupFailed(String),
}

/// A `ReadEvent` as plain values.
pub ghost enum ReadEventView {
    Started,
    Probed(bool),
    Content(Seq<char>),
    Unreadable(Seq<char>),
    Parsed(ConfigView),
    Malformed(Seq<char>),
    BackedUp,
    BackupFailed(Seq<char>),
}

impl View for ReadEvent {
    type V = ReadEventView;

    open spec fn view(&self) -> ReadEventView {
        match self {
            ReadEvent::Started => ReadEventView::Started,
            ReadEvent::Probed(exists) => ReadEventView::Probed(*exists),
            ReadEvent::Content(text) => ReadEventView::Content(text@),
            ReadEvent::Unreadable(reason) => ReadEventView::Unreadable(reason@),
            ReadEvent::Parsed(config) => ReadEventView::Parsed(config@),
            ReadEvent::Malformed(reason) => ReadEventView::Malformed(reason@),
            ReadEvent::BackedUp => ReadEventView::BackedUp,
            ReadEvent::BackupFailed(reason) => ReadEventView::BackupFailed(reason@),
        }
    }
}

/// What the caller is to do next with the document's file.
#[derive(Debug)]
pub enum ReadAction {
    /// Find out whether the file exists, and answer `Probed`.
    Probe,
    /// Read the file as text, and answer `Content` or `Unreadable`.
    ReadText,
    /// Parse this text as a document, and answer `Parsed` or `Malformed`.
    Parse(String),
    /// Copy the file to this path, and answer `BackedUp` or `BackupFailed`.
    BackUp(String),
    /// Stop: this is the document.
    Finish(Config),
}

/// A `ReadAction` as plain values.
pub ghost enum ReadActionView {
    Probe,
    ReadText,
    Parse(Seq<char>),
    BackUp(Seq<char>),
    Finish(ConfigView),
}

impl View for ReadAction {
    type V = ReadActionView;

    open spec fn view(&self) -> ReadActionView {
        match self {
            ReadAction::Probe => ReadActionView::Probe,
            ReadAction::ReadText => ReadActionView::ReadText,
            ReadAction::Parse(text) => ReadActionView::Parse(text@),
            ReadAction::BackUp(path) => ReadActionView::BackUp(path@),
            ReadAction::Finish(config) => ReadActionView::Finish(config@),
        }
    }
}

/// The next step of reading, and what there is to report of the last one.
#[derive(Debug)]
pub struct ReadStep {
    pub action: ReadAction,
    /// A failure that reading recovers from: to be logged, not returned.
    pub report: Option<StoreError>,
}

/// A `ReadStep` as plain values.
pub ghost struct ReadStepView {
    pub action: ReadActionView,
    pub report: Option<StoreErrorView>,
}

impl View for ReadStep {
    type V = ReadStepView;

    open spec fn view(&self) -> ReadStepView {
        ReadStepView {
            action: self.action@,
            report: match self.report {
                Some(error) => Some(error@),
                None => None,
            },
        }
    }
}

impl ReadStepView {
    /// To finish with the initial document, reporting `report`.
    pub open spec fn fall_back(report: Option<StoreErrorView>) -> ReadStepView {
        ReadStepView { action: ReadActionView::Finish(ConfigView::initial()), report }
    }

    /// To take `action`, with nothing to report.
    pub open spec fn go_on(action: ReadActionView) -> ReadStepView {
        ReadStepView { action, report: None }
    }
}

/// The step that follows `event` in reading the file at `path`.
///
/// The file is looked for first. A file that is missing gives the initial
/// document, silently. One that cannot be read, or holds nothing but
/// whitespace, gives it too, and that is reported. Any other text goes to
/// the parser: what the parser makes of it is the document, and text that
/// it refuses is copied to the backup path before the initial document is
/// given, whether or not the copy succeeds.
pub open spec fn step_after(path: Seq<char>, event: ReadEventView) -> ReadStepView {
    match event {
        ReadEventView::Started => ReadStepView::go_on(ReadActionView::Probe),
        ReadEventView::Probed(exists) => if exists {
            ReadStepView::go_on(ReadActionView::ReadText)
        } else {
            ReadStepView::fall_back(None)
        },
        ReadEventView::Content(text) => if trimmed(text).len() == 0 {
            ReadStepView::fall_back(Some(StoreErrorView::Empty))
        } else {
            ReadStepView::go_on(ReadActionView::Parse(text))
        },
        ReadEventView::Unreadable(reason) => ReadStepView::fall_back(
            Some(StoreErrorView::Unreadable(reason)),
        ),
        ReadEventView::Parsed(config) => ReadStepView::go_on(ReadActionView::Finish(config)),
        ReadEventView::Malformed(reason) => ReadStepView {
            action: ReadActionView::BackUp(backup_path_for(path)),
            report: Some(StoreErrorView::Corrupt(reason)),
        },
        ReadEventView::BackedUp => ReadStepView::fall_back(None),
        ReadEventView::BackupFailed(reason) => ReadStepView::fall_back(
            Some(StoreErrorView::BackupFailed(reason)),
        ),
    }
}

impl ConfigManager {
    /// The next step of reading the document, given how the last one went.
    /// Start with `ReadEvent::Started`, take each step that is asked for and
    /// answer with its outcome, until the step is `ReadAction::Finish`.
    pub fn read(&self, event: ReadEvent) -> (step: ReadStep)
        ensures
            step@ == step_after(self@, event@),
    {
        match event {
            ReadEvent::Started => ReadStep { action: ReadAction::Probe, report: None },
            ReadEvent::Probed(exists) => if exists {
                ReadStep { action: ReadAction::ReadText, report: None }
            } else {
                ReadStep { action: ReadAction::Finish(Config::default()), report: None }
            },
            ReadEvent::Content(text) => if trim(text.as_str()).is_empty() {
                ReadStep {
                    action: ReadAction::Finish(Config::default()),
                    report: Some(StoreError::Empty),
                }
            } else {
                ReadStep { action: ReadAction::Parse(text), report: None }
            },
            ReadEvent::Unreadable(reason) => ReadStep {
                action: ReadAction::Finish(Config::default()),
                report: Some(StoreError::Unreadable(reason)),
            },
            ReadEvent::Parsed(config) => ReadStep { action: ReadAction::Finish(config), report: None },
            ReadEvent::Malformed(reason) => ReadStep {
                action: ReadAction::BackUp(self.backup_path()),
                report: Some(StoreError::Corrupt(reason)),
            },
            ReadEvent::BackedUp => ReadStep {
                action: ReadAction::Finish(Config::default()),
                report: None,
            },
            ReadEvent::BackupFailed(reason) => ReadStep {
                action: ReadAction::Finish(Config::default()),
                report: Some(StoreError::BackupFailed(reason)),
            },
        }
    }
}

/// The state of the document's file, as far as reading depends on it.
pub ghost struct FileState {
    /// Whether the file is there.
    pub exists: bool,
    /// What reading it gives: its text, or the reason why it cannot be read.
    pub content: Result<Seq<char>, Seq<char>>,
    /// What the parser makes of that text: a document, or its reason for
    /// refusing.
    pub parsed: Result<ConfigView, Seq<char>>,
    /// How copying the file aside goes.
    pub backup: Result<(), Seq<char>>,
}

impl FileState {
    /// How the caller answers `action` on a file in this state. `Finish`
    /// asks for nothing, and what stands here as its answer is never used.
    pub open spec fn answer(self, action: ReadActionView) -> ReadEventView {
        match action {
            ReadActionView::Probe => ReadEventView::Probed(self.exists),
            ReadActionView::ReadText => match self.content {
                Ok(text) => ReadEventView::Content(text),
                Err(reason) => ReadEventView::Unreadable(reason),
            },
            ReadActionView::Parse(_) => match self.parsed {
                Ok(config) => ReadEventView::Parsed(config),
                Err(reason) => ReadEventView::Malformed(reason),
            },
            ReadActionView::BackUp(_) => match self.backup {
                Ok(_) => ReadEventView::BackedUp,
                Err(reason) => ReadEventView::BackupFailed(reason),
            },
            ReadActionView::Finish(_) => ReadEventView::Started,
        }
    }

    /// The document that reading a file in this state is to give: what the
    /// parser makes of its text, and the initial document where the file is
    /// missing, unreadable, blank or refused by the parser.
    pub open spec fn document(self) -> ConfigView {
        if !self.exists {
            ConfigView::initial()
        } else {
            match self.content {
                Ok(text) => if trimmed(text).len() == 0 {
                    ConfigView::initial()
                } else {
                    match self.parsed {
                        Ok(config) => config,
                        Err(_) => ConfigView::initial(),
                    }
                },
                Err(_) => ConfigView::initial(),
            }
        }
    }

    /// Whether reading a file in this state asks for a backup: it does where
    /// the file has text that is not blank and the parser refuses it.
    pub open spec fn is_corrupt(self) -> bool {
        self.exists && self.content is Ok && trimmed(self.content->Ok_0).len() > 0
            && self.parsed is Err
    }
}

/// The document that the dialogue ends with when it goes on from `event`
/// on a file in the state `file`, if it ends within `steps` further steps.
pub open spec fn finished(path: Seq<char>, file: FileState, event: ReadEventView, steps: nat) -> Option<
    ConfigView,
>
    decreases steps,
{
    match step_after(path, event).action {
        ReadActionView::Finish(config) => Some(config),
        action => if steps == 0 {
            None
        } else {
            finished(path, file, file.answer(action), (steps - 1) as nat)
        },
    }
}

/// Whether the dialogue that goes on from `event` asks for a backup to
/// `to` within `steps` further steps.
pub open spec fn backs_up(
    path: Seq<char>,
    file: FileState,
    event: ReadEventView,
    to: Seq<char>,
    steps: nat,
) -> bool
    decreases steps,
{
    match step_after(path, event).action {
        ReadActionView::Finish(_) => false,
        action => action == ReadActionView::BackUp(to) || (steps > 0 && backs_up(
            path,
            file,
            file.answer(action),
            to,
            (steps - 1) as nat,
        )),
    }
}

/// Reading always ends with a document, after four steps on the file at
/// most, whatever state the file is in: with [`FileState::document`].
pub proof fn lemma_read_ends(path: Seq<char>, file: FileState)
    ensures
        finished(path, file, ReadEventView::Started, 4) == Some(file.document()),
{
    reveal_with_fuel(finished, 5);
}

/// A file that is missing and a file that holds no text both read as the
/// initial document.
pub proof fn lemma_read_of_nothing(path: Seq<char>, file: FileState)
    requires
        !file.exists || file.content == Ok::<Seq<char>, Seq<char>>(Seq::empty()),
    ensures
        finished(path, file, ReadEventView::Started, 4) == Some(ConfigView::initial()),
{
    lemma_read_ends(path, file);
}

/// A file whose text the parser accepts reads as the document that the
/// parser made of it.
pub proof fn lemma_read_of_document(path: Seq<char>, file: FileState, config: ConfigView)
    requires
        file.exists,
        file.content is Ok,
        trimmed(file.content->Ok_0).len() > 0,
        file.parsed == Ok::<ConfigView, Seq<char>>(config),
    ensures
        finished(path, file, ReadEventView::Started, 4) == Some(config),
{
    lemma_read_ends(path, file);
}

/// Reading asks for a backup exactly when the file is corrupt, and then to
/// the backup path only; the document is the initial one whether or not the
/// copy succeeds.
pub proof fn lemma_read_backs_up(path: Seq<char>, file: FileState, to: Seq<char>)
    ensures
        backs_up(path, file, ReadEventView::Started, to, 4) <==> file.is_corrupt() && to
            == backup_path_for(path),
        file.is_corrupt() ==> file.document() == ConfigView::initial(),
{
    reveal_with_fuel(backs_up, 5);
}

} // verus!
