//! The one error type of the crate.
//!
//! An error carries what a user interface needs to present it: a stable kind, a
//! message, an optional detail, and whether the environment is to blame.

use vstd::prelude::*;
use crate::text::chars::{concat2, concat3, opt_view, push_text};
use crate::text::number::{dec_int, i32_text};
use crate::text::search::starts_with;

verus! {

/// [`std::io::Error`], carried through unopened.
#[verifier::external_type_specification]
#[verifier::external_body]
pub struct ExIoError(std::io::Error);

/// [`std::string::FromUtf8Error`], carried through unopened.
#[verifier::external_type_specification]
#[verifier::external_body]
pub struct ExFromUtf8Error(std::string::FromUtf8Error);

/// [`serde_json::Error`], carried through unopened.
#[verifier::external_type_specification]
#[verifier::external_body]
pub struct ExJsonError(serde_json::Error);

/// Everything that can go wrong.
#[derive(Debug)]
pub enum DroidLogError {
    /// The `adb` binary could not be located or executed.
    AdbUnavailable(String),
    /// `adb` ran but exited non-zero.
    AdbCommandFailed { command: String, code: i32, stderr: String },
    /// The requested serial is not in `adb devices`.
    DeviceNotFound(String),
    /// Root mode was requested but `su` refused.
    RootUnavailable { serial: String, reason: String },
    /// A subprocess could not be started at all.
    Spawn { program: String, source: std::io::Error },
    /// A child process lost its stdout or stderr pipe.
    PipeUnavailable(String),
    /// Input or output failed.
    Io(std::io::Error),
    /// Bytes were not UTF-8.
    Utf8(std::string::FromUtf8Error),
    /// JSON could not be read or written.
    Json(serde_json::Error),
    /// A filter rule failed validation before being applied.
    InvalidFilter(String),
    /// A caller-supplied argument was rejected.
    InvalidInput(String),
    /// No collector has this name.
    UnknownSource(String),
    /// No session has this id.
    SessionNotFound(String),
    /// A session of this id is running.
    SessionAlreadyRunning(String),
    /// A breach of an invariant that has no better name.
    Internal(String),
}

/// Crate-wide result alias.
pub type Result<T> = std::result::Result<T, DroidLogError>;

/// What an error says, without the outside errors it may carry.
pub enum ErrorView {
    AdbUnavailable(Seq<char>),
    AdbCommandFailed { command: Seq<char>, code: i32, stderr: Seq<char> },
    DeviceNotFound(Seq<char>),
    RootUnavailable { serial: Seq<char>, reason: Seq<char> },
    Spawn { program: Seq<char> },
    PipeUnavailable(Seq<char>),
    Io,
    Utf8,
    Json,
    InvalidFilter(Seq<char>),
    InvalidInput(Seq<char>),
    UnknownSource(Seq<char>),
    SessionNotFound(Seq<char>),
    SessionAlreadyRunning(Seq<char>),
    Internal(Seq<char>),
}

impl View for DroidLogError {
    type V = ErrorView;

    open spec fn view(&self) -> ErrorView {
        match self {
            DroidLogError::AdbUnavailable(text) => ErrorView::AdbUnavailable(text@),
            DroidLogError::AdbCommandFailed { command, code, stderr } => ErrorView::AdbCommandFailed {
                command: command@,
                code: *code,
                stderr: stderr@,
            },
            DroidLogError::DeviceNotFound(text) => ErrorView::DeviceNotFound(text@),
            DroidLogError::RootUnavailable { serial, reason } => ErrorView::RootUnavailable {
                serial: serial@,
                reason: reason@,
            },
            DroidLogError::Spawn { program, source } => ErrorView::Spawn { program: program@ },
            DroidLogError::PipeUnavailable(text) => ErrorView::PipeUnavailable(text@),
            DroidLogError::Io(_) => ErrorView::Io,
            DroidLogError::Utf8(_) => ErrorView::Utf8,
            DroidLogError::Json(_) => ErrorView::Json,
            DroidLogError::InvalidFilter(text) => ErrorView::InvalidFilter(text@),
            DroidLogError::InvalidInput(text) => ErrorView::InvalidInput(text@),
            DroidLogError::UnknownSource(text) => ErrorView::UnknownSource(text@),
            DroidLogError::SessionNotFound(text) => ErrorView::SessionNotFound(text@),
            DroidLogError::SessionAlreadyRunning(text) => ErrorView::SessionAlreadyRunning(text@),
            DroidLogError::Internal(text) => ErrorView::Internal(text@),
        }
    }
}

impl ErrorView {
    /// The stable name of the variant.
    pub open spec fn kind(self) -> Seq<char> {
        match self {
            ErrorView::AdbUnavailable(_) => "adbUnavailable"@,
            ErrorView::AdbCommandFailed { .. } => "adbCommandFailed"@,
            ErrorView::DeviceNotFound(_) => "deviceNotFound"@,
            ErrorView::RootUnavailable { .. } => "rootUnavailable"@,
            ErrorView::Spawn { .. } => "spawn"@,
            ErrorView::PipeUnavailable(_) => "pipeUnavailable"@,
            ErrorView::Io => "io"@,
            ErrorView::Utf8 => "utf8"@,
            ErrorView::Json => "json"@,
            ErrorView::InvalidFilter(_) => "invalidFilter"@,
            ErrorView::InvalidInput(_) => "invalidInput"@,
            ErrorView::UnknownSource(_) => "unknownSource"@,
            ErrorView::SessionNotFound(_) => "sessionNotFound"@,
            ErrorView::SessionAlreadyRunning(_) => "sessionAlreadyRunning"@,
            ErrorView::Internal(_) => "internal"@,
        }
    }

    /// The extra context shown under the message.
    pub open spec fn detail(self) -> Option<Seq<char>> {
        match self {
            ErrorView::AdbCommandFailed { command, code, stderr } => if stderr.len() > 0 {
                Some(stderr)
            } else {
                None
            },
            ErrorView::RootUnavailable { serial, reason } => Some(reason),
            ErrorView::Internal(detail) => Some(detail),
            _ => None,
        }
    }

    /// Whether the environment, not a bug, is to blame.
    pub open spec fn environmental(self) -> bool {
        self is AdbUnavailable || self is DeviceNotFound || self is RootUnavailable || self is Spawn
            || self is PipeUnavailable
    }

    /// What the message begins with; where `complete`, all of it. The rest is
    /// the text of the outside error that the variant carries.
    pub open spec fn message(self) -> (Seq<char>, bool) {
        match self {
            ErrorView::AdbUnavailable(text) => ("adb 不可用："@ + text, true),
            ErrorView::AdbCommandFailed { command, code, stderr } => (
                "adb 命令失败（"@ + command + "，退出码 "@ + dec_int(code as int) + "）："@ + stderr,
                true,
            ),
            ErrorView::DeviceNotFound(text) => ("设备不存在："@ + text, true),
            ErrorView::RootUnavailable { serial, reason } => (
                "设备 "@ + serial + " 无法使用 root："@ + reason,
                true,
            ),
            ErrorView::Spawn { program } => ("无法启动进程 `"@ + program + "`："@, false),
            ErrorView::PipeUnavailable(text) => ("无法读取进程输出："@ + text, true),
            ErrorView::Io => ("IO 错误："@, false),
            ErrorView::Utf8 => ("文本编码错误："@, false),
            ErrorView::Json => ("JSON 错误："@, false),
            ErrorView::InvalidFilter(text) => ("过滤规则无效："@ + text, true),
            ErrorView::InvalidInput(text) => ("参数无效："@ + text, true),
            ErrorView::UnknownSource(text) => ("未知采集源："@ + text, true),
            ErrorView::SessionNotFound(text) => ("采集会话不存在："@ + text, true),
            ErrorView::SessionAlreadyRunning(text) => ("采集会话已在运行："@ + text, true),
            ErrorView::Internal(text) => ("内部错误："@ + text, true),
        }
    }
}

/// The text is a message of the error: all of it, or, where the error carries an
/// outside error, beginning with what is known of it.
pub open spec fn says(error: ErrorView, text: Seq<char>) -> bool {
    &&& starts_with(text, error.message().0)
    &&& error.message().1 ==> text == error.message().0
}

/// What the user interface is handed for an error.
#[derive(Debug)]
pub struct ErrorPayload {
    pub kind: &'static str,
    pub message: String,
    pub detail: Option<String>,
    pub environmental: bool,
}

impl DroidLogError {
    /// Stable machine-readable discriminant.
    pub fn kind(&self) -> (r: &'static str)
        ensures
            r@ == self@.kind(),
    {
        match self {
            DroidLogError::AdbUnavailable(_) => "adbUnavailable",
            DroidLogError::AdbCommandFailed { .. } => "adbCommandFailed",
            DroidLogError::DeviceNotFound(_) => "deviceNotFound",
            DroidLogError::RootUnavailable { .. } => "rootUnavailable",
            DroidLogError::Spawn { .. } => "spawn",
            DroidLogError::PipeUnavailable(_) => "pipeUnavailable",
            DroidLogError::Io(_) => "io",
            DroidLogError::Utf8(_) => "utf8",
            DroidLogError::Json(_) => "json",
            DroidLogError::InvalidFilter(_) => "invalidFilter",
            DroidLogError::InvalidInput(_) => "invalidInput",
            DroidLogError::UnknownSource(_) => "unknownSource",
            DroidLogError::SessionNotFound(_) => "sessionNotFound",
            DroidLogError::SessionAlreadyRunning(_) => "sessionAlreadyRunning",
            DroidLogError::Internal(_) => "internal",
        }
    }

    /// Optional extra context: a stderr text, or a reason.
    ///
    /// A rejected argument or filter has none, because its message is the reason.
    pub fn detail(&self) -> (r: Option<String>)
        ensures
            opt_view(r) == self@.detail(),
    {
        match self {
            DroidLogError::AdbCommandFailed { command, code, stderr } => {
                if stderr.as_str().is_empty() {
                    None
                } else {
                    Some(stderr.clone())
                }
            }
            DroidLogError::RootUnavailable { serial, reason } => Some(reason.clone()),
            DroidLogError::Internal(detail) => Some(detail.clone()),
            _ => None,
        }
    }

    /// True when the failure is environmental (no device, no adb) rather than a bug.
    pub fn is_environmental(&self) -> (r: bool)
        ensures
            r == self@.environmental(),
    {
        match self {
            DroidLogError::AdbUnavailable(_) => true,
            DroidLogError::DeviceNotFound(_) => true,
            DroidLogError::RootUnavailable { .. } => true,
            DroidLogError::Spawn { .. } => true,
            DroidLogError::PipeUnavailable(_) => true,
            _ => false,
        }
    }

    /// Attaches command context to a spawn failure.
    pub fn spawn(program: &str, source: std::io::Error) -> (r: Self)
        ensures
            r@ == (ErrorView::Spawn { program: program@ }),
            r matches DroidLogError::Spawn { program: _, source: kept } && kept == source,
    {
        DroidLogError::Spawn { program: program.to_owned(), source }
    }

    /// The standard error for a non-zero exit.
    pub fn command_failed(command: &str, code: i32, stderr: &str) -> (r: Self)
        ensures
            r@ == (ErrorView::AdbCommandFailed { command: command@, code, stderr: stderr@ }),
    {
        DroidLogError::AdbCommandFailed { command: command.to_owned(), code, stderr: stderr.to_owned() }
    }

    /// The message shown to the user.
    ///
    /// An outside error contributes its own text at the end, which depends on the
    /// platform that raised it.
    pub fn to_string(&self) -> (r: String)
        ensures
            says(self@, r@),
    {
        let r: String = match self {
            DroidLogError::AdbUnavailable(text) => concat2("adb 不可用：", text.as_str()),
            DroidLogError::AdbCommandFailed { command, code, stderr } => {
                let mut r: String = concat3("adb 命令失败（", command.as_str(), "，退出码 ");
                let number: String = i32_text(*code);
                push_text(&mut r, number.as_str());
                push_text(&mut r, "）：");
                push_text(&mut r, stderr.as_str());
                r
            }
            DroidLogError::DeviceNotFound(text) => concat2("设备不存在：", text.as_str()),
            DroidLogError::RootUnavailable { serial, reason } => {
                let mut r: String = concat3("设备 ", serial.as_str(), " 无法使用 root：");
                push_text(&mut r, reason.as_str());
                r
            }
            DroidLogError::Spawn { program, source } => {
                let mut r: String = concat3("无法启动进程 `", program.as_str(), "`：");
                let cause: String = source.to_string();
                let ghost before = r@;
                push_text(&mut r, cause.as_str());
                assert(r@.take(before.len() as int) =~= before);
                r
            }
            DroidLogError::PipeUnavailable(text) => concat2("无法读取进程输出：", text.as_str()),
            DroidLogError::Io(source) => {
                let cause: String = source.to_string();
                with_cause("IO 错误：", cause.as_str())
            }
            DroidLogError::Utf8(source) => {
                let cause: String = source.to_string();
                with_cause("文本编码错误：", cause.as_str())
            }
            DroidLogError::Json(source) => {
                let cause: String = source.to_string();
                with_cause("JSON 错误：", cause.as_str())
            }
            DroidLogError::InvalidFilter(text) => concat2("过滤规则无效：", text.as_str()),
            DroidLogError::InvalidInput(text) => concat2("参数无效：", text.as_str()),
            DroidLogError::UnknownSource(text) => concat2("未知采集源：", text.as_str()),
            DroidLogError::SessionNotFound(text) => concat2("采集会话不存在：", text.as_str()),
            DroidLogError::SessionAlreadyRunning(text) => concat2("采集会话已在运行：", text.as_str()),
            DroidLogError::Internal(text) => concat2("内部错误：", text.as_str()),
        };
        assert(r@.take(r@.len() as int) =~= r@);
        r
    }

    /// The structured form handed to the user interface.
    pub fn payload(&self) -> (r: ErrorPayload)
        ensures
            r.kind@ == self@.kind(),
            says(self@, r.message@),
            opt_view(r.detail) == self@.detail(),
            r.environmental == self@.environmental(),
    {
        ErrorPayload {
            kind: self.kind(),
            message: self.to_string(),
            detail: self.detail(),
            environmental: self.is_environmental(),
        }
    }
}

/// A label followed by the text of the error behind it.
fn with_cause(label: &str, cause: &str) -> (r: String)
    ensures
        r@ == label@ + cause@,
        starts_with(r@, label@),
{
    let r: String = concat2(label, cause);
    assert(r@.take(label@.len() as int) =~= label@);
    r
}

impl From<std::io::Error> for DroidLogError {
    fn from(source: std::io::Error) -> (r: Self) {
        DroidLogError::Io(source)
    }
}

impl vstd::std_specs::convert::FromSpecImpl<std::io::Error> for DroidLogError {
    open spec fn obeys_from_spec() -> bool {
        true
    }

    open spec fn from_spec(source: std::io::Error) -> Self {
        DroidLogError::Io(source)
    }
}

impl From<std::string::FromUtf8Error> for DroidLogError {
    fn from(source: std::string::FromUtf8Error) -> (r: Self) {
        DroidLogError::Utf8(source)
    }
}

impl vstd::std_specs::convert::FromSpecImpl<std::string::FromUtf8Error> for DroidLogError {
    open spec fn obeys_from_spec() -> bool {
        true
    }

    open spec fn from_spec(source: std::string::FromUtf8Error) -> Self {
        DroidLogError::Utf8(source)
    }
}

impl From<serde_json::Error> for DroidLogError {
    fn from(source: serde_json::Error) -> (r: Self) {
        DroidLogError::Json(source)
    }
}

impl vstd::std_specs::convert::FromSpecImpl<serde_json::Error> for DroidLogError {
    open spec fn obeys_from_spec() -> bool {
        true
    }

    open spec fn from_spec(source: serde_json::Error) -> Self {
        DroidLogError::Json(source)
    }
}

/// The message of an error tells its detail, at its end.
pub proof fn law_messages_tell_the_detail(error: ErrorView)
    ensures
        error.detail() matches Some(detail) ==> {
            let text = error.message().0;
            &&& error.message().1
            &&& text.len() >= detail.len()
            &&& text.skip(text.len() - detail.len()) == detail
        },
        error.detail() is Some ==> error is AdbCommandFailed || error is RootUnavailable || error is Internal,
        error is RootUnavailable || error is Internal ==> error.detail() is Some,
        !error.message().1 <==> error is Spawn || error is Io || error is Utf8 || error is Json,
{
    if error.detail() is Some {
        let detail = error.detail()->0;
        let text = error.message().0;
        assert(text.skip(text.len() - detail.len()) =~= detail);
    }
}

/// The environment is to blame where adb, a device, root or a process could not be had;
/// the name of the error tells which errors these are.
pub proof fn law_whose_fault(error: ErrorView)
    ensures
        error.environmental() <==> {
            let kind = error.kind();
            ||| kind == "adbUnavailable"@
            ||| kind == "deviceNotFound"@
            ||| kind == "rootUnavailable"@
            ||| kind == "spawn"@
            ||| kind == "pipeUnavailable"@
        },
{
    reveal_strlit("adbUnavailable");
    reveal_strlit("adbCommandFailed");
    reveal_strlit("deviceNotFound");
    reveal_strlit("rootUnavailable");
    reveal_strlit("spawn");
    reveal_strlit("pipeUnavailable");
    reveal_strlit("io");
    reveal_strlit("utf8");
    reveal_strlit("json");
    reveal_strlit("invalidFilter");
    reveal_strlit("invalidInput");
    reveal_strlit("unknownSource");
    reveal_strlit("sessionNotFound");
    reveal_strlit("sessionAlreadyRunning");
    reveal_strlit("internal");
    let kind = error.kind();
    assert(kind.len() == "adbUnavailable"@.len() ==> kind == "adbUnavailable"@ || kind == "deviceNotFound"@
        || kind[0] != 'a' && kind[0] != 'd');
    assert(kind[0] == 'a' && kind.len() == 14 ==> error is AdbUnavailable);
    assert(kind[0] == 'd' && kind.len() == 14 ==> error is DeviceNotFound);
    assert(kind[0] == 'r' ==> error is RootUnavailable);
    assert(kind[0] == 's' && kind.len() == 5 ==> error is Spawn);
    assert(kind[0] == 'p' ==> error is PipeUnavailable);
}

} // verus!
