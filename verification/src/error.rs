//! Errors of the session layer and the text they are reported with.

use vstd::prelude::*;
use vstd::string::StringExecFns;
use vstd::string::StrSliceExecFns;

verus! {

/// What the service's client library reports when a request fails, as plain
/// text: either an error status from the service, with its code and message,
/// or any other failure, with its description.
#[derive(Debug, Clone, PartialEq, Eq)]
pub enum ClientFailure {
    Service { code: String, message: String },
    Other { text: String },
}

/// The code of a service status, or the description of any other failure.
pub open spec fn status_text(error: ClientFailure) -> Seq<char> {
    match error {
        ClientFailure::Service { code, message } => code@,
        ClientFailure::Other { text } => text@,
    }
}

/// The status to show for a failed request: the service's status code where
/// the service answered, the failure's own description otherwise.
pub fn s2_status(error: &ClientFailure) -> (status: String)
    ensures
        status@ == status_text(*error),
{
    match error {
        ClientFailure::Service { code, message } => code.clone(),
        ClientFailure::Other { text } => text.clone(),
    }
}

/// The status code and message of a failed request.
#[derive(Debug, Clone, PartialEq, Eq)]
pub struct RequestStatus {
    pub message: String,
    pub status: String,
}

/// Mathematical model of a [`RequestStatus`].
pub struct RequestStatusView {
    pub message: Seq<char>,
    pub status: Seq<char>,
}

impl View for RequestStatus {
    type V = RequestStatusView;

    open spec fn view(&self) -> RequestStatusView {
        RequestStatusView { message: self.message@, status: self.status@ }
    }
}

impl RequestStatusView {
    /// The status as one text: the code, a colon and a line break, the message.
    pub open spec fn text(self) -> Seq<char> {
        self.status + ": \n"@ + self.message
    }

    /// The status that stands for a client failure: code and message of a
    /// service status; for any other failure its description as the message,
    /// with an empty code.
    pub open spec fn of_failure(error: ClientFailure) -> RequestStatusView {
        match error {
            ClientFailure::Service { code, message } => RequestStatusView {
                message: message@,
                status: code@,
            },
            ClientFailure::Other { text } => RequestStatusView {
                message: text@,
                status: Seq::empty(),
            },
        }
    }
}

impl Default for RequestStatus {
    fn default() -> (r: RequestStatus)
        ensures
            r@.message.len() == 0,
            r@.status.len() == 0,
    {
        RequestStatus { message: String::new(), status: String::new() }
    }
}

impl RequestStatus {
    /// A status with the given code and message.
    pub fn new(status: String, message: String) -> (r: RequestStatus)
        ensures
            r@ == (RequestStatusView { message: message@, status: status@ }),
    {
        RequestStatus { message, status }
    }

    /// The status that stands for a client failure.
    pub fn from(error: ClientFailure) -> (r: RequestStatus)
        ensures
            r@ == RequestStatusView::of_failure(error),
    {
        match error {
            ClientFailure::Service { code, message } => RequestStatus { message, status: code },
            ClientFailure::Other { text } => RequestStatus { message: text, status: String::new() },
        }
    }

    /// A copy of the status.
    pub fn duplicate(&self) -> (r: RequestStatus)
        ensures
            r@ == self@,
    {
        RequestStatus { message: self.message.clone(), status: self.status.clone() }
    }

    /// The status as one text: `{status}: \n{message}`.
    pub fn to_text(&self) -> (text: String)
        ensures
            text@ == self@.text(),
    {
        let text = self.status.clone().concat(": \n").concat(self.message.as_str());
        assert(text@ =~= self@.text());
        text
    }
}

/// Which exchange with the service an error ended.
#[derive(Debug, Clone, Copy, PartialEq, Eq, Structural)]
pub enum ServiceErrorContext {
    AppendSession,
    ReadSession,
}

/// A failed operation of the service: what was being done to what, and the
/// status that came back.
#[derive(Debug, Clone, PartialEq, Eq)]
pub struct ServiceError {
    entity: String,
    operation: String,
    error: RequestStatus,
    extra: String,
    plural: Option<&'static str>,
    context: Option<ServiceErrorContext>,
}

/// Mathematical model of a [`ServiceError`].
pub struct ServiceErrorView {
    pub entity: Seq<char>,
    pub operation: Seq<char>,
    pub error: RequestStatusView,
    pub extra: Seq<char>,
    pub plural: Option<Seq<char>>,
    pub context: Option<ServiceErrorContext>,
}

impl View for ServiceError {
    type V = ServiceErrorView;

    closed spec fn view(&self) -> ServiceErrorView {
        ServiceErrorView {
            entity: self.entity@,
            operation: self.operation@,
            error: self.error@,
            extra: self.extra@,
            plural: match self.plural {
                Some(p) => Some(p@),
                None => None,
            },
            context: self.context,
        }
    }
}

impl ServiceErrorView {
    /// The plural ending, or nothing.
    pub open spec fn plural_text(self) -> Seq<char> {
        match self.plural {
            Some(p) => p,
            None => Seq::empty(),
        }
    }

    /// `Failed to {operation} {entity}{plural} {extra}: \n{error}`.
    pub open spec fn text(self) -> Seq<char> {
        "Failed to "@ + self.operation + " "@ + self.entity + self.plural_text() + " "@
            + self.extra + ": \n"@ + self.error.text()
    }

    /// The entity and the operation that stand for a session.
    pub open spec fn of_session(
        context: ServiceErrorContext,
        error: RequestStatusView,
    ) -> ServiceErrorView {
        ServiceErrorView {
            entity: "stream"@,
            operation: match context {
                ServiceErrorContext::AppendSession => "append to"@,
                ServiceErrorContext::ReadSession => "read from"@,
            },
            error,
            extra: Seq::empty(),
            plural: None,
            context: Some(context),
        }
    }
}

/// Whether the text ends with the letter `s`.
pub open spec fn ends_with_s(text: Seq<char>) -> bool {
    text.len() > 0 && text.last() == 's'
}

/// The ending that makes the entity of an operation plural: `es` after an
/// operation that ends with `s`, else `s`.
pub open spec fn plural_ending(operation: Seq<char>) -> Seq<char> {
    if ends_with_s(operation) {
        "es"@
    } else {
        "s"@
    }
}

impl ServiceError {
    /// An error for `operation` on `entity` that ended with `error`: no extra
    /// text, singular, outside any session.
    pub fn new(entity: String, operation: String, error: RequestStatus) -> (r: ServiceError)
        ensures
            r@ == (ServiceErrorView {
                entity: entity@,
                operation: operation@,
                error: error@,
                extra: Seq::empty(),
                plural: None,
                context: None,
            }),
    {
        ServiceError { entity, operation, error, extra: String::new(), plural: None, context: None }
    }

    /// The error that ends a session of the given kind.
    pub fn in_session(context: ServiceErrorContext, error: RequestStatus) -> (r: ServiceError)
        ensures
            r@ == ServiceErrorView::of_session(context, error@),
    {
        let operation = match context {
            ServiceErrorContext::AppendSession => String::from_str("append to"),
            ServiceErrorContext::ReadSession => String::from_str("read from"),
        };
        ServiceError {
            entity: String::from_str("stream"),
            operation,
            error,
            extra: String::new(),
            plural: None,
            context: Some(context),
        }
    }

    /// The same error with `extra` as its extra text.
    pub fn with_extra(self, extra: String) -> (r: ServiceError)
        ensures
            r@ == (ServiceErrorView { extra: extra@, ..self@ }),
    {
        ServiceError {
            entity: self.entity,
            operation: self.operation,
            error: self.error,
            extra,
            plural: self.plural,
            context: self.context,
        }
    }

    /// The same error with its entity in the plural: the ending is `es` where
    /// the operation ends with `s`, else `s`.
    pub fn with_plural(self) -> (r: ServiceError)
        ensures
            r@ == (ServiceErrorView { plural: Some(plural_ending(self@.operation)), ..self@ }),
    {
        let n = self.operation.as_str().unicode_len();
        let ends = n > 0 && self.operation.as_str().get_char(n - 1) == 's';
        let plural: &'static str = if ends {
            "es"
        } else {
            "s"
        };
        ServiceError {
            entity: self.entity,
            operation: self.operation,
            error: self.error,
            extra: self.extra,
            plural: Some(plural),
            context: self.context,
        }
    }

    /// The session that the error ended, if it ended one.
    pub fn context(&self) -> (c: Option<ServiceErrorContext>)
        ensures
            c == self@.context,
    {
        self.context
    }

    /// The status that the service answered with.
    pub fn status(&self) -> (s: &RequestStatus)
        ensures
            s@ == self@.error,
    {
        &self.error
    }

    /// A copy of the error.
    pub fn duplicate(&self) -> (r: ServiceError)
        ensures
            r@ == self@,
    {
        ServiceError {
            entity: self.entity.clone(),
            operation: self.operation.clone(),
            error: self.error.duplicate(),
            extra: self.extra.clone(),
            plural: self.plural,
            context: self.context,
        }
    }

    /// The error as one text:
    /// `Failed to {operation} {entity}{plural} {extra}: \n{error}`.
    pub fn to_text(&self) -> (text: String)
        ensures
            text@ == self@.text(),
    {
        let plural: &str = match self.plural {
            Some(p) => p,
            None => "",
        };
        proof {
            reveal_strlit("");
        }
        let status = self.error.to_text();
        let text = String::from_str("Failed to ").concat(self.operation.as_str()).concat(
            " ",
        ).concat(self.entity.as_str()).concat(plural).concat(" ").concat(
            self.extra.as_str(),
        ).concat(": \n").concat(status.as_str());
        assert(plural@ =~= self@.plural_text());
        assert(text@ =~= self@.text());
        text
    }
}

/// The character of one decimal digit.
pub open spec fn digit_char(d: nat) -> char {
    if d == 0 {
        '0'
    } else if d == 1 {
        '1'
    } else if d == 2 {
        '2'
    } else if d == 3 {
        '3'
    } else if d == 4 {
        '4'
    } else if d == 5 {
        '5'
    } else if d == 6 {
        '6'
    } else if d == 7 {
        '7'
    } else if d == 8 {
        '8'
    } else {
        '9'
    }
}

/// A number written in decimal, without leading zeros.
pub open spec fn decimal(n: nat) -> Seq<char>
    decreases n,
{
    if n < 10 {
        seq![digit_char(n)]
    } else {
        decimal(n / 10).push(digit_char(n % 10))
    }
}

fn digit_text(d: u64) -> (text: &'static str)
    requires
        d < 10,
    ensures
        text@ == seq![digit_char(d as nat)],
{
    proof {
        reveal_strlit("0");
        reveal_strlit("1");
        reveal_strlit("2");
        reveal_strlit("3");
        reveal_strlit("4");
        reveal_strlit("5");
        reveal_strlit("6");
        reveal_strlit("7");
        reveal_strlit("8");
        reveal_strlit("9");
    }
    let text = if d == 0 {
        "0"
    } else if d == 1 {
        "1"
    } else if d == 2 {
        "2"
    } else if d == 3 {
        "3"
    } else if d == 4 {
        "4"
    } else if d == 5 {
        "5"
    } else if d == 6 {
        "6"
    } else if d == 7 {
        "7"
    } else if d == 8 {
        "8"
    } else {
        "9"
    };
    assert(text@ =~= seq![digit_char(d as nat)]);
    text
}

/// A number written in decimal, without leading zeros.
pub fn decimal_text(n: u64) -> (text: String)
    ensures
        text@ == decimal(n as nat),
    decreases n,
{
    if n < 10 {
        String::from_str(digit_text(n))
    } else {
        let text = decimal_text(n / 10).concat(digit_text(n % 10));
        assert(text@ =~= decimal((n / 10) as nat).push(digit_char((n % 10) as nat)));
        text
    }
}

/// Advice shown with errors that may have come from a wrong setup.
pub const HELP: &'static str =
    "\nNotice something wrong?\n\n > Open an issue:\nhttps://github.com/s2-cli/issues\n\n > Reach out to us:\nhi@s2.dev";

/// Advice shown with errors that point at a defect.
pub const BUG_HELP: &'static str =
    "\nLooks like you may have encountered a bug!\n\n > Report this issue here: \nhttps://github.com/s2-cli/issues\n";

/// Everything that can end a command. The variants that wrap a text hold the
/// description of a failure that arose outside the session layer.
#[derive(Debug, Clone, PartialEq, Eq)]
pub enum S2CliError {
    /// The stored configuration could not be read or written.
    Config(String),
    /// A value could not be converted into what the service expects.
    ConvertError(String),
    /// The endpoints given by the environment could not be parsed.
    HostEndpoints(String),
    /// An operation on a basin failed.
    BasinService(String),
    /// An operation on a stream failed.
    StreamService(String),
    /// The service rejected a request or ended a session.
    ServiceError(ServiceError),
    /// The stored configuration is not valid.
    InvalidConfig(String),
    /// The source of records could not be opened.
    RecordReaderInit(String),
    /// The source of records failed while it was read.
    RecordRead(String),
    /// The sink for records failed while it was written.
    RecordWrite(String),
    /// A single record is larger than a whole batch may be.
    RecordTooLarge { size: u64, limit: u64 },
    /// The session was cancelled.
    Aborted,
}

/// Mathematical model of an [`S2CliError`].
pub enum S2CliErrorView {
    Config(Seq<char>),
    ConvertError(Seq<char>),
    HostEndpoints(Seq<char>),
    BasinService(Seq<char>),
    StreamService(Seq<char>),
    ServiceError(ServiceErrorView),
    InvalidConfig(Seq<char>),
    RecordReaderInit(Seq<char>),
    RecordRead(Seq<char>),
    RecordWrite(Seq<char>),
    RecordTooLarge { size: u64, limit: u64 },
    Aborted,
}

impl View for S2CliError {
    type V = S2CliErrorView;

    open spec fn view(&self) -> S2CliErrorView {
        match self {
            S2CliError::Config(m) => S2CliErrorView::Config(m@),
            S2CliError::ConvertError(m) => S2CliErrorView::ConvertError(m@),
            S2CliError::HostEndpoints(m) => S2CliErrorView::HostEndpoints(m@),
            S2CliError::BasinService(m) => S2CliErrorView::BasinService(m@),
            S2CliError::StreamService(m) => S2CliErrorView::StreamService(m@),
            S2CliError::ServiceError(e) => S2CliErrorView::ServiceError(e@),
            S2CliError::InvalidConfig(m) => S2CliErrorView::InvalidConfig(m@),
            S2CliError::RecordReaderInit(m) => S2CliErrorView::RecordReaderInit(m@),
            S2CliError::RecordRead(m) => S2CliErrorView::RecordRead(m@),
            S2CliError::RecordWrite(m) => S2CliErrorView::RecordWrite(m@),
            S2CliError::RecordTooLarge { size, limit } => S2CliErrorView::RecordTooLarge {
                size: *size,
                limit: *limit,
            },
            S2CliError::Aborted => S2CliErrorView::Aborted,
        }
    }
}

impl S2CliErrorView {
    /// The text that reports the error.
    pub open spec fn text(self) -> Seq<char> {
        match self {
            S2CliErrorView::Config(m) => m,
            S2CliErrorView::ConvertError(m) => m,
            S2CliErrorView::HostEndpoints(m) => m,
            S2CliErrorView::BasinService(m) => m,
            S2CliErrorView::StreamService(m) => m,
            S2CliErrorView::ServiceError(e) => e.text(),
            S2CliErrorView::InvalidConfig(m) => m,
            S2CliErrorView::RecordReaderInit(m) => "Failed to initialize a `Record Reader`! "@ + m,
            S2CliErrorView::RecordRead(m) => "Failed to read records: "@ + m,
            S2CliErrorView::RecordWrite(m) => "Failed to write records: "@ + m,
            S2CliErrorView::RecordTooLarge { size, limit } =>
                "Failed to batch records: a record of "@ + decimal(size as nat)
                    + " metered bytes exceeds the "@ + decimal(limit as nat)
                    + " that a batch may hold"@,
            S2CliErrorView::Aborted => "Aborted"@,
        }
    }

    /// The advice that goes with the error, where there is any.
    pub open spec fn help(self) -> Option<Seq<char>> {
        match self {
            S2CliErrorView::ConvertError(m) => Some(
                "Are you trying to operate on an invalid basin?"@,
            ),
            S2CliErrorView::HostEndpoints(m) => Some(
                "Are you overriding `S2_CLOUD`, `S2_CELL`, or `S2_BASIN_ZONE`?"@,
            ),
            S2CliErrorView::BasinService(m) => Some(HELP@),
            S2CliErrorView::StreamService(m) => Some(HELP@),
            S2CliErrorView::InvalidConfig(m) => Some(BUG_HELP@),
            _ => None,
        }
    }
}

/// Model of an optional error.
pub open spec fn error_view(error: Option<S2CliError>) -> Option<S2CliErrorView> {
    match error {
        Some(e) => Some(e@),
        None => None,
    }
}

/// Model of an optional advice.
pub open spec fn help_view(help: Option<&'static str>) -> Option<Seq<char>> {
    match help {
        Some(h) => Some(h@),
        None => None,
    }
}

impl S2CliError {
    /// The error that wraps a failed service operation.
    pub fn from_service(error: ServiceError) -> (r: S2CliError)
        ensures
            r@ == S2CliErrorView::ServiceError(error@),
    {
        S2CliError::ServiceError(error)
    }

    /// Whether the error is a cancellation, which ends a command without
    /// making it a failure.
    pub fn is_aborted(&self) -> (aborted: bool)
        ensures
            aborted == (self@ is Aborted),
    {
        match self {
            S2CliError::Aborted => true,
            _ => false,
        }
    }

    /// The status to leave the process with: zero after a cancellation, one
    /// after any other error.
    pub fn exit_code(&self) -> (code: u8)
        ensures
            code == (if self@ is Aborted {
                0u8
            } else {
                1u8
            }),
    {
        if self.is_aborted() {
            0
        } else {
            1
        }
    }

    /// The text that reports the error.
    pub fn to_text(&self) -> (text: String)
        ensures
            text@ == self@.text(),
    {
        match self {
            S2CliError::Config(m) => m.clone(),
            S2CliError::ConvertError(m) => m.clone(),
            S2CliError::HostEndpoints(m) => m.clone(),
            S2CliError::BasinService(m) => m.clone(),
            S2CliError::StreamService(m) => m.clone(),
            S2CliError::ServiceError(e) => e.to_text(),
            S2CliError::InvalidConfig(m) => m.clone(),
            S2CliError::RecordReaderInit(m) => String::from_str(
                "Failed to initialize a `Record Reader`! ",
            ).concat(m.as_str()),
            S2CliError::RecordRead(m) => String::from_str("Failed to read records: ").concat(
                m.as_str(),
            ),
            S2CliError::RecordWrite(m) => String::from_str("Failed to write records: ").concat(
                m.as_str(),
            ),
            S2CliError::RecordTooLarge { size, limit } => {
                let text = String::from_str("Failed to batch records: a record of ").concat(
                    decimal_text(*size).as_str(),
                ).concat(" metered bytes exceeds the ").concat(
                    decimal_text(*limit).as_str(),
                ).concat(" that a batch may hold");
                assert(text@ =~= self@.text());
                text
            },
            S2CliError::Aborted => String::from_str("Aborted"),
        }
    }

    /// The advice that goes with the error, where there is any.
    pub fn help(&self) -> (help: Option<&'static str>)
        ensures
            help_view(help) == self@.help(),
    {
        match self {
            S2CliError::ConvertError(_) => Some("Are you trying to operate on an invalid basin?"),
            S2CliError::HostEndpoints(_) => Some(
                "Are you overriding `S2_CLOUD`, `S2_CELL`, or `S2_BASIN_ZONE`?",
            ),
            S2CliError::BasinService(_) => Some(HELP),
            S2CliError::StreamService(_) => Some(HELP),
            S2CliError::InvalidConfig(_) => Some(BUG_HELP),
            _ => None,
        }
    }

    /// A copy of the error.
    pub fn duplicate(&self) -> (r: S2CliError)
        ensures
            r@ == self@,
    {
        match self {
            S2CliError::Config(m) => S2CliError::Config(m.clone()),
            S2CliError::ConvertError(m) => S2CliError::ConvertError(m.clone()),
            S2CliError::HostEndpoints(m) => S2CliError::HostEndpoints(m.clone()),
            S2CliError::BasinService(m) => S2CliError::BasinService(m.clone()),
            S2CliError::StreamService(m) => S2CliError::StreamService(m.clone()),
            S2CliError::ServiceError(e) => S2CliError::ServiceError(e.duplicate()),
            S2CliError::InvalidConfig(m) => S2CliError::InvalidConfig(m.clone()),
            S2CliError::RecordReaderInit(m) => S2CliError::RecordReaderInit(m.clone()),
            S2CliError::RecordRead(m) => S2CliError::RecordRead(m.clone()),
            S2CliError::RecordWrite(m) => S2CliError::RecordWrite(m.clone()),
            S2CliError::RecordTooLarge { size, limit } => S2CliError::RecordTooLarge {
                size: *size,
                limit: *limit,
            },
            S2CliError::Aborted => S2CliError::Aborted,
        }
    }
}

} // verus!
