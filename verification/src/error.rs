//! What went wrong, and which HTTP status a failed request is answered with.
use vstd::prelude::*;
use crate::image_format::ImageFormat;

verus! {

/// A header the server writes.
#[derive(Clone, Copy, PartialEq, Eq, Structural, Debug)]
pub enum CommonHeaders {
    ContentType,
}

/// What the server was doing with HTTP when it failed.
#[derive(Clone, Copy, PartialEq, Eq, Structural, Debug)]
pub enum HttpAction {
    BuildingResponse,
}

/// Why a message was being sent to another task.
#[derive(Clone, Copy, PartialEq, Eq, Structural, Debug)]
pub enum ChannelReason {
    SendUpdateCalMessage,
}

/// What the server was doing with an e-mail when it failed.
#[derive(Clone, Copy, PartialEq, Eq, Structural, Debug)]
pub enum LettreAction {
    BuildMessage,
}

/// What the server was doing with an image when it failed.
#[derive(Clone, Copy, PartialEq, Eq, Structural, Debug)]
pub enum ImageAction {
    GuessingFormat,
}

/// Which file an error is about: a name fixed in the source, one made at run time,
/// or a path.
#[derive(Clone, Debug)]
pub enum FileIdentifier {
    Const(&'static str),
    Runtime(String),
    PB(String),
}

/// What could not be written as UTF-8 text: a file's name or a path, as the bytes
/// the system gave, written lossily.
#[derive(Clone, Debug)]
pub enum ConvertingWhatToString {
    FileName(String),
    PathBuffer(String),
}

/// What the server was doing with the S3 bucket when it failed, and with which key.
#[derive(Clone, Debug)]
pub enum S3Action {
    PuttingFile(String),
    GettingFile(String),
    RemovingFile(String),
    ListingFiles(String),
}

/// What the server was doing with a file when it failed.
#[derive(Clone, Debug)]
pub enum IOAction {
    ReadingFile(FileIdentifier),
    OpeningFile(FileIdentifier),
    CreatingFile(FileIdentifier),
    DeletingFile(FileIdentifier),
    ReadingAndOpening(FileIdentifier),
    ReadingDirectory(FileIdentifier),
    WritingToFile,
    FlushingFile,
    WritingToZip,
}

/// What the server was doing with JSON when it failed.
#[derive(Clone, Copy, PartialEq, Eq, Structural, Debug)]
pub enum SerdeJsonAction {
    ParsingLogFile,
    CloudflareTurnstileResponse,
    SessionSerde,
}

/// Why a background task was started.
#[derive(Clone, Copy, PartialEq, Eq, Structural, Debug)]
pub enum ThreadReason {
    FindingExistingFilesWithWalkDir,
    BuildSpreadsheet,
    LiquidCompiler,
}

/// What the server was doing with a page template when it failed.
#[derive(Clone, Debug)]
pub enum LiquidAction {
    BuildingCompiler,
    Parsing { text: String },
    Rendering,
}

/// What the server was doing with an outgoing HTTP request when it failed: the
/// Cloudflare check, reading a failed status (with its code, where there was one), or
/// reading the answer as JSON.
#[derive(Clone, Copy, PartialEq, Eq, Structural, Debug)]
pub enum ReqwestAction {
    CloudflareTurntile,
    RErrorForStatus(Option<u16>),
    ConvertToJson(SerdeJsonAction),
}

/// How a row was being looked up.
#[derive(Clone, Debug)]
pub enum DatabaseIDMethod {
    Id(i32),
    Username(String),
    Path(FileIdentifier),
}

impl From<&'static str> for FileIdentifier {
    fn from(value: &'static str) -> (r: Self) {
        FileIdentifier::Const(value)
    }
}

impl vstd::std_specs::convert::FromSpecImpl<&'static str> for FileIdentifier {
    open spec fn obeys_from_spec() -> bool {
        true
    }

    open spec fn from_spec(v: &'static str) -> Self {
        FileIdentifier::Const(v)
    }
}

impl From<String> for FileIdentifier {
    fn from(value: String) -> (r: Self) {
        FileIdentifier::Runtime(value)
    }
}

impl vstd::std_specs::convert::FromSpecImpl<String> for FileIdentifier {
    open spec fn obeys_from_spec() -> bool {
        true
    }

    open spec fn from_spec(v: String) -> Self {
        FileIdentifier::Runtime(v)
    }
}

impl From<i32> for DatabaseIDMethod {
    fn from(value: i32) -> (r: Self) {
        DatabaseIDMethod::Id(value)
    }
}

impl vstd::std_specs::convert::FromSpecImpl<i32> for DatabaseIDMethod {
    open spec fn obeys_from_spec() -> bool {
        true
    }

    open spec fn from_spec(v: i32) -> Self {
        DatabaseIDMethod::Id(v)
    }
}

impl From<FileIdentifier> for DatabaseIDMethod {
    fn from(value: FileIdentifier) -> (r: Self) {
        DatabaseIDMethod::Path(value)
    }
}

impl vstd::std_specs::convert::FromSpecImpl<FileIdentifier> for DatabaseIDMethod {
    open spec fn obeys_from_spec() -> bool {
        true
    }

    open spec fn from_spec(v: FileIdentifier) -> Self {
        DatabaseIDMethod::Path(v)
    }
}

impl From<String> for DatabaseIDMethod {
    fn from(value: String) -> (r: Self) {
        DatabaseIDMethod::Username(value)
    }
}

impl vstd::std_specs::convert::FromSpecImpl<String> for DatabaseIDMethod {
    open spec fn obeys_from_spec() -> bool {
        true
    }

    open spec fn from_spec(v: String) -> Self {
        DatabaseIDMethod::Username(v)
    }
}

/// What the server was doing with the database when it failed.
#[allow(inconsistent_fields)]
#[derive(Clone, Debug)]
pub enum SqlxAction {
    FindingPerson(DatabaseIDMethod),
    UpdatingPerson(DatabaseIDMethod),
    FindingPeople,
    UpdatingForms { old_name: String, new_name: String },
    AddingPerson,
    RemovingPerson(DatabaseIDMethod),
    FindingEvent(i32),
    UpdatingEvent(i32),
    FindingAllEvents,
    RemovingEvent(i32),
    AddingEvent,
    FindingParticipantOrPrefect { person: DatabaseIDMethod, event_id: i32 },
    UpdatingParticipantOrPrefect { person: DatabaseIDMethod, event_id: i32 },
    AddingParticipantOrPrefect { person: DatabaseIDMethod, event_id: i32 },
    FindingParticipantsOrPrefectsAtEvents { event_id: Option<i32> },
    FindingEventsOnPeople { person: DatabaseIDMethod },
    MassVerifying { event_id: i32 },
    FindingPhotos(DatabaseIDMethod),
    RemovingPhoto(i32),
    AddingPhotos,
    AcquiringConnection,
    GettingRewards,
    GettingRewardsReceived(Option<DatabaseIDMethod>),
    AddingReward,
    GettingEvent(i32),
    GettingBonusPoints,
    AddingBonusPoint,
    UpdatingBonusPoint(i32),
    DeletingBonusPoint(i32),
    FindingParticipantsForBonusPoint { person: DatabaseIDMethod, bonus_point_id: i32 },
    AddingParticipantToBonusPoint { person: DatabaseIDMethod, bonus_point_id: i32 },
    FindingPotentialParticipantsForBonusPoint(i32),
    RemovingParticipantFromBonusPointByRI { relation_id: i32 },
    FindingParticipantOrPrefectByRI { relation_id: i32 },
    RemovingPrefectOrPrefectFromEventByRI { relation_id: i32 },
    AddingSession,
    FindingSession(String),
    RemovingSession(String),
    DeletingOldSessions,
}

/// An image whose format is not known.
#[derive(Clone, Copy, Debug)]
pub struct MissingImageFormat;

impl MissingImageFormat {
    /// The error's message.
    pub fn message(&self) -> (s: &'static str)
        ensures
            s@ == "No image format"@,
    {
        "No image format"
    }
}

/// Which field of a person a CSV row was missing or had wrong.
#[derive(Clone, Copy, PartialEq, Eq, Structural, Debug)]
pub enum PersonField {
    FirstName,
    Surname,
    Form,
    IsPrefect,
    Username,
    WasFirstEntry,
}

/// Which field of an event a CSV row was missing or had wrong.
#[derive(Clone, Copy, PartialEq, Eq, Structural, Debug)]
pub enum EventField {
    Name,
    Date,
    Time,
    Location,
    Teacher,
}

/// The kinds of failure a request can end in, with what decides its status.
#[allow(inconsistent_fields)]
#[derive(Clone, Debug)]
pub enum VentError {
    Sqlx { action: SqlxAction },
    IO { action: IOAction },
    Join { title: ThreadReason },
    ParseTime { original: String },
    Headers { which_header: CommonHeaders },
    Multipart,
    Image { action: ImageAction },
    NoImageExtension { extension: ImageFormat },
    Zip,
    Xlsx,
    Bcrypt,
    ToStr { what: ConvertingWhatToString },
    HeaderToStr { header: CommonHeaders },
    LettreAddress,
    LettreEmail { trying_to: LettreAction },
    LettreSMTP,
    Csv,
    SerdeJson { action: SerdeJsonAction },
    TowerSessions,
    PageNotFound { was_looking_for: String },
    SendError { reason: ChannelReason },
    Http { action: HttpAction },
    MissingExtension { was_looking_for: String },
    UnknownMIME { path: String },
    MissingCFIP,
    MalformedCSVPerson { was_trying_to_get: PersonField },
    MalformedCSVEvent { was_trying_to_get: EventField },
    ParseBool { field: PersonField },
    Liquid { attempt: LiquidAction },
    Reqwest { action: ReqwestAction },
    S3 { action: S3Action },
}

/// The status a failed request is answered with: 404 for a database failure other
/// than getting a connection and for a missing page; 400 for bad input (a time,
/// a header, a multipart body, an image, an image extension, a missing Cloudflare
/// IP); 500 for everything else.
pub open spec fn error_status(kind: VentError) -> u16 {
    match kind {
        VentError::Sqlx { action } => match action {
            SqlxAction::AcquiringConnection => 500,
            _ => 404,
        },
        VentError::ParseTime { .. } => 400,
        VentError::Headers { .. } => 400,
        VentError::Multipart => 400,
        VentError::Image { .. } => 400,
        VentError::NoImageExtension { .. } => 400,
        VentError::MissingCFIP => 400,
        VentError::PageNotFound { .. } => 404,
        _ => 500,
    }
}

impl VentError {
    /// The HTTP status code a request that failed this way is answered with.
    pub fn status_code(&self) -> (code: u16)
        ensures
            code == error_status(*self),
    {
        match self {
            VentError::Sqlx { action } => match action {
                SqlxAction::AcquiringConnection => 500,
                _ => 404,
            },
            VentError::ParseTime { .. } => 400,
            VentError::Headers { .. } => 400,
            VentError::Multipart => 400,
            VentError::Image { .. } => 400,
            VentError::NoImageExtension { .. } => 400,
            VentError::MissingCFIP => 400,
            VentError::PageNotFound { .. } => 404,
            _ => 500,
        }
    }
}

} // verus!
