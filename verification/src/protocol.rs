//! The CTAP2 protocol engine.
//!
//! The engine never talks to a device itself. Each operation has two halves:
//! the first checks its arguments and returns the request bytes that must be
//! sent, the command byte and behind it the parameters as the caller's codec
//! encoded them; the second takes what came back from the device ([`DeviceReply`]),
//! decodes it by the command that was sent, maps status codes to errors and
//! updates the PIN session. Whoever owns the transport performs the exchange
//! between the two halves, bounded by the engine's timeout.

use crate::error::{ctap_error_view, YKeyError, YKeyErrorView, YKeyResult};
use crate::types::{GetAssertionParams, MakeCredentialParams};
use std::time::Duration;
use vstd::prelude::*;
use vstd::string::*;

verus! {

/// The whole seconds that a `Duration` holds: what `Duration::as_secs`
/// returns.
pub uninterp spec fn duration_secs(d: Duration) -> u64;

/// `Duration::from_secs` makes a duration of that many whole seconds.
pub assume_specification[ Duration::from_secs ](secs: u64) -> (d: Duration)
    ensures
        duration_secs(d) == secs,
;

/// `Duration::as_secs` returns the whole seconds of the duration.
pub assume_specification[ Duration::as_secs ](d: &Duration) -> (secs: u64)
    ensures
        secs == duration_secs(*d),
;

/// The default bound on one exchange with the device, in seconds.
pub const DEFAULT_TIMEOUT_SECS: u64 = 30;

/// The PIN protocol version that a token is negotiated under.
pub const PIN_PROTOCOL_VERSION: u8 = 1;

/// The least number of characters in a PIN.
pub const MIN_PIN_LENGTH: usize = 4;

/// The greatest number of characters in a PIN.
pub const MAX_PIN_LENGTH: usize = 8;

/// Client PIN command variants.
#[derive(Debug, Clone)]
pub enum ClientPinCommand {
    SetPin { pin: String },
    ChangePin { old_pin: String, new_pin: String },
    GetPinToken { pin: String },
}

/// CTAP command types.
#[derive(Debug, Clone)]
pub enum CtapCommand {
    GetInfo,
    MakeCredential(MakeCredentialParams),
    GetAssertion(GetAssertionParams),
    Reset,
    ClientPin(ClientPinCommand),
    GetNextAssertion,
    Cancel,
}

/// Which command a request carries. A response can only be read by the kind
/// of the command that it answers.
#[derive(Debug, Clone, Copy, PartialEq, Eq, Structural, Hash)]
pub enum CommandKind {
    GetInfo,
    MakeCredential,
    GetAssertion,
    Reset,
    SetPin,
    ChangePin,
    GetPinToken,
    GetNextAssertion,
    Cancel,
}

/// CTAP response types. A variant that answers a command with a payload
/// holds that payload as the device sent it.
#[derive(Debug, Clone)]
pub enum CtapResponse {
    GetInfo(Vec<u8>),
    MakeCredential(Vec<u8>),
    GetAssertion(Vec<u8>),
    Reset,
    ClientPin,
    ClientPinToken(Vec<u8>),
    Cancel,
    Error(u8),
}

/// What a [`CtapResponse`] holds.
pub enum CtapResponseView {
    GetInfo(Seq<u8>),
    MakeCredential(Seq<u8>),
    GetAssertion(Seq<u8>),
    Reset,
    ClientPin,
    ClientPinToken(Seq<u8>),
    Cancel,
    Error(u8),
}

impl View for CtapResponse {
    type V = CtapResponseView;

    open spec fn view(&self) -> CtapResponseView {
        match *self {
            CtapResponse::GetInfo(p) => CtapResponseView::GetInfo(p@),
            CtapResponse::MakeCredential(p) => CtapResponseView::MakeCredential(p@),
            CtapResponse::GetAssertion(p) => CtapResponseView::GetAssertion(p@),
            CtapResponse::Reset => CtapResponseView::Reset,
            CtapResponse::ClientPin => CtapResponseView::ClientPin,
            CtapResponse::ClientPinToken(p) => CtapResponseView::ClientPinToken(p@),
            CtapResponse::Cancel => CtapResponseView::Cancel,
            CtapResponse::Error(code) => CtapResponseView::Error(code),
        }
    }
}

/// What came back from one exchange with the device.
#[derive(Debug)]
pub enum DeviceReply {
    /// The device answered with these bytes.
    Data(Vec<u8>),
    /// The transport failed.
    Failed(YKeyError),
    /// No answer came within the engine's timeout.
    TimedOut,
}

/// What a [`DeviceReply`] holds.
pub enum DeviceReplyView {
    Data(Seq<u8>),
    Failed(YKeyErrorView),
    TimedOut,
}

impl View for DeviceReply {
    type V = DeviceReplyView;

    open spec fn view(&self) -> DeviceReplyView {
        match *self {
            DeviceReply::Data(b) => DeviceReplyView::Data(b@),
            DeviceReply::Failed(e) => DeviceReplyView::Failed(e@),
            DeviceReply::TimedOut => DeviceReplyView::TimedOut,
        }
    }
}

/// The command bytes of each kind of command: the command byte, or for
/// Cancel the keep-alive cancel packet.
pub open spec fn command_bytes(kind: CommandKind) -> Seq<u8> {
    match kind {
        CommandKind::GetInfo => seq![0x04u8],
        CommandKind::MakeCredential => seq![0x01u8],
        CommandKind::GetAssertion => seq![0x02u8],
        CommandKind::Reset => seq![0x07u8],
        CommandKind::SetPin => seq![0x06u8],
        CommandKind::ChangePin => seq![0x06u8],
        CommandKind::GetPinToken => seq![0x06u8],
        CommandKind::GetNextAssertion => seq![0x08u8],
        CommandKind::Cancel => seq![0x3Fu8, 0x00u8, 0x00u8, 0x00u8],
    }
}

/// Whether a command of this kind has parameters, which travel encoded
/// behind the command byte.
pub open spec fn has_parameters(kind: CommandKind) -> bool {
    match kind {
        CommandKind::MakeCredential => true,
        CommandKind::GetAssertion => true,
        CommandKind::SetPin => true,
        CommandKind::ChangePin => true,
        CommandKind::GetPinToken => true,
        CommandKind::GetInfo => false,
        CommandKind::Reset => false,
        CommandKind::GetNextAssertion => false,
        CommandKind::Cancel => false,
    }
}

/// The bytes of a request: the command bytes, and behind them, for a command
/// with parameters, the encoded parameters.
pub open spec fn request_bytes(kind: CommandKind, payload: Seq<u8>) -> Seq<u8> {
    if has_parameters(kind) {
        command_bytes(kind) + payload
    } else {
        command_bytes(kind)
    }
}

/// Whether a successful answer to this kind of command carries a payload.
pub open spec fn carries_payload(kind: CommandKind) -> bool {
    match kind {
        CommandKind::GetInfo => true,
        CommandKind::MakeCredential => true,
        CommandKind::GetAssertion => true,
        CommandKind::GetNextAssertion => true,
        CommandKind::GetPinToken => true,
        CommandKind::Reset => false,
        CommandKind::SetPin => false,
        CommandKind::ChangePin => false,
        CommandKind::Cancel => false,
    }
}

/// The response that a successful answer to this kind of command is read as.
pub open spec fn success_response(kind: CommandKind, payload: Seq<u8>) -> CtapResponseView {
    match kind {
        CommandKind::GetInfo => CtapResponseView::GetInfo(payload),
        CommandKind::MakeCredential => CtapResponseView::MakeCredential(payload),
        CommandKind::GetAssertion => CtapResponseView::GetAssertion(payload),
        CommandKind::GetNextAssertion => CtapResponseView::GetAssertion(payload),
        CommandKind::GetPinToken => CtapResponseView::ClientPinToken(payload),
        CommandKind::Reset => CtapResponseView::Reset,
        CommandKind::SetPin => CtapResponseView::ClientPin,
        CommandKind::ChangePin => CtapResponseView::ClientPin,
        CommandKind::Cancel => CtapResponseView::Cancel,
    }
}

/// How the bytes of a response are read, given the kind of command that they
/// answer. Byte 0 is the status: a non-zero status is an error code; status
/// zero is success, and the rest is the payload, which must be there exactly
/// when that kind of command has one.
pub open spec fn decoded(kind: CommandKind, data: Seq<u8>) -> Result<
    CtapResponseView,
    YKeyErrorView,
> {
    if data.len() == 0 {
        Err(YKeyErrorView::CommunicationError("Empty response"@))
    } else if data[0] != 0 {
        Ok(CtapResponseView::Error(data[0]))
    } else if carries_payload(kind) == (data.len() > 1) {
        Ok(success_response(kind, data.skip(1)))
    } else {
        Err(YKeyErrorView::UnexpectedResponse)
    }
}

/// What one exchange amounts to: a timeout becomes `Timeout` with the whole
/// seconds of the bound, a failure of the transport reaches the caller as it
/// is, and an answer is decoded.
pub open spec fn received(kind: CommandKind, timeout_secs: u64, reply: DeviceReplyView) -> Result<
    CtapResponseView,
    YKeyErrorView,
> {
    match reply {
        DeviceReplyView::TimedOut => Err(YKeyErrorView::Timeout { seconds: timeout_secs }),
        DeviceReplyView::Failed(e) => Err(e),
        DeviceReplyView::Data(data) => decoded(kind, data),
    }
}

/// The payload of a response that answers this kind of command; none if the
/// response answers another kind.
pub open spec fn answer(kind: CommandKind, response: CtapResponseView) -> Option<Seq<u8>> {
    match (kind, response) {
        (CommandKind::GetInfo, CtapResponseView::GetInfo(p)) => Some(p),
        (CommandKind::MakeCredential, CtapResponseView::MakeCredential(p)) => Some(p),
        (CommandKind::GetAssertion, CtapResponseView::GetAssertion(p)) => Some(p),
        (CommandKind::GetNextAssertion, CtapResponseView::GetAssertion(p)) => Some(p),
        (CommandKind::GetPinToken, CtapResponseView::ClientPinToken(p)) => Some(p),
        (CommandKind::Reset, CtapResponseView::Reset) => Some(Seq::empty()),
        (CommandKind::SetPin, CtapResponseView::ClientPin) => Some(Seq::empty()),
        (CommandKind::ChangePin, CtapResponseView::ClientPin) => Some(Seq::empty()),
        (CommandKind::Cancel, CtapResponseView::Cancel) => Some(Seq::empty()),
        _ => None,
    }
}

/// How an operation ends on a response: with the payload where the response
/// answers its command, with the error of the status code where the device
/// reported one, and with `UnexpectedResponse` otherwise.
pub open spec fn concluded(kind: CommandKind, response: CtapResponseView) -> Result<
    Seq<u8>,
    YKeyErrorView,
> {
    match response {
        CtapResponseView::Error(code) => Err(ctap_error_view(code)),
        _ => match answer(kind, response) {
            Some(p) => Ok(p),
            None => Err(YKeyErrorView::UnexpectedResponse),
        },
    }
}

/// How an operation ends on what came back from the device.
pub open spec fn settled(kind: CommandKind, timeout_secs: u64, reply: DeviceReplyView) -> Result<
    Seq<u8>,
    YKeyErrorView,
> {
    match received(kind, timeout_secs, reply) {
        Ok(response) => concluded(kind, response),
        Err(e) => Err(e),
    }
}

/// Whether a PIN has an accepted length: 4 to 8 characters.
pub open spec fn pin_length_ok(pin: Seq<char>) -> bool {
    MIN_PIN_LENGTH <= pin.len() <= MAX_PIN_LENGTH
}

/// The error for a PIN of a length that is not accepted.
pub open spec fn pin_length_error() -> YKeyErrorView {
    YKeyErrorView::InvalidParameters("PIN must be 4-8 characters"@)
}

/// The error for a PIN/UV auth parameter that comes without its protocol
/// version.
pub open spec fn auth_param_error() -> YKeyErrorView {
    YKeyErrorView::InvalidParameters("PIN/UV auth parameter requires a protocol version"@)
}

/// The request of an operation: the bytes of the request if its arguments
/// are accepted, the error otherwise.
pub open spec fn request(
    kind: CommandKind,
    payload: Seq<u8>,
    accepted: bool,
    refusal: YKeyErrorView,
) -> Result<Seq<u8>, YKeyErrorView> {
    if accepted {
        Ok(request_bytes(kind, payload))
    } else {
        Err(refusal)
    }
}

/// The PIN session of an engine: the token it holds, if any, and the PIN
/// protocol version that the token was obtained under.
pub struct PinSession {
    pub token: Option<Seq<u8>>,
    pub version: Option<u8>,
}

/// The session without a token.
pub open spec fn no_session() -> PinSession {
    PinSession { token: None, version: None }
}

/// The PIN session after an operation has ended. A verified PIN stores the
/// token that came back; a reset and a changed PIN drop the token; every
/// failure, and every other operation, leaves the session as it was.
pub open spec fn session_after(
    kind: CommandKind,
    before: PinSession,
    outcome: Result<Seq<u8>, YKeyErrorView>,
) -> PinSession {
    match outcome {
        Err(_) => before,
        Ok(payload) => match kind {
            CommandKind::GetPinToken => PinSession {
                token: Some(payload),
                version: Some(PIN_PROTOCOL_VERSION),
            },
            CommandKind::Reset => no_session(),
            CommandKind::ChangePin => no_session(),
            _ => before,
        },
    }
}

impl ClientPinCommand {
    /// Which command this is.
    pub open spec fn kind_spec(self) -> CommandKind {
        match self {
            ClientPinCommand::SetPin { .. } => CommandKind::SetPin,
            ClientPinCommand::ChangePin { .. } => CommandKind::ChangePin,
            ClientPinCommand::GetPinToken { .. } => CommandKind::GetPinToken,
        }
    }

    /// Which command this is.
    pub fn kind(&self) -> (r: CommandKind)
        ensures
            r == self.kind_spec(),
    {
        match self {
            ClientPinCommand::SetPin { .. } => CommandKind::SetPin,
            ClientPinCommand::ChangePin { .. } => CommandKind::ChangePin,
            ClientPinCommand::GetPinToken { .. } => CommandKind::GetPinToken,
        }
    }
}

impl CtapCommand {
    /// Which command this is.
    pub open spec fn kind_spec(self) -> CommandKind {
        match self {
            CtapCommand::GetInfo => CommandKind::GetInfo,
            CtapCommand::MakeCredential(_) => CommandKind::MakeCredential,
            CtapCommand::GetAssertion(_) => CommandKind::GetAssertion,
            CtapCommand::Reset => CommandKind::Reset,
            CtapCommand::ClientPin(c) => c.kind_spec(),
            CtapCommand::GetNextAssertion => CommandKind::GetNextAssertion,
            CtapCommand::Cancel => CommandKind::Cancel,
        }
    }

    /// Which command this is.
    pub fn kind(&self) -> (r: CommandKind)
        ensures
            r == self.kind_spec(),
    {
        match self {
            CtapCommand::GetInfo => CommandKind::GetInfo,
            CtapCommand::MakeCredential(_) => CommandKind::MakeCredential,
            CtapCommand::GetAssertion(_) => CommandKind::GetAssertion,
            CtapCommand::Reset => CommandKind::Reset,
            CtapCommand::ClientPin(c) => c.kind(),
            CtapCommand::GetNextAssertion => CommandKind::GetNextAssertion,
            CtapCommand::Cancel => CommandKind::Cancel,
        }
    }

    /// Whether this command has parameters.
    pub fn has_parameters(&self) -> (r: bool)
        ensures
            r == has_parameters(self.kind_spec()),
    {
        match self {
            CtapCommand::MakeCredential(_) => true,
            CtapCommand::GetAssertion(_) => true,
            CtapCommand::ClientPin(_) => true,
            CtapCommand::GetInfo => false,
            CtapCommand::Reset => false,
            CtapCommand::GetNextAssertion => false,
            CtapCommand::Cancel => false,
        }
    }

    /// The bytes of the request for this command: the command bytes, and
    /// behind them the encoded parameters. `payload` holds the parameters as
    /// the protocol encodes them; a command without parameters has no
    /// payload, and what is handed in for it is left out.
    pub fn encode(&self, payload: &[u8]) -> (r: YKeyResult<Vec<u8>>)
        ensures
            r matches Ok(bytes) && bytes@ == request_bytes(self.kind_spec(), payload@),
    {
        let mut bytes: Vec<u8> = Vec::new();
        match self {
            CtapCommand::GetInfo => {
                bytes.push(0x04);
            },
            CtapCommand::MakeCredential(_) => {
                bytes.push(0x01);
            },
            CtapCommand::GetAssertion(_) => {
                bytes.push(0x02);
            },
            CtapCommand::Reset => {
                bytes.push(0x07);
            },
            CtapCommand::ClientPin(_) => {
                bytes.push(0x06);
            },
            CtapCommand::GetNextAssertion => {
                bytes.push(0x08);
            },
            CtapCommand::Cancel => {
                bytes.push(0x3F);
                bytes.push(0x00);
                bytes.push(0x00);
                bytes.push(0x00);
            },
        }
        assert(bytes@ =~= command_bytes(self.kind_spec()));
        if self.has_parameters() {
            let mut i: usize = 0;
            while i < payload.len()
                invariant
                    i <= payload@.len(),
                    bytes@ == command_bytes(self.kind_spec()) + payload@.take(i as int),
                decreases payload@.len() - i,
            {
                bytes.push(payload[i]);
                assert(bytes@ =~= command_bytes(self.kind_spec()) + payload@.take(i + 1));
                i = i + 1;
            }
            assert(payload@.take(i as int) =~= payload@);
        }
        Ok(bytes)
    }
}

fn copy_bytes(data: &[u8], from: usize) -> (r: Vec<u8>)
    requires
        from <= data@.len(),
    ensures
        r@ == data@.skip(from as int),
{
    let mut out: Vec<u8> = Vec::new();
    let mut i: usize = from;
    while i < data.len()
        invariant
            from <= i <= data@.len(),
            out@ == data@.subrange(from as int, i as int),
        decreases data@.len() - i,
    {
        out.push(data[i]);
        assert(out@ =~= data@.subrange(from as int, i + 1));
        i = i + 1;
    }
    assert(out@ =~= data@.skip(from as int));
    out
}

impl CtapResponse {
    /// Reads the bytes of a response, given the kind of command that they
    /// answer.
    pub fn decode(kind: CommandKind, data: &[u8]) -> (r: YKeyResult<Self>)
        ensures
            match r {
                Ok(response) => decoded(kind, data@) == Ok::<CtapResponseView, YKeyErrorView>(
                    response@,
                ),
                Err(e) => decoded(kind, data@) == Err::<CtapResponseView, YKeyErrorView>(e@),
            },
    {
        if data.len() == 0 {
            return Err(YKeyError::communication("Empty response"));
        }
        let status: u8 = data[0];
        if status != 0 {
            return Ok(CtapResponse::Error(status));
        }
        let has_payload = data.len() > 1;
        match kind {
            CommandKind::GetInfo => if has_payload {
                Ok(CtapResponse::GetInfo(copy_bytes(data, 1)))
            } else {
                Err(YKeyError::UnexpectedResponse)
            },
            CommandKind::MakeCredential => if has_payload {
                Ok(CtapResponse::MakeCredential(copy_bytes(data, 1)))
            } else {
                Err(YKeyError::UnexpectedResponse)
            },
            CommandKind::GetAssertion => if has_payload {
                Ok(CtapResponse::GetAssertion(copy_bytes(data, 1)))
            } else {
                Err(YKeyError::UnexpectedResponse)
            },
            CommandKind::GetNextAssertion => if has_payload {
                Ok(CtapResponse::GetAssertion(copy_bytes(data, 1)))
            } else {
                Err(YKeyError::UnexpectedResponse)
            },
            CommandKind::GetPinToken => if has_payload {
                Ok(CtapResponse::ClientPinToken(copy_bytes(data, 1)))
            } else {
                Err(YKeyError::UnexpectedResponse)
            },
            CommandKind::Reset => if has_payload {
                Err(YKeyError::UnexpectedResponse)
            } else {
                Ok(CtapResponse::Reset)
            },
            CommandKind::SetPin => if has_payload {
                Err(YKeyError::UnexpectedResponse)
            } else {
                Ok(CtapResponse::ClientPin)
            },
            CommandKind::ChangePin => if has_payload {
                Err(YKeyError::UnexpectedResponse)
            } else {
                Ok(CtapResponse::ClientPin)
            },
            CommandKind::Cancel => if has_payload {
                Err(YKeyError::UnexpectedResponse)
            } else {
                Ok(CtapResponse::Cancel)
            },
        }
    }

    /// Ends an operation on a response: hands out the payload where the
    /// response answers the command, and the error otherwise.
    pub fn conclude(self, kind: CommandKind) -> (r: YKeyResult<Vec<u8>>)
        ensures
            match r {
                Ok(payload) => concluded(kind, self@) == Ok::<Seq<u8>, YKeyErrorView>(payload@),
                Err(e) => concluded(kind, self@) == Err::<Seq<u8>, YKeyErrorView>(e@),
            },
    {
        match self {
            CtapResponse::Error(code) => Err(YKeyError::ctap_error(code)),
            CtapResponse::GetInfo(p) => match kind {
                CommandKind::GetInfo => Ok(p),
                _ => Err(YKeyError::UnexpectedResponse),
            },
            CtapResponse::MakeCredential(p) => match kind {
                CommandKind::MakeCredential => Ok(p),
                _ => Err(YKeyError::UnexpectedResponse),
            },
            CtapResponse::GetAssertion(p) => match kind {
                CommandKind::GetAssertion => Ok(p),
                CommandKind::GetNextAssertion => Ok(p),
                _ => Err(YKeyError::UnexpectedResponse),
            },
            CtapResponse::ClientPinToken(p) => match kind {
                CommandKind::GetPinToken => Ok(p),
                _ => Err(YKeyError::UnexpectedResponse),
            },
            CtapResponse::Reset => match kind {
                CommandKind::Reset => Ok(Vec::new()),
                _ => Err(YKeyError::UnexpectedResponse),
            },
            CtapResponse::ClientPin => match kind {
                CommandKind::SetPin => Ok(Vec::new()),
                CommandKind::ChangePin => Ok(Vec::new()),
                _ => Err(YKeyError::UnexpectedResponse),
            },
            CtapResponse::Cancel => match kind {
                CommandKind::Cancel => Ok(Vec::new()),
                _ => Err(YKeyError::UnexpectedResponse),
            },
        }
    }
}

/// Whether a result with bytes is the given outcome.
pub open spec fn same_bytes(r: YKeyResult<Vec<u8>>, outcome: Result<Seq<u8>, YKeyErrorView>) -> bool {
    match r {
        Ok(bytes) => outcome == Ok::<Seq<u8>, YKeyErrorView>(bytes@),
        Err(e) => outcome == Err::<Seq<u8>, YKeyErrorView>(e@),
    }
}

/// Whether a result without a value is the given outcome.
pub open spec fn same_unit(r: YKeyResult<()>, outcome: Result<Seq<u8>, YKeyErrorView>) -> bool {
    match r {
        Ok(_) => outcome is Ok,
        Err(e) => outcome == Err::<Seq<u8>, YKeyErrorView>(e@),
    }
}

/// Whether a result with a response is the given outcome.
pub open spec fn same_response(
    r: YKeyResult<CtapResponse>,
    outcome: Result<CtapResponseView, YKeyErrorView>,
) -> bool {
    match r {
        Ok(response) => outcome == Ok::<CtapResponseView, YKeyErrorView>(response@),
        Err(e) => outcome == Err::<CtapResponseView, YKeyErrorView>(e@),
    }
}

/// Accepts a PIN of 4 to 8 characters and refuses any other with
/// `InvalidParameters`.
pub fn check_pin_length(pin: &str) -> (r: YKeyResult<()>)
    ensures
        match r {
            Ok(_) => pin_length_ok(pin@),
            Err(e) => !pin_length_ok(pin@) && e@ == pin_length_error(),
        },
{
    let n: usize = pin.unicode_len();
    if n < MIN_PIN_LENGTH || n > MAX_PIN_LENGTH {
        Err(YKeyError::InvalidParameters(String::from_str("PIN must be 4-8 characters")))
    } else {
        Ok(())
    }
}

/// The token of a PIN session with the PIN protocol version it was obtained
/// under: both are there, or neither.
struct PinState {
    token: Option<Vec<u8>>,
    version: Option<u8>,
}

impl PinState {
    #[verifier::type_invariant]
    spec fn token_has_version(self) -> bool {
        self.token is Some <==> self.version is Some
    }

    fn empty() -> (r: Self)
        ensures
            r.token is None,
            r.version is None,
    {
        PinState { token: None, version: None }
    }

    fn holding(token: Vec<u8>) -> (r: Self)
        ensures
            r.token == Some(token),
            r.version == Some(PIN_PROTOCOL_VERSION),
    {
        PinState { token: Some(token), version: Some(PIN_PROTOCOL_VERSION) }
    }
}

/// FIDO2 protocol client: the protocol engine of one device.
///
/// It holds the device, the bound on one exchange, and the PIN session: the
/// token obtained by the last verified PIN, if it is still valid, and the
/// PIN protocol version of that token.
pub struct Fido2Client<D> {
    device: D,
    pin: PinState,
    timeout: Duration,
}

impl<D> Fido2Client<D> {
    /// The PIN session.
    pub closed spec fn session(&self) -> PinSession {
        PinSession {
            token: match self.pin.token {
                Some(t) => Some(t@),
                None => None,
            },
            version: self.pin.version,
        }
    }

    /// The bound on one exchange.
    pub closed spec fn timeout_spec(&self) -> Duration {
        self.timeout
    }

    /// The whole seconds of the bound on one exchange.
    pub open spec fn timeout_secs(&self) -> u64 {
        duration_secs(self.timeout_spec())
    }

    /// The device.
    pub closed spec fn device_spec(&self) -> D {
        self.device
    }

    /// An engine for the device, without a token and with the default
    /// timeout of 30 seconds.
    pub fn new(device: D) -> (r: Self)
        ensures
            r.device_spec() == device,
            r.session() == no_session(),
            r.timeout_secs() == DEFAULT_TIMEOUT_SECS,
    {
        Fido2Client {
            device,
            pin: PinState::empty(),
            timeout: Duration::from_secs(DEFAULT_TIMEOUT_SECS),
        }
    }

    /// An engine for the device, without a token and with the given timeout.
    pub fn with_timeout(device: D, timeout: Duration) -> (r: Self)
        ensures
            r.device_spec() == device,
            r.session() == no_session(),
            r.timeout_spec() == timeout,
    {
        Fido2Client { device, pin: PinState::empty(), timeout }
    }

    /// Sets the bound on one exchange.
    pub fn set_timeout(&mut self, timeout: Duration)
        ensures
            final(self).timeout_spec() == timeout,
            final(self).session() == old(self).session(),
            final(self).device_spec() == old(self).device_spec(),
    {
        self.timeout = timeout;
    }

    /// The bound on one exchange.
    pub fn timeout(&self) -> (r: Duration)
        ensures
            r == self.timeout_spec(),
    {
        self.timeout
    }

    /// The PIN token, if one is held.
    pub fn pin_token(&self) -> (r: Option<&Vec<u8>>)
        ensures
            match r {
                Some(t) => self.session().token == Some(t@),
                None => self.session().token is None,
            },
    {
        self.pin.token.as_ref()
    }

    /// Drops the PIN token and its protocol version.
    pub fn clear_pin_token(&mut self)
        ensures
            final(self).session() == no_session(),
            final(self).timeout_spec() == old(self).timeout_spec(),
            final(self).device_spec() == old(self).device_spec(),
    {
        self.pin = PinState::empty();
    }

    /// The device.
    pub fn device(&self) -> (r: &D)
        ensures
            *r == self.device_spec(),
    {
        &self.device
    }

    /// The device, for the exchange with it. The engine's session and timeout
    /// do not change, whatever is done to the device.
    pub fn device_mut(&mut self) -> (r: &mut D)
        ensures
            *r == old(self).device_spec(),
            final(self).device_spec() == *final(r),
            final(self).session() == old(self).session(),
            final(self).timeout_spec() == old(self).timeout_spec(),
    {
        &mut self.device
    }

    /// Whether a PIN token is held.
    pub fn has_pin_token(&self) -> (r: bool)
        ensures
            r == self.session().token is Some,
            r == self.session().version is Some,
    {
        proof {
            use_type_invariant(&self.pin);
        }
        self.pin.token.is_some()
    }

    /// The PIN protocol version in use, if a token is held.
    pub fn pin_protocol_version(&self) -> (r: Option<u8>)
        ensures
            r == self.session().version,
    {
        self.pin.version
    }

    /// The request half of every operation: the bytes that must be sent to
    /// the device, the command bytes and behind them the encoded parameters
    /// of a command that has parameters.
    pub fn send_ctap_command(&self, command: &CtapCommand, payload: &[u8]) -> (r: YKeyResult<
        Vec<u8>,
    >)
        ensures
            r matches Ok(bytes) && bytes@ == request_bytes(command.kind_spec(), payload@),
    {
        command.encode(payload)
    }

    /// The response half of every operation: a timeout becomes `Timeout`
    /// with the whole seconds of the engine's bound, a failure of the
    /// transport comes back unchanged, and an answer is decoded by the kind
    /// of command that it answers.
    pub fn receive(&self, kind: CommandKind, reply: DeviceReply) -> (r: YKeyResult<CtapResponse>)
        ensures
            same_response(r, received(kind, self.timeout_secs(), reply@)),
            reply matches DeviceReply::Failed(failure) ==> r == Err::<CtapResponse, YKeyError>(
                failure,
            ),
    {
        match reply {
            DeviceReply::TimedOut => Err(YKeyError::timeout(self.timeout.as_secs())),
            DeviceReply::Failed(e) => Err(e),
            DeviceReply::Data(data) => CtapResponse::decode(kind, data.as_slice()),
        }
    }

    fn settle(&self, kind: CommandKind, reply: DeviceReply) -> (r: YKeyResult<Vec<u8>>)
        ensures
            same_bytes(r, settled(kind, self.timeout_secs(), reply@)),
    {
        match self.receive(kind, reply) {
            Ok(response) => response.conclude(kind),
            Err(e) => Err(e),
        }
    }

    /// Starts GetInfo: the request to send.
    pub fn get_info(&self) -> (r: YKeyResult<Vec<u8>>)
        ensures
            r matches Ok(bytes) && bytes@ == command_bytes(CommandKind::GetInfo),
    {
        self.send_ctap_command(&CtapCommand::GetInfo, &[])
    }

    /// Ends GetInfo: the payload that describes the authenticator.
    pub fn complete_get_info(&self, reply: DeviceReply) -> (r: YKeyResult<Vec<u8>>)
        ensures
            same_bytes(r, settled(CommandKind::GetInfo, self.timeout_secs(), reply@)),
    {
        self.settle(CommandKind::GetInfo, reply)
    }

    /// Starts MakeCredential: the request to send, the command byte and
    /// behind it `payload`, the encoded parameters. Parameters that carry a
    /// PIN/UV auth parameter without its protocol version are refused.
    pub fn make_credential(&self, params: MakeCredentialParams, payload: &[u8]) -> (r: YKeyResult<
        Vec<u8>,
    >)
        ensures
            same_bytes(
                r,
                request(CommandKind::MakeCredential, payload@, params.wf(), auth_param_error()),
            ),
    {
        if !params.is_well_formed() {
            return Err(
                YKeyError::InvalidParameters(
                    String::from_str("PIN/UV auth parameter requires a protocol version"),
                ),
            );
        }
        self.send_ctap_command(&CtapCommand::MakeCredential(params), payload)
    }

    /// Ends MakeCredential: the payload that holds the attestation.
    pub fn complete_make_credential(&self, reply: DeviceReply) -> (r: YKeyResult<Vec<u8>>)
        ensures
            same_bytes(r, settled(CommandKind::MakeCredential, self.timeout_secs(), reply@)),
    {
        self.settle(CommandKind::MakeCredential, reply)
    }

    /// Starts GetAssertion: the request to send, the command byte and behind
    /// it `payload`, the encoded parameters. Parameters that carry a PIN/UV
    /// auth parameter without its protocol version are refused.
    pub fn get_assertion(&self, params: GetAssertionParams, payload: &[u8]) -> (r: YKeyResult<
        Vec<u8>,
    >)
        ensures
            same_bytes(
                r,
                request(CommandKind::GetAssertion, payload@, params.wf(), auth_param_error()),
            ),
    {
        if !params.is_well_formed() {
            return Err(
                YKeyError::InvalidParameters(
                    String::from_str("PIN/UV auth parameter requires a protocol version"),
                ),
            );
        }
        self.send_ctap_command(&CtapCommand::GetAssertion(params), payload)
    }

    /// Ends GetAssertion: the payload that holds the assertion.
    pub fn complete_get_assertion(&self, reply: DeviceReply) -> (r: YKeyResult<Vec<u8>>)
        ensures
            same_bytes(r, settled(CommandKind::GetAssertion, self.timeout_secs(), reply@)),
    {
        self.settle(CommandKind::GetAssertion, reply)
    }

    /// Starts GetNextAssertion: the request to send.
    pub fn get_next_assertion(&self) -> (r: YKeyResult<Vec<u8>>)
        ensures
            r matches Ok(bytes) && bytes@ == command_bytes(CommandKind::GetNextAssertion),
    {
        self.send_ctap_command(&CtapCommand::GetNextAssertion, &[])
    }

    /// Ends GetNextAssertion: the payload that holds the next assertion.
    pub fn complete_get_next_assertion(&self, reply: DeviceReply) -> (r: YKeyResult<Vec<u8>>)
        ensures
            same_bytes(r, settled(CommandKind::GetNextAssertion, self.timeout_secs(), reply@)),
    {
        self.settle(CommandKind::GetNextAssertion, reply)
    }

    /// Starts Cancel: the keep-alive cancel packet to send.
    pub fn cancel(&self) -> (r: YKeyResult<Vec<u8>>)
        ensures
            r matches Ok(bytes) && bytes@ == command_bytes(CommandKind::Cancel),
    {
        self.send_ctap_command(&CtapCommand::Cancel, &[])
    }

    /// Ends Cancel. Whether the cancellation took effect is the device's
    /// word: a status code that it reports comes back as that error.
    pub fn complete_cancel(&self, reply: DeviceReply) -> (r: YKeyResult<()>)
        ensures
            same_unit(r, settled(CommandKind::Cancel, self.timeout_secs(), reply@)),
    {
        match self.settle(CommandKind::Cancel, reply) {
            Ok(_) => Ok(()),
            Err(e) => Err(e),
        }
    }

    /// Starts Reset: the request to send.
    pub fn reset(&self) -> (r: YKeyResult<Vec<u8>>)
        ensures
            r matches Ok(bytes) && bytes@ == command_bytes(CommandKind::Reset),
    {
        self.send_ctap_command(&CtapCommand::Reset, &[])
    }

    /// Ends Reset. A reset that succeeded drops the PIN token; one that
    /// failed leaves the session as it was.
    pub fn complete_reset(&mut self, reply: DeviceReply) -> (r: YKeyResult<()>)
        ensures
            same_unit(r, settled(CommandKind::Reset, old(self).timeout_secs(), reply@)),
            final(self).session() == session_after(
                CommandKind::Reset,
                old(self).session(),
                settled(CommandKind::Reset, old(self).timeout_secs(), reply@),
            ),
            final(self).timeout_spec() == old(self).timeout_spec(),
            final(self).device_spec() == old(self).device_spec(),
    {
        match self.settle(CommandKind::Reset, reply) {
            Ok(_) => {
                self.clear_pin_token();
                Ok(())
            },
            Err(e) => Err(e),
        }
    }

    /// Starts SetPin: the request to send, the command byte and behind it
    /// `payload`, the encoded parameters. A PIN shorter than 4 or longer than
    /// 8 characters is refused, and nothing is to be sent.
    pub fn set_pin(&self, pin: &str, payload: &[u8]) -> (r: YKeyResult<Vec<u8>>)
        ensures
            same_bytes(
                r,
                request(CommandKind::SetPin, payload@, pin_length_ok(pin@), pin_length_error()),
            ),
    {
        match check_pin_length(pin) {
            Ok(_) => {},
            Err(e) => {
                return Err(e);
            },
        }
        let command = CtapCommand::ClientPin(
            ClientPinCommand::SetPin { pin: String::from_str(pin) },
        );
        self.send_ctap_command(&command, payload)
    }

    /// Ends SetPin. The session does not change.
    pub fn complete_set_pin(&self, reply: DeviceReply) -> (r: YKeyResult<()>)
        ensures
            same_unit(r, settled(CommandKind::SetPin, self.timeout_secs(), reply@)),
    {
        match self.settle(CommandKind::SetPin, reply) {
            Ok(_) => Ok(()),
            Err(e) => Err(e),
        }
    }

    /// Starts ChangePin: the request to send, the command byte and behind it
    /// `payload`, the encoded parameters. If the old or the new PIN is
    /// shorter than 4 or longer than 8 characters, the change is refused and
    /// nothing is to be sent.
    pub fn change_pin(&self, old_pin: &str, new_pin: &str, payload: &[u8]) -> (r: YKeyResult<
        Vec<u8>,
    >)
        ensures
            same_bytes(
                r,
                request(
                    CommandKind::ChangePin,
                    payload@,
                    pin_length_ok(old_pin@) && pin_length_ok(new_pin@),
                    pin_length_error(),
                ),
            ),
    {
        match check_pin_length(new_pin) {
            Ok(_) => {},
            Err(e) => {
                return Err(e);
            },
        }
        match check_pin_length(old_pin) {
            Ok(_) => {},
            Err(e) => {
                return Err(e);
            },
        }
        let command = CtapCommand::ClientPin(
            ClientPinCommand::ChangePin {
                old_pin: String::from_str(old_pin),
                new_pin: String::from_str(new_pin),
            },
        );
        self.send_ctap_command(&command, payload)
    }

    /// Ends ChangePin. A change that succeeded drops the PIN token, which was
    /// negotiated against the old PIN; one that failed leaves the session as
    /// it was.
    pub fn complete_change_pin(&mut self, reply: DeviceReply) -> (r: YKeyResult<()>)
        ensures
            same_unit(r, settled(CommandKind::ChangePin, old(self).timeout_secs(), reply@)),
            final(self).session() == session_after(
                CommandKind::ChangePin,
                old(self).session(),
                settled(CommandKind::ChangePin, old(self).timeout_secs(), reply@),
            ),
            final(self).timeout_spec() == old(self).timeout_spec(),
            final(self).device_spec() == old(self).device_spec(),
    {
        match self.settle(CommandKind::ChangePin, reply) {
            Ok(_) => {
                self.clear_pin_token();
                Ok(())
            },
            Err(e) => Err(e),
        }
    }

    /// Starts VerifyPin: the request to send, the command byte and behind it
    /// `payload`, the encoded parameters. A PIN shorter than 4 or longer than
    /// 8 characters is refused, and nothing is to be sent, so that no attempt
    /// of the device's retry counter is spent on it.
    pub fn verify_pin(&self, pin: &str, payload: &[u8]) -> (r: YKeyResult<Vec<u8>>)
        ensures
            same_bytes(
                r,
                request(
                    CommandKind::GetPinToken,
                    payload@,
                    pin_length_ok(pin@),
                    pin_length_error(),
                ),
            ),
    {
        match check_pin_length(pin) {
            Ok(_) => {},
            Err(e) => {
                return Err(e);
            },
        }
        let command = CtapCommand::ClientPin(
            ClientPinCommand::GetPinToken { pin: String::from_str(pin) },
        );
        self.send_ctap_command(&command, payload)
    }

    /// Ends VerifyPin: the PIN token. A verification that succeeded stores
    /// the token with its protocol version, in place of any token held
    /// before; one that failed leaves the session as it was.
    pub fn complete_verify_pin(&mut self, reply: DeviceReply) -> (r: YKeyResult<Vec<u8>>)
        ensures
            same_bytes(r, settled(CommandKind::GetPinToken, old(self).timeout_secs(), reply@)),
            final(self).session() == session_after(
                CommandKind::GetPinToken,
                old(self).session(),
                settled(CommandKind::GetPinToken, old(self).timeout_secs(), reply@),
            ),
            final(self).timeout_spec() == old(self).timeout_spec(),
            final(self).device_spec() == old(self).device_spec(),
    {
        match self.settle(CommandKind::GetPinToken, reply) {
            Ok(token) => {
                let held = copy_bytes(token.as_slice(), 0);
                assert(held@ =~= token@);
                self.pin = PinState::holding(held);
                Ok(token)
            },
            Err(e) => Err(e),
        }
    }
}

/// A PIN shorter than 4 or longer than 8 characters is refused with
/// `InvalidParameters` before a request exists: nothing is to be sent to the
/// device.
pub proof fn lemma_pin_length_validation(kind: CommandKind, pin: Seq<char>, payload: Seq<u8>)
    requires
        pin.len() < 4 || pin.len() > 8,
    ensures
        request(kind, payload, pin_length_ok(pin), pin_length_error()) == Err::<
            Seq<u8>,
            YKeyErrorView,
        >(
            YKeyErrorView::InvalidParameters("PIN must be 4-8 characters"@),
        ),
{
}

/// The life of a PIN token: a verified PIN leaves a token in the session; a
/// reset and a changed PIN leave none; an operation that failed, or any
/// other operation, leaves the session as it was.
pub proof fn lemma_token_lifecycle(
    before: PinSession,
    kind: CommandKind,
    payload: Seq<u8>,
    e: YKeyErrorView,
)
    ensures
        session_after(CommandKind::GetPinToken, before, Ok(payload)).token == Some(payload),
        session_after(CommandKind::Reset, before, Ok(payload)).token is None,
        session_after(CommandKind::ChangePin, before, Ok(payload)).token is None,
        session_after(kind, before, Err(e)) == before,
        kind != CommandKind::GetPinToken && kind != CommandKind::Reset && kind
            != CommandKind::ChangePin ==> session_after(kind, before, Ok(payload)) == before,
{
}

/// A response whose first byte is a non-zero status code ends every
/// operation with the error of that code, whatever follows the byte.
pub proof fn lemma_status_code_ends_operation(kind: CommandKind, timeout_secs: u64, data: Seq<u8>)
    requires
        data.len() > 0,
        data[0] != 0,
    ensures
        settled(kind, timeout_secs, DeviceReplyView::Data(data)) == Err::<Seq<u8>, YKeyErrorView>(
            ctap_error_view(data[0]),
        ),
{
}

/// A failure of the transport ends every operation with the error that the
/// transport reported, unchanged, and leaves the session as it was.
pub proof fn lemma_transport_failure_ends_operation(
    kind: CommandKind,
    timeout_secs: u64,
    failure: YKeyErrorView,
    before: PinSession,
)
    ensures
        settled(kind, timeout_secs, DeviceReplyView::Failed(failure)) == Err::<
            Seq<u8>,
            YKeyErrorView,
        >(failure),
        session_after(kind, before, settled(kind, timeout_secs, DeviceReplyView::Failed(failure)))
            == before,
{
}

/// The request of a command starts with its command bytes; behind them
/// stand the encoded parameters of a command that has parameters, and
/// nothing for any other command.
pub proof fn lemma_request_layout(kind: CommandKind, payload: Seq<u8>)
    ensures
        request_bytes(kind, payload).take(command_bytes(kind).len() as int) == command_bytes(kind),
        has_parameters(kind) ==> request_bytes(kind, payload).skip(
            command_bytes(kind).len() as int,
        ) == payload,
        !has_parameters(kind) ==> request_bytes(kind, payload) == command_bytes(kind),
        command_bytes(kind).len() == if kind == CommandKind::Cancel {
            4nat
        } else {
            1nat
        },
{
    assert(request_bytes(kind, payload).take(command_bytes(kind).len() as int) =~= command_bytes(
        kind,
    ));
    if has_parameters(kind) {
        assert(request_bytes(kind, payload).skip(command_bytes(kind).len() as int) =~= payload);
    }
}

/// An exchange that got no answer within the bound ends every operation with
/// `Timeout`, which carries the whole seconds of the bound, and leaves the
/// session as it was.
pub proof fn lemma_timeout_ends_operation(kind: CommandKind, timeout_secs: u64, before: PinSession)
    ensures
        settled(kind, timeout_secs, DeviceReplyView::TimedOut) == Err::<Seq<u8>, YKeyErrorView>(
            YKeyErrorView::Timeout { seconds: timeout_secs },
        ),
        session_after(kind, before, settled(kind, timeout_secs, DeviceReplyView::TimedOut))
            == before,
{
}

} // verus!
