//! The wire protocol: inbound requests, outbound responses, and the
//! deliveries that a handler asks the transport to make.
use vstd::prelude::*;

verus! {

/// A request sent by a client over its socket.
#[derive(Debug, Clone, PartialEq, Eq)]
pub enum WsMessage {
    Create,
    Join { room: Option<String>, user_id: String },
    Offer { sdp: String },
    IceCandidate { candidate: String },
    RefreshToken { token: String },
    VerifyRoom { room: String },
}

/// A message sent by the server to a client.
#[derive(Debug, Clone, PartialEq, Eq)]
pub enum WsResponse {
    CreateOK { room_id: String },
    VerifySuccess { room: String },
    VerifyError { error: String },
    AuthOk,
    AuthFailed,
    JoinOk { room: String },
    PeerJoined { user_id: String },
    Offer { sdp: String },
    Answer { sdp: String },
    IceCandidate { candidate: String },
    Error { message: String },
}

/// Requests of the first protocol revision, which knew only rooms and
/// participant lists.
#[derive(Debug, Clone, PartialEq, Eq)]
pub enum WsInboundEvents {
    Join { room: String },
    ListParticipants,
}

/// Replies of the first protocol revision.
#[derive(Debug, Clone, PartialEq, Eq)]
pub enum WsOutboundEvents {
    JoinOk { room: String },
    Participants { users: Vec<String> },
    Error { message: String },
}

impl WsResponse {
    /// A copy of the response, field for field.
    pub fn copy(&self) -> (r: WsResponse)
        ensures
            r == *self,
    {
        match self {
            WsResponse::CreateOK { room_id } => WsResponse::CreateOK { room_id: room_id.clone() },
            WsResponse::VerifySuccess { room } => WsResponse::VerifySuccess { room: room.clone() },
            WsResponse::VerifyError { error } => WsResponse::VerifyError { error: error.clone() },
            WsResponse::AuthOk => WsResponse::AuthOk,
            WsResponse::AuthFailed => WsResponse::AuthFailed,
            WsResponse::JoinOk { room } => WsResponse::JoinOk { room: room.clone() },
            WsResponse::PeerJoined { user_id } => WsResponse::PeerJoined { user_id: user_id.clone() },
            WsResponse::Offer { sdp } => WsResponse::Offer { sdp: sdp.clone() },
            WsResponse::Answer { sdp } => WsResponse::Answer { sdp: sdp.clone() },
            WsResponse::IceCandidate { candidate } => WsResponse::IceCandidate { candidate: candidate.clone() },
            WsResponse::Error { message } => WsResponse::Error { message: message.clone() },
        }
    }
}

/// What one delivery carries to a socket.
#[derive(Debug, Clone, PartialEq, Eq)]
pub enum Outbound {
    /// Literal text, sent as it is.
    Text(String),
    Response(WsResponse),
    Event(WsOutboundEvents),
}

/// One message for one connection.
#[derive(Debug, Clone, PartialEq, Eq)]
pub struct Delivery {
    pub to: u128,
    pub what: Outbound,
}

/// Work that only the transport can do, asked for by a handler.
#[derive(Debug, Clone, PartialEq, Eq)]
pub enum Task {
    Nothing,
    /// Apply the offer `sdp` to peer session `session` (building the
    /// session first when `created`), and answer the connection.
    Negotiate { session: u64, created: bool, sdp: String },
    /// Add the JSON-encoded ICE candidate to peer session `session`.
    AddCandidate { session: u64, candidate: String },
    /// Validate `token` and report the outcome back to the router.
    Authenticate { token: String },
}

/// Everything a handler asks of the transport, in this order: make the
/// deliveries, do the task, prune from `prune_room` the recipients whose
/// delivery failed, and close the connection when `close` is set.
#[derive(Debug, Clone, PartialEq, Eq)]
pub struct Reply {
    pub deliveries: Vec<Delivery>,
    pub task: Task,
    pub prune_room: Option<String>,
    pub close: bool,
}

/// The text of an `Error` reply for `e`.
pub open spec fn error_text(e: WsError) -> Seq<char> {
    match e {
        WsError::ConnectionNotFound => "Connection not found"@,
        WsError::RoomNotFound => "Room not found"@,
        WsError::InvalidMessage(m) => "Invalid message: "@ + m@,
        WsError::WebRTC(m) => "WebRTC error: "@ + m@,
        WsError::Authentication(m) => "Authentication failed: "@ + m@,
        WsError::SendFailed(m) => "Send failed: "@ + m@,
        WsError::InternalServerError => "Internal server error"@,
    }
}

impl WsError {
    /// The text of an `Error` reply for this error.
    pub fn message(&self) -> (r: String)
        ensures
            r@ == error_text(*self),
    {
        match self {
            WsError::ConnectionNotFound => String::from_str("Connection not found"),
            WsError::RoomNotFound => String::from_str("Room not found"),
            WsError::InvalidMessage(m) => String::from_str("Invalid message: ").concat(m.as_str()),
            WsError::WebRTC(m) => String::from_str("WebRTC error: ").concat(m.as_str()),
            WsError::Authentication(m) => String::from_str("Authentication failed: ").concat(m.as_str()),
            WsError::SendFailed(m) => String::from_str("Send failed: ").concat(m.as_str()),
            WsError::InternalServerError => String::from_str("Internal server error"),
        }
    }
}


/// Why a request could not be served.
#[derive(Debug, Clone, PartialEq, Eq)]
pub enum WsError {
    /// The connection (or its peer session) is not known.
    ConnectionNotFound,
    /// The room is not known.
    RoomNotFound,
    /// The request could not be decoded.
    InvalidMessage(String),
    /// The peer-session engine refused a description or candidate.
    WebRTC(String),
    /// The token was refused.
    Authentication(String),
    /// Delivery to a socket failed.
    SendFailed(String),
    InternalServerError,
}

} // verus!
