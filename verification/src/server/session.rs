//! The decisions of a client connection: what the server answers at each step
//! of the handshake, and what it does with each message of a running session.
use vstd::prelude::*;
use crate::auth_provider::UserPermissions;
use crate::mgmt_server::client::{ClientState, ClientStatus};
use crate::protocol::client_msg::{ClientMessage, MouseButtonMask};
use crate::protocol::encodings::{EncodeError, Encoder, EncodingType, SelectedEncoder};
use crate::protocol::server_msg::{ServerMessage, UpdateRect};
use crate::protocol::handshake::init::ServerInit;
use crate::protocol::handshake::security::{
    security_types_bytes, security_types_to_bytes, SecurityResult, SecurityType,
};
use crate::protocol::handshake::version::{Version, VersionError};
use crate::protocol::pixel_format::PixelFormat;
use crate::protocol::primitives::{Flag, Pos, Rect};

verus! {

/// Where a connection stands in the opening of its handshake.
#[derive(Debug, Clone, Copy, PartialEq, Eq, Structural)]
pub enum HandshakePhase {
    /// The server has yet to send its version.
    SendVersion,
    /// The server waits for the client's version.
    ReadVersion,
    /// The server waits for the client's choice of security type.
    ReadSecurityType,
    /// The chosen type's own exchange runs.
    Authenticating,
}

/// What the connection does next in the opening of its handshake.
pub enum HandshakeStep {
    /// Send `send` to the client, then read `read` bytes and hand them to the
    /// next step.
    Exchange { send: Vec<u8>, read: usize },
    /// The client chose this security type; its own exchange follows.
    Authenticate(SecurityType),
}

impl HandshakeStep {
    /// The step as plain values: the bytes to send, the number of bytes to
    /// read after them, and the chosen security type.
    pub open spec fn parts(self) -> (Seq<u8>, nat, Option<SecurityType>) {
        match self {
            HandshakeStep::Exchange { send, read } => (send@, read as nat, None),
            HandshakeStep::Authenticate(t) => (Seq::empty(), 0, Some(t)),
        }
    }
}

/// The version the server sends first.
pub open spec fn greeting_bytes() -> Seq<u8> {
    Version::spec_default().wire_bytes()
}

/// The offer of security types: their number (truncated to a byte), then the
/// byte of each.
pub open spec fn offer_bytes(types: Seq<SecurityType>) -> Seq<u8> {
    seq![types.len() as u8] + security_types_bytes(types)
}

/// One step of the opening of the handshake in `phase`, offering `types`,
/// where `input` holds the bytes that the previous step read: the next phase
/// and the step as plain values, or the error of a client version that does
/// not read.
pub open spec fn spec_handshake_step(phase: HandshakePhase, types: Seq<SecurityType>, input: Seq<u8>) -> Result<
    (HandshakePhase, (Seq<u8>, nat, Option<SecurityType>)),
    VersionError,
> {
    match phase {
        HandshakePhase::SendVersion => Ok((HandshakePhase::ReadVersion, (greeting_bytes(), 12, None))),
        HandshakePhase::ReadVersion => match Version::spec_parse(input) {
            Ok(_) => Ok((HandshakePhase::ReadSecurityType, (offer_bytes(types), 1, None))),
            Err(e) => Err(e),
        },
        _ => Ok(
            (
                HandshakePhase::Authenticating,
                (Seq::empty(), 0, Some(SecurityType::spec_from_byte(input[0]))),
            ),
        ),
    }
}

/// The opening of the handshake runs in one order, whatever the client
/// sends.  The server first sends its version, the twelve bytes
/// `RFB 003.008\n`, and reads twelve bytes back.  When those read as a
/// version, it sends the number of offered security types and the byte of
/// each, in order, and reads one byte; otherwise the connection ends with the
/// version's error.  That byte names the chosen type, and only then does the
/// chosen type's own exchange begin.
pub proof fn lemma_handshake_order(types: Seq<SecurityType>, first: Seq<u8>, version: Seq<u8>, choice: u8)
    ensures
        spec_handshake_step(HandshakePhase::SendVersion, types, first) == Ok::<_, VersionError>(
            (HandshakePhase::ReadVersion, (greeting_bytes(), 12nat, None::<SecurityType>)),
        ),
        greeting_bytes() == seq![82u8, 70u8, 66u8, 32u8, 48u8, 48u8, 51u8, 46u8, 48u8, 48u8, 56u8, 10u8],
        match Version::spec_parse(version) {
            Ok(_) => spec_handshake_step(HandshakePhase::ReadVersion, types, version) == Ok::<
                _,
                VersionError,
            >((HandshakePhase::ReadSecurityType, (offer_bytes(types), 1nat, None::<SecurityType>))),
            Err(e) => spec_handshake_step(HandshakePhase::ReadVersion, types, version) == Err::<
                (HandshakePhase, (Seq<u8>, nat, Option<SecurityType>)),
                VersionError,
            >(e),
        },
        offer_bytes(types).len() == types.len() + 1,
        offer_bytes(types)[0] == types.len() as u8,
        forall|i: int| 0 <= i < types.len() ==> #[trigger] offer_bytes(types)[i + 1] == types[i].spec_byte(),
        spec_handshake_step(HandshakePhase::ReadSecurityType, types, seq![choice]) == Ok::<_, VersionError>(
            (
                HandshakePhase::Authenticating,
                (Seq::<u8>::empty(), 0nat, Some(SecurityType::spec_from_byte(choice))),
            ),
        ),
{
    assert(greeting_bytes() =~= seq![82u8, 70u8, 66u8, 32u8, 48u8, 48u8, 51u8, 46u8, 48u8, 48u8, 56u8, 10u8]);
}

/// Why a connection ends early.
#[derive(Debug, Clone, Copy, PartialEq, Eq, Structural)]
pub enum SessionError {
    /// The client failed authentication.
    AuthenticationDenied,
}

/// What the connection does with a client message.
pub enum SessionAction {
    /// Nothing: the client lacks the permission the message needs.
    Ignore,
    /// Pending updates are dropped, then the encoder takes the client's format.
    SetPixelFormat(PixelFormat),
    /// Pending updates are dropped, then `encoder` encodes later updates; the
    /// alpha cursor is sent first when `send_cursor` is set.
    SetEncoder { encoder: SelectedEncoder, send_cursor: bool },
    /// A framebuffer update of `rect` is made and sent.
    UpdateFramebuffer { rect: Rect, incremental: Flag },
    /// The key event is passed on to the keyboard.
    Key { pressed: Flag, key: u32 },
    /// The pointer moves to `pos`; `buttons` is the new button state when it
    /// changed.
    Pointer { pos: Pos, buttons: Option<MouseButtonMask> },
    /// The client sent its clipboard text (it is only logged).
    Clipboard(String),
}

/// The state of one client connection.  Its phase and status order the
/// handshake: versions are exchanged, the security types offered and one
/// chosen, then authentication is settled, all while `Starting`; the server's
/// initialisation follows only an authorization; client messages are handled
/// only once the session runs.
pub struct Session {
    pub phase: HandshakePhase,
    pub width: u16,
    pub height: u16,
    pub pixel_format: PixelFormat,
    pub available_security: Vec<SecurityType>,
    pub permissions: UserPermissions,
    pub target_pixel_format: Option<PixelFormat>,
    pub prev_mouse_buttons: MouseButtonMask,
    pub info: ClientState,
}

/// Whether `items` holds `e`.
fn contains_encoding(items: &[EncodingType], e: EncodingType) -> (b: bool)
    ensures
        b == items@.contains(e),
{
    let mut i: usize = 0;
    while i < items.len()
        invariant
            i <= items@.len(),
            forall|k: int| 0 <= k < i ==> items@[k] != e,
        decreases items.len() - i,
    {
        if items[i] == e {
            assert(items@[i as int] == e);
            return true;
        }
        i = i + 1;
    }
    false
}

impl Session {
    /// A connection that has just been accepted, for a `width` x `height`
    /// screen sent in `pixel_format`, offering `available_security`.
    pub fn new(width: u16, height: u16, pixel_format: PixelFormat, available_security: Vec<SecurityType>) -> (s: Session)
        ensures
            s.phase == HandshakePhase::SendVersion,
            s.width == width,
            s.height == height,
            s.pixel_format == pixel_format,
            s.available_security@ == available_security@,
            s.permissions == (UserPermissions { view: false, control: false }),
            s.target_pixel_format is None,
            s.prev_mouse_buttons.0 == 0,
            s.info == ClientState::new_spec(),
    {
        Session {
            phase: HandshakePhase::SendVersion,
            width,
            height,
            pixel_format,
            available_security,
            permissions: UserPermissions::empty(),
            target_pixel_format: None,
            prev_mouse_buttons: MouseButtonMask::released(),
            info: ClientState::new(),
        }
    }

    /// One step of the opening of the handshake, with `input` the bytes that
    /// the previous step read: first the server's version; then, once the
    /// client's version reads, the offer of security types; then the client's
    /// choice, which the session notes.
    pub fn handshake_step(&mut self, input: &[u8]) -> (r: Result<HandshakeStep, VersionError>)
        requires
            old(self).info.status == ClientStatus::Starting,
            old(self).phase != HandshakePhase::Authenticating,
            old(self).phase == HandshakePhase::ReadSecurityType ==> input@.len() >= 1,
        ensures
            match spec_handshake_step(old(self).phase, old(self).available_security@, input@) {
                Ok((phase, parts)) => {
                    &&& r matches Ok(step) && step.parts() == parts
                    &&& final(self).phase == phase
                    &&& parts.2 matches Some(t) ==> final(self).info == (ClientState {
                        auth_type: Some(t),
                        ..old(self).info
                    })
                    &&& parts.2 is None ==> final(self).info == old(self).info
                },
                Err(e) => {
                    &&& r == Err::<HandshakeStep, VersionError>(e)
                    &&& final(self).phase == old(self).phase
                    &&& final(self).info == old(self).info
                },
            },
            final(self).available_security@ == old(self).available_security@,
            final(self).permissions == old(self).permissions,
            final(self).width == old(self).width,
            final(self).height == old(self).height,
            final(self).pixel_format == old(self).pixel_format,
            final(self).target_pixel_format == old(self).target_pixel_format,
            final(self).prev_mouse_buttons == old(self).prev_mouse_buttons,
    {
        match self.phase {
            HandshakePhase::SendVersion => {
                let send = Version::default().to_bytes();
                self.phase = HandshakePhase::ReadVersion;
                Ok(HandshakeStep::Exchange { send, read: 12 })
            },
            HandshakePhase::ReadVersion => match Version::parse(input) {
                Ok(_) => {
                    let send = security_types_to_bytes(self.available_security.as_slice());
                    self.phase = HandshakePhase::ReadSecurityType;
                    Ok(HandshakeStep::Exchange { send, read: 1 })
                },
                Err(e) => Err(e),
            },
            _ => {
                let requested = SecurityType::from_byte(input[0]);
                self.info.auth_type = Some(requested);
                self.phase = HandshakePhase::Authenticating;
                Ok(HandshakeStep::Authenticate(requested))
            },
        }
    }

    /// Takes the outcome of authentication: a denial ends the connection; an
    /// authorization gives the session its permissions.
    pub fn authenticated(&mut self, result: &SecurityResult) -> (r: Result<(), SessionError>)
        requires
            old(self).phase == HandshakePhase::Authenticating,
            old(self).info.status == ClientStatus::Starting,
        ensures
            match *result {
                SecurityResult::Denied(_) => r == Err::<(), SessionError>(SessionError::AuthenticationDenied)
                    && final(self).permissions == old(self).permissions
                    && final(self).info == old(self).info,
                SecurityResult::Authorized(p) => r is Ok && final(self).permissions == p
                    && final(self).info == (ClientState {
                    status: ClientStatus::Authorized,
                    permissions: Some(p),
                    ..old(self).info
                }),
            },
            final(self).width == old(self).width,
            final(self).height == old(self).height,
            final(self).pixel_format == old(self).pixel_format,
            final(self).target_pixel_format == old(self).target_pixel_format,
            final(self).prev_mouse_buttons == old(self).prev_mouse_buttons,
    {
        match result {
            SecurityResult::Denied(_) => Err(SessionError::AuthenticationDenied),
            SecurityResult::Authorized(p) => {
                self.permissions = *p;
                self.info.permissions = Some(*p);
                self.info.status = ClientStatus::Authorized;
                Ok(())
            },
        }
    }

    /// The server's initialisation message, sent once the client, authorized,
    /// has sent its own.
    pub fn server_init(&mut self) -> (init: ServerInit)
        requires
            old(self).info.status == ClientStatus::Authorized,
        ensures
            init.fb_width == old(self).width,
            init.fb_height == old(self).height,
            init.pixel_format == old(self).pixel_format,
            init.name@ == "Test server"@,
            final(self).info == (ClientState {
                status: ClientStatus::Initialized,
                pixel_format: Some(old(self).pixel_format),
                ..old(self).info
            }),
            final(self).permissions == old(self).permissions,
            final(self).width == old(self).width,
            final(self).height == old(self).height,
            final(self).pixel_format == old(self).pixel_format,
            final(self).target_pixel_format == old(self).target_pixel_format,
            final(self).prev_mouse_buttons == old(self).prev_mouse_buttons,
    {
        self.info.pixel_format = Some(self.pixel_format);
        self.info.status = ClientStatus::Initialized;
        ServerInit {
            fb_width: self.width,
            fb_height: self.height,
            pixel_format: self.pixel_format,
            name: String::from_str("Test server"),
        }
    }

    /// The session starts taking client messages, once initialised.
    pub fn start_running(&mut self)
        requires
            old(self).info.status == ClientStatus::Initialized,
        ensures
            final(self).info == (ClientState { status: ClientStatus::Running, ..old(self).info }),
            final(self).permissions == old(self).permissions,
            final(self).width == old(self).width,
            final(self).height == old(self).height,
            final(self).pixel_format == old(self).pixel_format,
            final(self).target_pixel_format == old(self).target_pixel_format,
            final(self).prev_mouse_buttons == old(self).prev_mouse_buttons,
    {
        self.info.status = ClientStatus::Running;
    }

    /// The connection is over.
    pub fn close(&mut self)
        ensures
            final(self).info == (ClientState { status: ClientStatus::Dead, ..old(self).info }),
            final(self).permissions == old(self).permissions,
            final(self).width == old(self).width,
            final(self).height == old(self).height,
            final(self).pixel_format == old(self).pixel_format,
            final(self).target_pixel_format == old(self).target_pixel_format,
            final(self).prev_mouse_buttons == old(self).prev_mouse_buttons,
    {
        self.info.status = ClientStatus::Dead;
    }

    /// What to do with a message of the running session.  Updates need the
    /// view permission; key, pointer and clipboard messages need control.  A
    /// new pixel format is kept for the encoders made later; a list of
    /// encodings picks the encoder, made for the client's format (the screen's
    /// until the client set one).  The pointer's buttons are passed on only
    /// when they changed.
    pub fn handle_message(&mut self, msg: ClientMessage) -> (action: SessionAction)
        requires
            old(self).info.status == ClientStatus::Running,
        ensures
            final(self).width == old(self).width,
            final(self).height == old(self).height,
            final(self).pixel_format == old(self).pixel_format,
            final(self).permissions == old(self).permissions,
            final(self).info.status == old(self).info.status,
            final(self).info.auth_type == old(self).info.auth_type,
            final(self).info.permissions == old(self).info.permissions,
            match msg {
                ClientMessage::SetPixelFormat(f) => action == SessionAction::SetPixelFormat(f)
                    && final(self).target_pixel_format == Some(f)
                    && final(self).info.pixel_format == Some(f)
                    && final(self).info.encoding == old(self).info.encoding
                    && final(self).prev_mouse_buttons == old(self).prev_mouse_buttons,
                ClientMessage::SetEncodings(items) => {
                    let picked = EncodingType::spec_pick_encoder(items@);
                    let client_format = match old(self).target_pixel_format {
                        Some(f) => f,
                        None => old(self).pixel_format,
                    };
                    &&& action matches SessionAction::SetEncoder { encoder, send_cursor }
                    &&& picked.made_encoder(
                        old(self).width,
                        old(self).height,
                        old(self).pixel_format,
                        client_format,
                        encoder,
                    )
                    &&& send_cursor == items@.contains(EncodingType::CursorWithAlpha)
                    &&& final(self).info.encoding == Some(picked)
                    &&& final(self).info.pixel_format == old(self).info.pixel_format
                    &&& final(self).target_pixel_format == old(self).target_pixel_format
                    &&& final(self).prev_mouse_buttons == old(self).prev_mouse_buttons
                },
                ClientMessage::FramebufferUpdateRequest { incremental, rect } => {
                    &&& (if old(self).permissions.view {
                        action == SessionAction::UpdateFramebuffer { rect, incremental }
                    } else {
                        action == SessionAction::Ignore
                    })
                    &&& final(self).info == old(self).info
                    &&& final(self).target_pixel_format == old(self).target_pixel_format
                    &&& final(self).prev_mouse_buttons == old(self).prev_mouse_buttons
                },
                ClientMessage::KeyEvent { pressed, key } => {
                    &&& (if old(self).permissions.control {
                        action == SessionAction::Key { pressed, key }
                    } else {
                        action == SessionAction::Ignore
                    })
                    &&& final(self).info == old(self).info
                    &&& final(self).target_pixel_format == old(self).target_pixel_format
                    &&& final(self).prev_mouse_buttons == old(self).prev_mouse_buttons
                },
                ClientMessage::PointerEvent { buttons, pos } => {
                    &&& (if old(self).permissions.control {
                        &&& action == SessionAction::Pointer {
                            pos,
                            buttons: if buttons != old(self).prev_mouse_buttons {
                                Some(buttons)
                            } else {
                                None
                            },
                        }
                        &&& final(self).prev_mouse_buttons == buttons
                    } else {
                        &&& action == SessionAction::Ignore
                        &&& final(self).prev_mouse_buttons == old(self).prev_mouse_buttons
                    })
                    &&& final(self).info == old(self).info
                    &&& final(self).target_pixel_format == old(self).target_pixel_format
                },
                ClientMessage::ClientCutText(text) => {
                    &&& (if old(self).permissions.control {
                        action matches SessionAction::Clipboard(t) && t@ == text@
                    } else {
                        action == SessionAction::Ignore
                    })
                    &&& final(self).info == old(self).info
                    &&& final(self).target_pixel_format == old(self).target_pixel_format
                    &&& final(self).prev_mouse_buttons == old(self).prev_mouse_buttons
                },
            },
    {
        match msg {
            ClientMessage::SetPixelFormat(f) => {
                self.target_pixel_format = Some(f);
                self.info.pixel_format = Some(f);
                SessionAction::SetPixelFormat(f)
            },
            ClientMessage::SetEncodings(items) => {
                let picked = EncodingType::pick_encoder(items.as_slice());
                let client_format = match self.target_pixel_format {
                    Some(f) => f,
                    None => self.pixel_format,
                };
                let encoder = match picked.init_encoder(
                    self.width,
                    self.height,
                    self.pixel_format,
                    client_format,
                ) {
                    Ok(e) => e,
                    Err(_) => {
                        proof {
                            lemma_picked_is_not_pseudo(items@);
                        }
                        // A picked encoding is never a pseudo-encoding.
                        return SessionAction::Ignore;
                    },
                };
                let send_cursor = contains_encoding(items.as_slice(), EncodingType::CursorWithAlpha);
                self.info.encoding = Some(picked);
                SessionAction::SetEncoder { encoder, send_cursor }
            },
            ClientMessage::FramebufferUpdateRequest { incremental, rect } => {
                if !self.permissions.view {
                    return SessionAction::Ignore;
                }
                SessionAction::UpdateFramebuffer { rect, incremental }
            },
            ClientMessage::KeyEvent { pressed, key } => {
                if !self.permissions.control {
                    return SessionAction::Ignore;
                }
                SessionAction::Key { pressed, key }
            },
            ClientMessage::PointerEvent { buttons, pos } => {
                if !self.permissions.control {
                    return SessionAction::Ignore;
                }
                let changed = if buttons != self.prev_mouse_buttons {
                    self.prev_mouse_buttons = buttons;
                    Some(buttons)
                } else {
                    None
                };
                SessionAction::Pointer { pos, buttons: changed }
            },
            ClientMessage::ClientCutText(text) => {
                if !self.permissions.control {
                    return SessionAction::Ignore;
                }
                SessionAction::Clipboard(text)
            },
        }
    }
}

/// The encoding picked from a list is never a pseudo-encoding.
proof fn lemma_picked_is_not_pseudo(list: Seq<EncodingType>)
    ensures
        !EncodingType::spec_pick_encoder(list).spec_is_pseudo(),
    decreases list.len(),
{
    if list.len() > 0 && !list[0].is_candidate() {
        lemma_picked_is_not_pseudo(list.drop_first());
    }
}

/// Whether an update request gets the current frame: when the frame changed
/// since the last update, or when the client asked for a full update.
pub fn needs_update(frame_changed: bool, incremental: Flag) -> (b: bool)
    ensures
        b == (frame_changed || incremental == Flag::No),
{
    frame_changed || incremental == Flag::No
}

/// The answer to an update request that gets no new pixels: an update with no
/// rectangle.
pub fn empty_update() -> (m: ServerMessage)
    ensures
        m matches ServerMessage::FramebufferUpdate(rects) && rects@.len() == 0,
{
    ServerMessage::FramebufferUpdate(Vec::new())
}

/// The update of `rect` whose pixels (in the screen's format) are `data`,
/// encoded with the connection's encoder.
pub fn encode_update(encoder: &mut SelectedEncoder, rect: Rect, data: Vec<u8>) -> (r: Result<
    ServerMessage,
    EncodeError,
>)
    requires
        old(encoder).encode_defined(rect, data@),
    ensures
        final(encoder).spec_encoding_type() == old(encoder).spec_encoding_type(),
        final(encoder).frames() == old(encoder).frames_after(data@),
        r matches Ok(m) ==> m matches ServerMessage::FramebufferUpdate(rects)
            && old(encoder).encode_result(rect, data@, Ok(rects)),
        r matches Err(e) ==> old(encoder).encode_result(rect, data@, Err(e)),
{
    let rects: Vec<UpdateRect> = encoder.encode(rect, data)?;
    Ok(ServerMessage::FramebufferUpdate(rects))
}

} // verus!
