use vnc_server::auth_provider::UserPermissions;
use vnc_server::capture::frame::Frame;
use vnc_server::capture::{get_pixel_format, remaining_delay, FrameDelay, FrameGate};
use vnc_server::config::{
    default_auth_protocols, default_bind_address, default_channel_size,
    default_delay_between_frames, default_mgmt_bind_address, AuthProviderConfig, CaptureConfig,
    Config, ManagmentServerConfig, ServerConfig,
};
use vnc_server::mgmt_server::{alive_indices, ClientState, ClientStatus};
use vnc_server::protocol::client_msg::{ClientMessage, MouseButtonMask};
use vnc_server::protocol::encodings::{
    EncodeError, Encoder, EncodingType, RawEncoder, SelectedEncoder,
};
use vnc_server::protocol::handshake::security::{SecurityResult, SecurityType};
use vnc_server::protocol::pixel_format::{BitsPerPixel, PixelFormat, PixelFormatError};
use vnc_server::protocol::primitives::{Flag, Pos, Rect};
use vnc_server::protocol::pseudo_encodings::{AlphaCursorPseudoEncodings, CursorError};
use vnc_server::protocol::server_msg::ServerMessage;
use vnc_server::protocol::handshake::version::VersionError;
use vnc_server::server::session::{
    empty_update, encode_update, needs_update, HandshakePhase, HandshakeStep, Session,
    SessionAction, SessionError,
};
use vnc_server::server::VNCServer;

fn rgb565() -> PixelFormat {
    PixelFormat {
        bits_per_pixel: BitsPerPixel::U16,
        depth: 16,
        big_endian: Flag::Yes,
        true_color: Flag::Yes,
        red_max: 31,
        green_max: 63,
        blue_max: 31,
        red_shift: 11,
        green_shift: 5,
        blue_shift: 0,
    }
}

const CLIENT_VERSION: &[u8; 12] = b"RFB 003.008\n";

fn authenticating_session(choice: u8) -> Session {
    let mut s = Session::new(800, 600, PixelFormat::default(), vec![SecurityType::VNCAuthentication]);
    s.handshake_step(&[]).unwrap();
    s.handshake_step(CLIENT_VERSION).unwrap();
    s.handshake_step(&[choice]).unwrap();
    s
}

fn running_session(view: bool, control: bool) -> Session {
    let mut s = authenticating_session(2);
    s.authenticated(&SecurityResult::Authorized(UserPermissions { view, control })).unwrap();
    s.server_init();
    s.start_running();
    s
}

#[test]
fn pick_encoder_takes_first_real_encoding() {
    assert_eq!(
        EncodingType::pick_encoder(&[
            EncodingType::CursorWithAlpha,
            EncodingType::Raw,
            EncodingType::ZRLE,
            EncodingType::Tight
        ]),
        EncodingType::ZRLE
    );
    assert_eq!(EncodingType::pick_encoder(&[EncodingType::Raw]), EncodingType::Raw);
    assert_eq!(EncodingType::pick_encoder(&[]), EncodingType::Raw);
    assert!(EncodingType::CursorWithAlpha.is_pseudo());
    assert!(!EncodingType::Tight.is_pseudo());
    assert_eq!(EncodingType::from_i32(-314), EncodingType::CursorWithAlpha);
    assert_eq!(EncodingType::from_i32(5), EncodingType::Raw);
    assert_eq!(EncodingType::ZRLE.to_i32(), 16);
}

#[test]
fn init_encoder_refuses_pseudo_encodings() {
    let f = PixelFormat::default();
    assert!(matches!(
        EncodingType::CursorWithAlpha.init_encoder(1, 1, f, f),
        Err(EncodeError::NotAnEncoding)
    ));
    let e = EncodingType::Tight.init_encoder(4, 2, f, rgb565()).ok().unwrap();
    assert_eq!(e.encoding_type(), EncodingType::Tight);
    let e = EncodingType::Raw.init_encoder(4, 2, f, rgb565()).ok().unwrap();
    assert_eq!(e.encoding_type(), EncodingType::Raw);
}

#[test]
fn raw_encoder_converts_in_place() {
    let mut enc = RawEncoder { src_pixel_format: PixelFormat::default(), dest_pixel_format: rgb565() };
    let rect = Rect { x_pos: 0, y_pos: 0, width: 2, height: 1 };
    let out = enc.encode(rect, vec![0, 0, 0xff, 0, 0xff, 0, 0, 0]).unwrap();
    assert_eq!(out.len(), 1);
    assert_eq!(out[0].rect, rect);
    assert_eq!(out[0].encoding_type, EncodingType::Raw);
    assert_eq!(out[0].data, vec![0xf8, 0x00, 0x00, 0x1f]);
    assert!(!enc.can_encode(rect, &[0; 6]));
    let mut palette = RawEncoder { src_pixel_format: PixelFormat::default(), dest_pixel_format: rgb565() };
    palette.dest_pixel_format.true_color = Flag::No;
    assert!(matches!(
        palette.encode(rect, vec![0; 8]),
        Err(EncodeError::Conversion(PixelFormatError::PaletteNotImplemented))
    ));
}

#[test]
fn zrle_encoder_prefixes_length() {
    let f = PixelFormat::default();
    let mut enc = EncodingType::ZRLE.init_encoder(2, 2, f, f).ok().unwrap();
    let rect = Rect { x_pos: 0, y_pos: 0, width: 2, height: 2 };
    let data = vec![0x10u8; 16];
    assert!(enc.can_encode(rect, &data));
    let out = enc.encode(rect, data).unwrap();
    assert_eq!(out.len(), 1);
    assert_eq!(out[0].encoding_type, EncodingType::ZRLE);
    let d = &out[0].data;
    let n = u32::from_be_bytes([d[0], d[1], d[2], d[3]]) as usize;
    assert_eq!(n, d.len() - 4);
    assert!(matches!(
        enc.encode(rect, vec![0u8; 4]),
        Err(EncodeError::Compression)
    ));
}

#[test]
fn tight_encoder_encodes_frames() {
    let f = PixelFormat::default();
    let mut enc = EncodingType::Tight.init_encoder(4, 4, f, f).ok().unwrap();
    let rect = Rect { x_pos: 0, y_pos: 0, width: 4, height: 4 };
    let data = vec![0x20u8; 64];
    assert!(enc.can_encode(rect, &data));
    assert!(!enc.can_encode(rect, &data[..60]));
    let out = enc.encode(rect, data).unwrap();
    assert!(!out.is_empty());
    assert!(out.iter().all(|u| u.encoding_type == EncodingType::Tight));
}

#[test]
fn session_handshake() {
    let s = Session::new(800, 600, PixelFormat::default(), vec![SecurityType::VNCAuthentication]);
    assert_eq!(s.info, ClientState::new());
    let mut s = authenticating_session(113);
    assert_eq!(s.info.auth_type, Some(SecurityType::MSLogonII));
    assert_eq!(
        s.authenticated(&SecurityResult::Denied("no".to_string())),
        Err(SessionError::AuthenticationDenied)
    );
    assert_eq!(s.permissions, UserPermissions::empty());
    assert_eq!(s.info.status, ClientStatus::Starting);
    assert_eq!(
        s.authenticated(&SecurityResult::Authorized(UserPermissions { view: true, control: false })),
        Ok(())
    );
    assert_eq!(s.info.status, ClientStatus::Authorized);
    let init = s.server_init();
    assert_eq!(init.fb_width, 800);
    assert_eq!(init.fb_height, 600);
    assert_eq!(init.name, "Test server");
    assert_eq!(s.info.status, ClientStatus::Initialized);
    s.start_running();
    assert_eq!(s.info.status, ClientStatus::Running);
    s.close();
    assert_eq!(s.info.status, ClientStatus::Dead);
}

#[test]
fn session_enforces_permissions() {
    let mut viewer = running_session(true, false);
    let rect = Rect { x_pos: 0, y_pos: 0, width: 10, height: 10 };
    assert!(matches!(
        viewer.handle_message(ClientMessage::FramebufferUpdateRequest { incremental: Flag::Yes, rect }),
        SessionAction::UpdateFramebuffer { incremental: Flag::Yes, .. }
    ));
    assert!(matches!(
        viewer.handle_message(ClientMessage::KeyEvent { pressed: Flag::Yes, key: 65 }),
        SessionAction::Ignore
    ));
    assert!(matches!(
        viewer.handle_message(ClientMessage::ClientCutText("x".to_string())),
        SessionAction::Ignore
    ));
    let mut controller = running_session(false, true);
    assert!(matches!(
        controller.handle_message(ClientMessage::FramebufferUpdateRequest { incremental: Flag::No, rect }),
        SessionAction::Ignore
    ));
    assert!(matches!(
        controller.handle_message(ClientMessage::KeyEvent { pressed: Flag::Yes, key: 65 }),
        SessionAction::Key { pressed: Flag::Yes, key: 65 }
    ));
    assert!(matches!(
        controller.handle_message(ClientMessage::ClientCutText("x".to_string())),
        SessionAction::Clipboard(t) if t == "x"
    ));
}

#[test]
fn session_passes_button_changes_only() {
    let mut s = running_session(true, true);
    let pos = Pos { x_pos: 3, y_pos: 4 };
    assert!(matches!(
        s.handle_message(ClientMessage::PointerEvent { buttons: MouseButtonMask(1), pos }),
        SessionAction::Pointer { buttons: Some(MouseButtonMask(1)), .. }
    ));
    assert!(matches!(
        s.handle_message(ClientMessage::PointerEvent { buttons: MouseButtonMask(1), pos }),
        SessionAction::Pointer { buttons: None, .. }
    ));
    assert!(matches!(
        s.handle_message(ClientMessage::PointerEvent { buttons: MouseButtonMask(0), pos }),
        SessionAction::Pointer { buttons: Some(MouseButtonMask(0)), .. }
    ));
    assert_eq!(s.prev_mouse_buttons, MouseButtonMask(0));
}

#[test]
fn session_formats_and_encodings() {
    let mut s = running_session(true, true);
    assert!(matches!(
        s.handle_message(ClientMessage::SetPixelFormat(rgb565())),
        SessionAction::SetPixelFormat(f) if f == rgb565()
    ));
    assert_eq!(s.target_pixel_format, Some(rgb565()));
    assert_eq!(s.info.pixel_format, Some(rgb565()));
    let action = s.handle_message(ClientMessage::SetEncodings(vec![
        EncodingType::CursorWithAlpha,
        EncodingType::ZRLE,
    ]));
    match action {
        SessionAction::SetEncoder { encoder: SelectedEncoder::ZRLE(z), send_cursor } => {
            assert!(send_cursor);
            assert_eq!(z.client_pixel_format, rgb565());
            assert_eq!(z.src_pixel_format, PixelFormat::default());
        }
        _ => panic!("expected a ZRLE encoder"),
    }
    assert_eq!(s.info.encoding, Some(EncodingType::ZRLE));
    let action = s.handle_message(ClientMessage::SetEncodings(vec![EncodingType::Raw]));
    assert!(matches!(
        action,
        SessionAction::SetEncoder { encoder: SelectedEncoder::Raw(_), send_cursor: false }
    ));
}

#[test]
fn framebuffer_update_decisions() {
    assert!(needs_update(true, Flag::Yes));
    assert!(needs_update(false, Flag::No));
    assert!(!needs_update(false, Flag::Yes));
    assert!(matches!(empty_update(), ServerMessage::FramebufferUpdate(v) if v.is_empty()));
    let f = PixelFormat::default();
    let mut enc = EncodingType::Raw.init_encoder(1, 1, f, f).ok().unwrap();
    let rect = Rect { x_pos: 0, y_pos: 0, width: 1, height: 1 };
    let m = encode_update(&mut enc, rect, vec![1, 2, 3, 4]).unwrap();
    match m {
        ServerMessage::FramebufferUpdate(v) => {
            assert_eq!(v.len(), 1);
            assert_eq!(v[0].data, vec![1, 2, 3, 4]);
        }
        _ => panic!("expected an update"),
    }
}

#[test]
fn frame_cut_out() {
    // A 3 x 2 image, 4 bytes per pixel: byte `b` of row `r` holds 100 * r + b.
    let mut data = Vec::new();
    for row in 0..2u8 {
        for b in 0..12u8 {
            data.push(row * 100 + b);
        }
    }
    let frame = Frame { data, format: PixelFormat::default() };
    let rect = Rect { x_pos: 1, y_pos: 0, width: 2, height: 2 };
    assert!(frame.can_cut(rect, 2));
    assert_eq!(
        frame.get_src_rect(rect, 2),
        vec![4, 5, 6, 7, 8, 9, 10, 11, 104, 105, 106, 107, 108, 109, 110, 111]
    );
    // A row past the image is zeros.
    let rect = Rect { x_pos: 2, y_pos: 1, width: 1, height: 2 };
    assert_eq!(frame.get_src_rect(rect, 2), vec![108, 109, 110, 111, 0, 0, 0, 0]);
    assert!(!frame.can_cut(rect, 0));
    let empty = Frame::default();
    assert!(empty.data.is_empty());
    assert_eq!(empty.format, PixelFormat::default());
}

#[test]
fn frame_gate_publishes_changes_only() {
    let mut gate = FrameGate::new();
    assert!(gate.observe(&[1, 2, 3]));
    assert!(!gate.observe(&[1, 2, 3]));
    assert!(gate.observe(&[1, 2, 4]));
    assert_eq!(gate.prev_hash, xxhash_rust::xxh3::xxh3_128(&[1, 2, 4]));
    assert!(!gate.observe_hash(gate.prev_hash));
    assert!(gate.observe_hash(7));
}

#[test]
fn capture_delays() {
    let period = FrameDelay::from_millis(15);
    assert_eq!(period, FrameDelay { secs: 0, nanos: 15_000_000 });
    assert_eq!(FrameDelay::from_millis(2500), FrameDelay { secs: 2, nanos: 500_000_000 });
    assert_eq!(
        remaining_delay(period, FrameDelay { secs: 0, nanos: 5_000_000 }),
        Some(FrameDelay { secs: 0, nanos: 10_000_000 })
    );
    assert_eq!(remaining_delay(period, period), None);
    assert_eq!(
        remaining_delay(FrameDelay { secs: 2, nanos: 100 }, FrameDelay { secs: 1, nanos: 200 }),
        Some(FrameDelay { secs: 0, nanos: 999_999_900 })
    );
    assert!(FrameDelay { secs: 0, nanos: 1 }.shorter_than(&period));
    assert_eq!(get_pixel_format(), PixelFormat::default());
}

#[test]
fn configuration_defaults() {
    assert_eq!(default_bind_address(), "0.0.0.0:5900");
    assert_eq!(default_mgmt_bind_address(), "127.0.0.1:5899");
    assert_eq!(default_channel_size(), 128);
    assert_eq!(default_auth_protocols(), vec![SecurityType::VNCAuthentication]);
    assert_eq!(default_delay_between_frames(), FrameDelay { secs: 0, nanos: 15_000_000 });
    let c = Config::default();
    assert_eq!(c.server.bind_address, "0.0.0.0:5900");
    assert!(c.management.is_none());
    match c.auth_provider {
        AuthProviderConfig::NoneProvider { login, password } => {
            assert_eq!(login, Some("admin".to_string()));
            assert_eq!(password, "password");
        }
        _ => panic!("expected the single password provider"),
    }
    assert_eq!(ServerConfig::default().pixel_format, PixelFormat::default());
    assert_eq!(CaptureConfig::default().time_between_frame, FrameDelay::from_millis(15));
    assert_eq!(ManagmentServerConfig::default().bind_address, "127.0.0.1:5899");
}

#[test]
fn server_sessions_truncate_screen_size() {
    let server = VNCServer::default();
    let s = server.new_session(70_000, 1080);
    assert_eq!(s.width, 4464);
    assert_eq!(s.height, 1080);
    assert_eq!(s.available_security, vec![SecurityType::VNCAuthentication]);
}

#[test]
fn management_lists_alive_clients() {
    let statuses = [
        ClientStatus::Running,
        ClientStatus::Dead,
        ClientStatus::Starting,
        ClientStatus::Dead,
    ];
    assert_eq!(alive_indices(&statuses), vec![0, 2]);
    assert!(!ClientStatus::Dead.is_alive());
    assert!(ClientStatus::Initialized.is_alive());
    assert_eq!(ClientStatus::default(), ClientStatus::Starting);
}

#[test]
fn cursor_message() {
    let c = AlphaCursorPseudoEncodings;
    match c.message_from_pixels(&[9, 8, 7, 6]) {
        ServerMessage::FramebufferUpdate(v) => {
            assert_eq!(v.len(), 1);
            assert_eq!(v[0].rect, Rect { x_pos: 0, y_pos: 0, width: 32, height: 32 });
            assert_eq!(v[0].encoding_type, EncodingType::CursorWithAlpha);
            assert_eq!(v[0].data, vec![0, 0, 0, 0, 9, 8, 7, 6]);
        }
        _ => panic!("expected an update"),
    }
    assert!(matches!(c.get_message(b"not a png"), Err(CursorError::InvalidImage)));
}

#[test]
fn cursor_from_png() {
    let mut png_bytes = Vec::new();
    {
        let mut encoder = png::Encoder::new(&mut png_bytes, 1, 1);
        encoder.set_color(png::ColorType::Rgba);
        encoder.set_depth(png::BitDepth::Eight);
        let mut writer = encoder.write_header().unwrap();
        writer.write_image_data(&[1, 2, 3, 4]).unwrap();
    }
    let c = AlphaCursorPseudoEncodings;
    match c.get_message(&png_bytes) {
        Ok(ServerMessage::FramebufferUpdate(v)) => {
            assert_eq!(v[0].data, vec![0, 0, 0, 0, 1, 2, 3, 4]);
        }
        _ => panic!("expected the cursor update"),
    }
}

#[test]
fn capture_only_with_listeners() {
    assert!(!vnc_server::capture::should_capture(0));
    assert!(!vnc_server::capture::should_capture(1));
    assert!(vnc_server::capture::should_capture(2));
}

#[test]
fn zrle_refuses_shifts_it_cannot_measure() {
    let mut f = PixelFormat::default();
    f.red_shift = 40;
    let enc = EncodingType::ZRLE.init_encoder(2, 2, f, f).ok().unwrap();
    let rect = Rect { x_pos: 0, y_pos: 0, width: 2, height: 2 };
    assert!(!enc.can_encode(rect, &[0u8; 16]));
    // Too little data is refused by the encoder before any pixel is read.
    assert!(enc.can_encode(rect, &[0u8; 4]));
    // An empty rectangle reads no pixel.
    assert!(enc.can_encode(Rect { x_pos: 0, y_pos: 0, width: 0, height: 2 }, &[0u8; 16]));
}

#[test]
fn zrle_invalid_size_with_empty_rectangle() {
    let mut f = PixelFormat::default();
    f.bits_per_pixel = BitsPerPixel::Invalid;
    let mut enc = EncodingType::ZRLE.init_encoder(2, 2, f, f).ok().unwrap();
    let rect = Rect { x_pos: 0, y_pos: 0, width: 0, height: 0 };
    assert!(enc.can_encode(rect, &[]));
    let out = enc.encode(rect, vec![]).unwrap();
    assert_eq!(out.len(), 1);
    let d = &out[0].data;
    assert_eq!(u32::from_be_bytes([d[0], d[1], d[2], d[3]]) as usize, d.len() - 4);
    assert!(!enc.can_encode(Rect { x_pos: 0, y_pos: 0, width: 1, height: 1 }, &[0u8; 31]));
}

#[test]
fn tight_updates_stay_in_the_frame() {
    let f = PixelFormat::default();
    let mut enc = EncodingType::Tight.init_encoder(70, 3, f, rgb565()).ok().unwrap();
    let rect = Rect { x_pos: 0, y_pos: 0, width: 70, height: 3 };
    let data: Vec<u8> = (0..70 * 3 * 4).map(|i| (i % 251) as u8).collect();
    assert!(enc.can_encode(rect, &data));
    let out = enc.encode(rect, data).unwrap();
    assert!(!out.is_empty());
    for u in &out {
        assert_eq!(u.encoding_type, EncodingType::Tight);
        assert!(u.rect.x_pos + u.rect.width <= 70);
        assert!(u.rect.y_pos + u.rect.height <= 3);
    }
    let mut bad = rgb565();
    bad.blue_shift = 33;
    let enc = EncodingType::Tight.init_encoder(4, 4, f, bad).ok().unwrap();
    assert!(!enc.can_encode(rect, &[0u8; 64]));
    let mut invalid = rgb565();
    invalid.bits_per_pixel = BitsPerPixel::Invalid;
    let enc = EncodingType::Tight.init_encoder(4, 4, f, invalid).ok().unwrap();
    assert!(enc.can_encode(rect, &[0u8; 64]));
}

#[test]
fn tight_parts_become_updates() {
    let parts = vec![(1u16, 2u16, 3u16, 4u16, vec![9u8, 8]), (0, 0, 1, 1, vec![])];
    let updates = vnc_server::protocol::encodings::tight_updates(&parts);
    assert_eq!(updates.len(), 2);
    assert_eq!(updates[0].rect, Rect { x_pos: 1, y_pos: 2, width: 3, height: 4 });
    assert_eq!(updates[0].data, vec![9, 8]);
    assert_eq!(updates[1].encoding_type, EncodingType::Tight);
    assert!(updates[1].data.is_empty());
}

#[test]
fn encode_input_records_its_arguments() {
    let f = rgb565();
    let input = vnc_server::protocol::encodings::encode_input(vec![1, 2], 3, 4, f);
    assert_eq!(input.data, vec![1, 2]);
    assert_eq!((input.width, input.height), (3, 4));
    assert_eq!(input.format, f);
    assert_eq!(input.flags, (16, 1, 1));
}

#[test]
fn handshake_opens_in_order() {
    let mut s = Session::new(
        800,
        600,
        PixelFormat::default(),
        vec![SecurityType::VNCAuthentication, SecurityType::MSLogonII],
    );
    assert_eq!(s.phase, HandshakePhase::SendVersion);
    match s.handshake_step(&[]) {
        Ok(HandshakeStep::Exchange { send, read }) => {
            assert_eq!(send, b"RFB 003.008\n".to_vec());
            assert_eq!(read, 12);
        }
        _ => panic!("expected the server's version first"),
    }
    assert_eq!(s.phase, HandshakePhase::ReadVersion);
    assert_eq!(s.handshake_step(b"RFB 003.0x8\n").err(), Some(VersionError::InvalidNumber));
    assert_eq!(s.handshake_step(b"RFB 003").err(), Some(VersionError::Incomplete));
    assert_eq!(s.phase, HandshakePhase::ReadVersion);
    match s.handshake_step(CLIENT_VERSION) {
        Ok(HandshakeStep::Exchange { send, read }) => {
            assert_eq!(send, vec![2, 2, 113]);
            assert_eq!(read, 1);
        }
        _ => panic!("expected the offer of security types"),
    }
    assert_eq!(s.phase, HandshakePhase::ReadSecurityType);
    assert_eq!(s.info.auth_type, None);
    match s.handshake_step(&[1]) {
        Ok(HandshakeStep::Authenticate(t)) => assert_eq!(t, SecurityType::NoAuthentication),
        _ => panic!("expected the client's choice"),
    }
    assert_eq!(s.phase, HandshakePhase::Authenticating);
    assert_eq!(s.info.auth_type, Some(SecurityType::NoAuthentication));
    assert_eq!(s.info.status, ClientStatus::Starting);
}

#[test]
fn handshake_reads_unknown_choice_as_invalid() {
    let s = authenticating_session(7);
    assert_eq!(s.info.auth_type, Some(SecurityType::Invalid));
}
