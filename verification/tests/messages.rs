use vnc_server::protocol::client_msg::{
    ButtonDirection, ClientMessage, ClientMessageError, MouseButton, MouseButtonMask,
};
use vnc_server::protocol::encodings::EncodingType;
use vnc_server::protocol::handshake::handshake_error_bytes;
use vnc_server::protocol::handshake::init::{ClientInit, ServerInit};
use vnc_server::protocol::handshake::version::{Version, VersionError};
use vnc_server::protocol::pixel_format::PixelFormat;
use vnc_server::protocol::primitives::{Color8888, ColorMapEntry, Flag, Pos, Rect};
use vnc_server::protocol::server_msg::{ServerMessage, UpdateRect};

#[test]
fn flag_bytes() {
    assert_eq!(Flag::from_byte(0), Flag::No);
    assert_eq!(Flag::from_byte(1), Flag::Yes);
    assert_eq!(Flag::from_byte(7), Flag::Yes);
    assert_eq!(Flag::Yes.to_byte(), 1);
    assert_eq!(Flag::No.to_byte(), 0);
}

#[test]
fn rect_wire_roundtrip() {
    let r = Rect { x_pos: 0x0102, y_pos: 3, width: 640, height: 480 };
    let mut out = Vec::new();
    r.write_to(&mut out);
    assert_eq!(out, vec![1, 2, 0, 3, 2, 128, 1, 224]);
    assert_eq!(Rect::read_from(&out, 0), r);
}

#[test]
fn pos_and_colours() {
    assert_eq!(Pos::read_from(&[9, 0, 1, 0, 2], 1), Pos { x_pos: 1, y_pos: 2 });
    assert_eq!(Pos::origin(), Pos { x_pos: 0, y_pos: 0 });
    let mut out = Vec::new();
    ColorMapEntry { red: 1, green: 0x0203, blue: 0xffff }.write_to(&mut out);
    Color8888 { r: 10, g: 20, b: 30 }.write_to(&mut out);
    assert_eq!(out, vec![0, 1, 2, 3, 255, 255, 0, 10, 20, 30]);
}

#[test]
fn framebuffer_update_bytes() {
    let msg = ServerMessage::FramebufferUpdate(vec![UpdateRect {
        rect: Rect { x_pos: 0, y_pos: 0, width: 1, height: 1 },
        encoding_type: EncodingType::Raw,
        data: vec![1, 2, 3, 4],
    }]);
    assert_eq!(msg.get_type(), 0);
    assert_eq!(
        msg.to_bytes(),
        vec![0, 0, 0, 1, 0, 0, 0, 0, 0, 1, 0, 1, 0, 0, 0, 0, 1, 2, 3, 4]
    );
}

#[test]
fn other_server_messages_bytes() {
    assert_eq!(ServerMessage::Bell.to_bytes(), vec![2]);
    assert_eq!(ServerMessage::Bell.get_type(), 2);
    let cut = ServerMessage::ServerCutText("hé".to_string());
    assert_eq!(cut.get_type(), 3);
    assert_eq!(cut.to_bytes(), vec![3, 0, 0, 0, 0, 0, 0, 3, b'h', 0xc3, 0xa9]);
    let colours = ServerMessage::SetColorMapEntries {
        first_color: 5,
        colors: vec![ColorMapEntry { red: 1, green: 2, blue: 3 }],
    };
    assert_eq!(colours.get_type(), 1);
    assert_eq!(colours.to_bytes(), vec![1, 0, 0, 5, 0, 1, 0, 1, 0, 2, 0, 3]);
}

#[test]
fn cursor_pseudo_encoding_update_bytes() {
    let rect = UpdateRect {
        rect: Rect { x_pos: 0, y_pos: 0, width: 32, height: 32 },
        encoding_type: EncodingType::CursorWithAlpha,
        data: vec![],
    };
    let mut out = Vec::new();
    rect.write_to(&mut out);
    // -314 is 0xFFFFFEC6
    assert_eq!(out, vec![0, 0, 0, 0, 0, 32, 0, 32, 0xff, 0xff, 0xfe, 0xc6]);
}

#[test]
fn parse_set_pixel_format() {
    let f = PixelFormat::default();
    let mut data = vec![0u8, 0, 0, 0];
    f.write_to(&mut data);
    let (msg, n) = ClientMessage::parse(&data).unwrap();
    assert_eq!(n, 20);
    assert_eq!(msg, ClientMessage::SetPixelFormat(f));
}

#[test]
fn parse_set_encodings() {
    let data = vec![2u8, 0, 0, 3, 0, 0, 0, 16, 0xff, 0xff, 0xfe, 0xc6, 0, 0, 0, 99];
    let (msg, n) = ClientMessage::parse(&data).unwrap();
    assert_eq!(n, 16);
    assert_eq!(
        msg,
        ClientMessage::SetEncodings(vec![
            EncodingType::ZRLE,
            EncodingType::CursorWithAlpha,
            EncodingType::Raw
        ])
    );
}

#[test]
fn parse_update_request_key_and_pointer() {
    let (msg, n) = ClientMessage::parse(&[3, 1, 0, 1, 0, 2, 0, 3, 0, 4]).unwrap();
    assert_eq!(n, 10);
    assert_eq!(
        msg,
        ClientMessage::FramebufferUpdateRequest {
            incremental: Flag::Yes,
            rect: Rect { x_pos: 1, y_pos: 2, width: 3, height: 4 }
        }
    );
    let (msg, n) = ClientMessage::parse(&[4, 0, 0, 0, 0, 0, 0xff, 0x0d]).unwrap();
    assert_eq!(n, 8);
    assert_eq!(msg, ClientMessage::KeyEvent { pressed: Flag::No, key: 0xff0d });
    let (msg, n) = ClientMessage::parse(&[5, 0b101, 0, 10, 0, 20]).unwrap();
    assert_eq!(n, 6);
    assert_eq!(
        msg,
        ClientMessage::PointerEvent {
            buttons: MouseButtonMask(0b101),
            pos: Pos { x_pos: 10, y_pos: 20 }
        }
    );
}

#[test]
fn parse_cut_text_reads_only_the_length() {
    let (msg, n) = ClientMessage::parse(&[6, 0, 0, 0, 0, 0, 0, 3, b'a', b'b', b'c']).unwrap();
    assert_eq!(n, 8);
    assert_eq!(msg, ClientMessage::ClientCutText("\0\0\0".to_string()));
}

#[test]
fn parse_incomplete_messages() {
    assert_eq!(ClientMessage::parse(&[]), Err(ClientMessageError::Incomplete));
    assert_eq!(ClientMessage::parse(&[0, 0, 0]), Err(ClientMessageError::Incomplete));
    assert_eq!(ClientMessage::parse(&[2, 0, 0, 2, 0, 0, 0, 0]), Err(ClientMessageError::Incomplete));
    assert_eq!(ClientMessage::parse(&[3, 1, 0]), Err(ClientMessageError::Incomplete));
    assert_eq!(ClientMessage::parse(&[4, 1]), Err(ClientMessageError::Incomplete));
    assert_eq!(ClientMessage::parse(&[5, 1, 0]), Err(ClientMessageError::Incomplete));
    assert_eq!(ClientMessage::parse(&[6, 0, 0]), Err(ClientMessageError::Incomplete));
}

#[test]
fn known_message_types() {
    assert!(ClientMessage::is_known_start(&[]));
    assert!(ClientMessage::is_known_start(&[5, 0]));
    assert!(!ClientMessage::is_known_start(&[1]));
    assert!(!ClientMessage::is_known_start(&[7, 0]));
}

#[test]
fn mouse_buttons_directions() {
    let dirs = MouseButtonMask(0b10011).button_directions();
    assert_eq!(
        dirs,
        vec![
            (MouseButton::Left, ButtonDirection::Press),
            (MouseButton::Middle, ButtonDirection::Press),
            (MouseButton::Right, ButtonDirection::Release),
            (MouseButton::ScrollUp, ButtonDirection::Release),
            (MouseButton::ScrollDown, ButtonDirection::Press),
        ]
    );
    assert_eq!(MouseButtonMask::released(), MouseButtonMask(0));
    assert_eq!(MouseButtonMask::from_byte(3), MouseButtonMask(3));
}

#[test]
fn version_bytes_and_parse() {
    assert_eq!(Version::default().to_bytes(), b"RFB 003.008\n".to_vec());
    // The numbers come back with the minor one first.
    assert_eq!(Version::parse(b"RFB 003.008\n"), Ok(Version(8, 3)));
    assert_eq!(Version::parse(b"RFB 003.00"), Err(VersionError::Incomplete));
    assert_eq!(Version::parse(b"RFB 0x3.008\n"), Err(VersionError::InvalidNumber));
    assert_eq!(Version::parse(b"RFB 256.008\n"), Err(VersionError::InvalidNumber));
    assert_eq!(Version::parse(b"RFB +03.008\n"), Ok(Version(8, 3)));
}

#[test]
fn init_messages() {
    assert_eq!(ClientInit::from_byte(1), ClientInit::Exclusive);
    assert_eq!(ClientInit::from_byte(0), ClientInit::Share);
    assert_eq!(ClientInit::from_byte(9), ClientInit::Share);
    let init = ServerInit {
        fb_width: 2,
        fb_height: 1,
        pixel_format: PixelFormat::default(),
        name: "ab".to_string(),
    };
    let mut expected = vec![0u8, 2, 0, 1];
    PixelFormat::default().write_to(&mut expected);
    expected.extend_from_slice(&[0, 0, 0, 2, b'a', b'b']);
    assert_eq!(init.to_bytes(), expected);
}

#[test]
fn handshake_error_message() {
    assert_eq!(handshake_error_bytes("no"), vec![0, 0, 0, 2, b'n', b'o']);
}
