use webland::geometry::{Point, Rect, Size, SurfaceId};
use webland::protocol::codec::{decode, encode};
use webland::protocol::deflate::{deflate, inflate, settle};
use webland::protocol::messages::{
    Anchor, Application, ClientMessage, Codec, InputEvent, Press, ServerMessage, SurfaceCreated,
    SurfaceFrame, TrayItem, TrayMenuItem, WindowRequest, VERSION,
};
use webland::protocol::wire::WireError;

fn point(x: f64, y: f64) -> Point {
    Point { x: x.to_bits(), y: y.to_bits() }
}

#[test]
fn surface_created_round_trips() {
    let msg = ServerMessage::SurfaceCreated(SurfaceCreated {
        id: SurfaceId(1),
        size: Size { width: 800, height: 600 },
        content: Rect { x: 0, y: 0, width: 800, height: 600 },
        parent: None,
        decorated: true,
    });
    let frame = encode(&msg).unwrap();
    assert_eq!(msg, decode::<ServerMessage>(&frame).unwrap());
}

#[test]
fn surface_frame_round_trips() {
    let msg = ServerMessage::SurfaceFrame(SurfaceFrame {
        id: SurfaceId(2),
        codec: Codec::H264,
        damage: vec![Rect { x: 0, y: 0, width: 64, height: 64 }],
        payload: vec![0xde, 0xad, 0xbe, 0xef],
    });
    let frame = encode(&msg).unwrap();
    assert_eq!(msg, decode::<ServerMessage>(&frame).unwrap());
}

#[test]
fn client_input_round_trips() {
    let msg = ClientMessage::Input(InputEvent::PointerMotion {
        id: SurfaceId(3),
        position: point(12.0, 34.0),
    });
    let frame = encode(&msg).unwrap();
    assert_eq!(msg, decode::<ClientMessage>(&frame).unwrap());

    let rel = ClientMessage::Input(InputEvent::PointerMotionRelative {
        dx: (-5.5f64).to_bits(),
        dy: 10.25f64.to_bits(),
    });
    let frame = encode(&rel).unwrap();
    assert_eq!(rel, decode::<ClientMessage>(&frame).unwrap());

    let constraint = ServerMessage::PointerConstraint { id: SurfaceId(42), locked: true };
    let frame = encode(&constraint).unwrap();
    assert_eq!(constraint, decode::<ServerMessage>(&frame).unwrap());
}

/// A resize names a surface and a size, as maximizing does; one must not be
/// read as the other.
#[test]
fn set_size_round_trips_and_is_not_set_maximized() {
    let size = Size { width: 800, height: 600 };
    let msg = ClientMessage::SetSize { id: SurfaceId(7), size };
    let frame = encode(&msg).unwrap();
    assert_eq!(msg, decode::<ClientMessage>(&frame).unwrap());
    let maximized = ClientMessage::SetMaximized { id: SurfaceId(7), size: Some(size) };
    assert_ne!(frame, encode(&maximized).unwrap());
}

#[test]
fn pointer_events_name_their_surface() {
    for msg in [
        ClientMessage::Input(InputEvent::PointerMotion {
            id: SurfaceId(9),
            position: point(1.0, 2.0),
        }),
        ClientMessage::Input(InputEvent::PointerScroll {
            id: SurfaceId(9),
            dx: 0.0f64.to_bits(),
            dy: (-120.0f64).to_bits(),
        }),
    ] {
        assert_eq!(msg, decode::<ClientMessage>(&encode(&msg).unwrap()).unwrap());
    }
    // Two windows, one gesture: the ids have to survive the wire.
    let a = ClientMessage::Input(InputEvent::PointerScroll {
        id: SurfaceId(1),
        dx: 0.0f64.to_bits(),
        dy: 8.0f64.to_bits(),
    });
    let b = ClientMessage::Input(InputEvent::PointerScroll {
        id: SurfaceId(2),
        dx: 0.0f64.to_bits(),
        dy: 8.0f64.to_bits(),
    });
    assert_ne!(encode(&a).unwrap(), encode(&b).unwrap());
}

#[test]
fn decode_rejects_garbage() {
    assert!(decode::<ClientMessage>(&[0xff, 0xff, 0xff, 0xff]).is_err());
}

#[test]
fn deflate_round_trips_and_shrinks() {
    let pixels = vec![0x20u8; 64 * 64 * 4]; // a solid surface, as UIs often are
    let packed = deflate(&pixels);
    assert!(packed.len() < pixels.len());
    assert_eq!(inflate(&packed).unwrap(), pixels);
}

/// Every message survives the wire, and is copied whole.
#[test]
fn every_server_message_round_trips() {
    let row = TrayMenuItem {
        id: 4,
        label: String::from("Connect"),
        enabled: true,
        checked: Some(false),
        separator: false,
        children: vec![TrayMenuItem {
            id: -1,
            label: String::new(),
            enabled: false,
            checked: None,
            separator: true,
            children: Vec::new(),
        }],
    };
    let messages = vec![
        ServerMessage::SurfaceCreated(SurfaceCreated {
            id: SurfaceId(u64::MAX),
            size: Size { width: 1, height: 2 },
            content: Rect { x: -3, y: 4, width: 5, height: 6 },
            parent: Some(Anchor { parent: SurfaceId(1), x: -10, y: 20 }),
            decorated: false,
        }),
        ServerMessage::SurfaceFrame(SurfaceFrame {
            id: SurfaceId(5),
            codec: Codec::Deflate,
            damage: vec![
                Rect { x: 0, y: 0, width: 1, height: 1 },
                Rect { x: i32::MIN, y: i32::MAX, width: u32::MAX, height: 0 },
            ],
            payload: (0..=255).collect(),
        }),
        ServerMessage::Applications(vec![Application {
            id: 0,
            name: String::from("Éditeur"),
            app_id: String::from("org.gnome.gedit"),
            icon: Some(String::from("data:image/png;base64,Zg==")),
        }]),
        ServerMessage::SurfaceTitle { id: SurfaceId(6), title: String::from("vim — a.rs") },
        ServerMessage::SurfaceAppId { id: SurfaceId(6), app_id: String::from("kitty") },
        ServerMessage::SurfaceRequest { id: SurfaceId(7), request: WindowRequest::Minimize },
        ServerMessage::Tray {
            items: vec![TrayItem { id: String::from(":1.4"), title: String::new(), icon: None }],
        },
        ServerMessage::TrayMenu { id: String::from(":1.4"), items: vec![row] },
        ServerMessage::Audio { payload: vec![1, 2, 3] },
        ServerMessage::Clipboard { text: String::from("naïve ✓") },
        ServerMessage::PointerConstraint { id: SurfaceId(8), locked: false },
        ServerMessage::Cursor { name: String::from("none") },
        ServerMessage::SurfaceDestroyed { id: SurfaceId(9) },
    ];
    for message in &messages {
        let frame = encode(message).unwrap();
        assert_eq!(*message, decode::<ServerMessage>(&frame).unwrap());
        assert_eq!(*message, message.clone());
    }
}

#[test]
fn every_client_message_round_trips() {
    let size = Size { width: 640, height: 480 };
    let messages = vec![
        ClientMessage::Input(InputEvent::PointerButton { button: 0x110, state: Press::Down }),
        ClientMessage::Input(InputEvent::Key { keycode: 30, state: Press::Up }),
        ClientMessage::FramePresented { id: SurfaceId(1) },
        ClientMessage::Focus { id: SurfaceId(2) },
        ClientMessage::Clipboard { text: String::from("x") },
        ClientMessage::Launch { id: 3 },
        ClientMessage::TrayActivate { id: String::from("a"), secondary: true },
        ClientMessage::TrayMenuOpen { id: String::from("b") },
        ClientMessage::TrayMenuClick { id: String::from("c"), item: -7 },
        ClientMessage::CloseSurface { id: SurfaceId(4) },
        ClientMessage::SetMaximized { id: SurfaceId(5), size: None },
        ClientMessage::SetSize { id: SurfaceId(6), size },
        ClientMessage::Resize { size },
        ClientMessage::RequestKeyframe,
    ];
    for message in &messages {
        let frame = encode(message).unwrap();
        assert_eq!(*message, decode::<ClientMessage>(&frame).unwrap());
        assert_eq!(*message, message.clone());
    }
}

/// The exact bytes: a little-endian tag, then the fields in order.
#[test]
fn a_frame_is_a_tag_and_its_fields() {
    let frame = encode(&ClientMessage::Launch { id: 7 }).unwrap();
    assert_eq!(frame, vec![4, 0, 0, 0, 7, 0, 0, 0]);
    let frame = encode(&ServerMessage::SurfaceTitle {
        id: SurfaceId(1),
        title: String::from("hi"),
    })
    .unwrap();
    assert_eq!(
        frame,
        vec![3, 0, 0, 0, 1, 0, 0, 0, 0, 0, 0, 0, 2, 0, 0, 0, 0, 0, 0, 0, b'h', b'i']
    );
    assert_eq!(VERSION, 0);
}

/// An index that no variant has is refused, and the refusal names it and how many
/// variants there are.
#[test]
fn decode_names_an_unknown_variant() {
    let refusal = |index: &str, variants: &str| {
        WireError::Decode(format!(
            "invalid value: integer `{index}`, expected variant index 0 <= i < {variants}"
        ))
    };
    assert_eq!(decode::<ClientMessage>(&[0xff; 4]).unwrap_err(), refusal("4294967295", "13"));
    assert_eq!(decode::<ClientMessage>(&[13, 0, 0, 0]).unwrap_err(), refusal("13", "13"));
    assert_eq!(decode::<ServerMessage>(&[0, 1, 0, 0]).unwrap_err(), refusal("256", "13"));
    assert_eq!(decode::<InputEvent>(&[5, 0, 0, 0]).unwrap_err(), refusal("5", "5"));
    assert_eq!(decode::<Codec>(&[3, 0, 0, 0]).unwrap_err(), refusal("3", "3"));
    assert_eq!(decode::<WindowRequest>(&[10, 0, 0, 0]).unwrap_err(), refusal("10", "4"));
    assert_eq!(decode::<Press>(&[2, 0, 0, 0]).unwrap_err(), refusal("2", "2"));
}

/// A byte that is neither 0 nor 1 is no truth value and says nothing of whether a
/// value is there.
#[test]
fn decode_names_a_byte_that_is_no_flag() {
    assert_eq!(
        decode::<bool>(&[7]).unwrap_err(),
        WireError::Decode(String::from(
            "invalid u8 while decoding bool, expected 0 or 1, found 7"
        ))
    );
    assert_eq!(
        decode::<Option<u32>>(&[2, 0, 0, 0, 0]).unwrap_err(),
        WireError::Decode(String::from("tag for enum is not valid, found 2"))
    );
    assert_eq!(decode::<Option<u32>>(&[1, 4, 3, 2, 1]).unwrap(), Some(0x0102_0304));
}

/// A refusal inside a message is worded as it is on its own.
#[test]
fn decode_names_what_it_refuses_within_a_message() {
    let frame = ServerMessage::SurfaceFrame(SurfaceFrame {
        id: SurfaceId(1),
        codec: Codec::Raw,
        damage: Vec::new(),
        payload: Vec::new(),
    });
    let mut bytes = encode(&frame).unwrap();
    bytes[12] = 9;
    assert_eq!(
        decode::<ServerMessage>(&bytes).unwrap_err(),
        WireError::Decode(String::from(
            "invalid value: integer `9`, expected variant index 0 <= i < 3"
        ))
    );
    let row = TrayMenuItem {
        id: 1,
        label: String::from("a"),
        enabled: true,
        checked: None,
        separator: false,
        children: Vec::new(),
    };
    let menu = ServerMessage::TrayMenu { id: String::new(), items: vec![row] };
    let mut bytes = encode(&menu).unwrap();
    // The index, an empty id, one row, its id and its label stand before its flag.
    bytes[4 + 8 + 8 + 4 + 9] = 3;
    assert_eq!(
        decode::<ServerMessage>(&bytes).unwrap_err(),
        WireError::Decode(String::from(
            "invalid u8 while decoding bool, expected 0 or 1, found 3"
        ))
    );
}

/// A text that is not UTF-8, and one that ends early, are refused.
#[test]
fn decode_refuses_broken_texts() {
    let mut frame = encode(&ClientMessage::Clipboard { text: String::from("ab") }).unwrap();
    let last = frame.len() - 1;
    frame[last] = 0xff;
    assert!(matches!(decode::<ClientMessage>(&frame), Err(WireError::Decode(_))));
    frame.pop();
    assert!(matches!(decode::<ClientMessage>(&frame), Err(WireError::Decode(_))));
}

/// Distinct messages give distinct frames.
#[test]
fn frames_tell_messages_apart() {
    let raised = encode(&ClientMessage::Focus { id: SurfaceId(4) }).unwrap();
    let closed = encode(&ClientMessage::CloseSurface { id: SurfaceId(4) }).unwrap();
    assert_ne!(raised, closed);
}

#[test]
fn inflating_garbage_says_so() {
    match inflate(&[0xff, 0xff, 0xff]) {
        Err(WireError::Decode(text)) => assert!(text.starts_with("inflate: ")),
        other => panic!("garbage inflated to {other:?}"),
    }
    match settle(Err(String::from("Failed"))) {
        Err(WireError::Decode(text)) => assert_eq!(text, "inflate: Failed"),
        other => panic!("settled as {other:?}"),
    }
}

#[test]
fn an_empty_payload_round_trips() {
    assert_eq!(inflate(&deflate(&[])).unwrap(), Vec::<u8>::new());
    assert_ne!(deflate(&[1, 2, 3]), vec![1, 2, 3]);
}
