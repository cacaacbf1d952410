use webland::geometry::{Rect, Size, SurfaceId};
use webland::protocol::messages::{
    ClientMessage, Codec, ServerMessage, SurfaceCreated, SurfaceFrame,
};
use webland::server::audio::{
    is_left_behind, load_arguments, owner_of, process_path, sinks, Sink,
};
use webland::server::pacer::{Pacer, INITIAL_CREDIT};
use webland::server::tray::{
    best_pixmap, clean, forget, item_address, menu_item, menu_items, picture_url, pixmap_url, png,
    register, rgba, split, MenuNode, Pixmap,
};

fn frame(id: u64) -> ServerMessage {
    tagged(id, 0)
}

/// A frame of `id` carrying `tag`, so one can be told from another.
fn tagged(id: u64, tag: u8) -> ServerMessage {
    ServerMessage::SurfaceFrame(SurfaceFrame {
        id: SurfaceId(id),
        codec: Codec::Raw,
        damage: Vec::new(),
        payload: vec![tag],
    })
}

#[test]
fn pacer_bounds_inflight_and_keeps_newest() {
    let mut pacer = Pacer::new();

    // Up to INITIAL_CREDIT frames go out before any ack is required.
    for _ in 0..INITIAL_CREDIT {
        assert!(pacer.on_frame(tagged(1, 0)).is_some());
    }
    // Out of credit: further frames are withheld, only the newest retained.
    assert!(pacer.on_frame(tagged(1, 7)).is_none());
    assert!(pacer.on_frame(tagged(1, 9)).is_none());

    // An ack releases exactly the newest withheld frame, not the stale one.
    match pacer.on_ack(1) {
        Some(ServerMessage::SurfaceFrame(f)) => assert_eq!(f.payload, vec![9]),
        other => panic!("expected the newest withheld frame, got {other:?}"),
    }
    // Nothing pending now: the next ack releases nothing.
    assert!(pacer.on_ack(1).is_none());
}

#[test]
fn pacer_starves_no_surface() {
    let mut pacer = Pacer::new();

    // One busy window must not spend another's credit, and must not overwrite
    // what another has waiting.
    for _ in 0..INITIAL_CREDIT {
        assert!(pacer.on_frame(frame(1)).is_some());
        assert!(pacer.on_frame(frame(2)).is_some());
    }
    assert!(pacer.on_frame(tagged(1, 11)).is_none());
    assert!(pacer.on_frame(tagged(2, 22)).is_none());

    // Each surface gets its own frame back, not the other's.
    match pacer.on_ack(2) {
        Some(ServerMessage::SurfaceFrame(f)) => {
            assert_eq!(f.id, SurfaceId(2));
            assert_eq!(f.payload, vec![22]);
        }
        other => panic!("surface 2 should get its own held frame, got {other:?}"),
    }
    match pacer.on_ack(1) {
        Some(ServerMessage::SurfaceFrame(f)) => {
            assert_eq!(f.id, SurfaceId(1));
            assert_eq!(f.payload, vec![11]);
        }
        other => panic!("surface 1's held frame should have survived, got {other:?}"),
    }
}

#[test]
fn pacer_lets_titles_through_while_out_of_credit() {
    let mut pacer = Pacer::new();
    while pacer.on_frame(frame(1)).is_some() {}
    // A title held until the window next redraws is a window captioned with a
    // placeholder for as long as it sits still.
    let title = ServerMessage::SurfaceTitle { id: SurfaceId(1), title: String::from("editor") };
    assert!(pacer.on_frame(title).is_some());
}

#[test]
fn pacer_lets_surface_announcements_bypass() {
    let mut pacer = Pacer::new();
    // Exhaust credit.
    while pacer.on_frame(frame(1)).is_some() {}
    // An announcement still goes out immediately despite zero credit.
    let created = ServerMessage::SurfaceCreated(SurfaceCreated {
        id: SurfaceId(9),
        size: Size { width: 1, height: 1 },
        content: Rect { x: 0, y: 0, width: 1, height: 1 },
        parent: None,
        decorated: true,
    });
    assert!(pacer.on_frame(created).is_some());
}

#[test]
fn an_ack_from_the_browser_reaches_the_pacer() {
    let mut pacer = Pacer::new();
    while pacer.on_frame(tagged(3, 1)).is_some() {}
    assert_eq!(pacer.credit(3), 0);
    assert_eq!(pacer.credit(4), INITIAL_CREDIT);
    let out = pacer.on_client(&ClientMessage::FramePresented { id: SurfaceId(3) });
    assert_eq!(out, Some(tagged(3, 1)));
    assert_eq!(pacer.on_client(&ClientMessage::RequestKeyframe), None);
}

/// A sink with no owner recorded is one from before this existed, and is treated
/// as stale; a malformed one must not parse into somebody else's process id.
#[test]
fn a_sink_says_which_server_owns_it() {
    let line = "23\tmodule-null-sink\tsink_name=webland \
                sink_properties=device.description=Webland device.webland.pid=4213\t";
    assert_eq!(owner_of(line), Some(4213));
    assert_eq!(owner_of("7\tmodule-null-sink\tsink_name=webland\t"), None);
    assert_eq!(owner_of("7\tsink_name=webland device.webland.pid=\t"), None);
}

/// What is loaded says whose it is, and is found again.
#[test]
fn a_loaded_sink_is_found_with_its_owner() {
    let arguments = load_arguments(4213);
    assert_eq!(arguments[0], "load-module");
    assert_eq!(arguments[1], "module-null-sink");
    assert_eq!(owner_of(&arguments[3]), Some(4213));
    let modules = format!(
        "1\tmodule-udev-detect\t\n23\tmodule-null-sink\t{} {}\n",
        arguments[2], arguments[3]
    );
    let found = sinks(&modules);
    assert_eq!(found.len(), 1);
    assert_eq!(found[0].module, "23");
    assert_eq!(found[0].owner, Some(4213));
    assert!(!is_left_behind(&found[0], true));
    assert!(is_left_behind(&found[0], false));
    assert_eq!(process_path(4213), "/proc/4213");
    assert_eq!(Sink::loaded("536870912\n").module(), "536870912");
}

/// A pixmap's bytes are `A R G B`; a PNG's are `R G B A`.
#[test]
fn a_pixmap_becomes_a_png_with_the_channels_in_the_right_order() {
    // One opaque red pixel, in the tray's order.
    let encoded = png(1, 1, &[0xff, 0xff, 0x00, 0x00]).expect("one pixel encodes");
    let decoder = ::png::Decoder::new(encoded.as_slice());
    let mut reader = decoder.read_info().expect("valid png");
    let mut pixels = vec![0; reader.output_buffer_size()];
    let info = reader.next_frame(&mut pixels).expect("one frame");
    assert_eq!((info.width, info.height), (1, 1));
    assert_eq!(&pixels[..4], &[0xff, 0x00, 0x00, 0xff]);
}

/// Short data is a malformed item, not a reason to read past the end.
#[test]
fn a_pixmap_that_is_too_small_is_refused() {
    assert!(png(4, 4, &[0; 16]).is_none());
}

#[test]
fn the_largest_usable_pixmap_is_drawn() {
    let small: Pixmap = (1, 1, vec![0xff, 1, 2, 3]);
    let large: Pixmap = (2, 1, vec![0xff, 1, 2, 3, 0xff, 4, 5, 6]);
    assert_eq!(rgba(2, 1, &large.2), Some(vec![1, 2, 3, 0xff, 4, 5, 6, 0xff]));
    assert_eq!(rgba(-1, 1, &large.2), None);
    assert_eq!(best_pixmap(&[]), None);
    let both = vec![small, large];
    assert_eq!(best_pixmap(&both), Some(1));
    assert!(pixmap_url(&both).unwrap().starts_with("data:image/png;base64,"));
}

#[test]
fn an_item_address_splits_into_a_bus_name_and_a_path() {
    assert_eq!(
        split(":1.42/org/ayatana/NotificationItem/item"),
        (String::from(":1.42"), String::from("/org/ayatana/NotificationItem/item"))
    );
    // No path: the one to assume.
    assert_eq!(split(":1.7"), (String::from(":1.7"), String::from("/StatusNotifierItem")));
}

#[test]
fn items_come_and_go_with_their_owner() {
    let mut items = Vec::new();
    let address = item_address("/StatusNotifierItem", &Some(String::from(":1.5")));
    assert_eq!(address, ":1.5/StatusNotifierItem");
    assert!(register(&mut items, address.clone()));
    assert!(!register(&mut items, address));
    assert!(register(&mut items, item_address(":1.6", &None)));
    assert!(forget(&mut items, ":1.5"));
    assert_eq!(items, vec![String::from(":1.6")]);
    assert!(!forget(&mut items, ":1.5"));
}

#[test]
fn a_mnemonic_is_not_part_of_the_label() {
    assert_eq!(clean(String::from("_Quit")), "Quit");
    assert_eq!(clean(String::from("Save __As")), "Save _As");
}

fn node(id: i32, label: Option<&str>) -> MenuNode {
    MenuNode {
        id,
        visible: None,
        kind: None,
        label: label.map(String::from),
        enabled: None,
        toggle_type: None,
        toggle_state: None,
        children: Vec::new(),
    }
}

/// A row is a rule, or says something: nothing blank is shown.
#[test]
fn no_menu_row_is_blank() {
    let mut hidden = node(1, Some("Hidden"));
    hidden.visible = Some(false);
    let mut rule = node(2, None);
    rule.kind = Some(String::from("separator"));
    let mut ticked = node(3, Some("_Wi-Fi"));
    ticked.toggle_type = Some(String::from("checkmark"));
    ticked.toggle_state = Some(1);
    let rows = menu_items(&vec![hidden, rule, ticked, node(4, None)]);
    assert_eq!(rows.len(), 2);
    assert!(rows[0].separator);
    assert_eq!(rows[1].label, "Wi-Fi");
    assert_eq!(rows[1].checked, Some(true));
    assert!(rows[1].enabled);
    assert!(menu_item(&node(5, Some(""))).is_none());
}

/// A picture is inlined whole.
#[test]
fn a_picture_is_a_data_url() {
    assert_eq!(picture_url(&[0x4d, 0x61, 0x6e]), "data:image/png;base64,TWFu");
    assert_eq!(picture_url(&[]), "data:image/png;base64,");
}
