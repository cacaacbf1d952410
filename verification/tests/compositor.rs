use webland::compositor::clipboard::{preferred_mime, text_mimes};
use webland::compositor::clock::{
    rest_of_pass, FrameClock, IDLE_FRAME_INTERVAL, INITIAL_FRAME_CREDIT, MAX_FRAME_CREDIT,
};
use webland::compositor::config::{
    bitrate, configured_size, host_layout, keyboard_layout, render_node,
};
use webland::compositor::cursors::{
    nearest, read, shape, shape_of, straight, theme, theme_name, theme_size, CursorImage,
};
use webland::compositor::damage::{changed_region, clip, crop};
use webland::compositor::encode::{buffer_arguments, refusal, Encoder, Stage};
use webland::compositor::input::{inject_input, SeatStep};
use webland::compositor::pass::tick;
use webland::compositor::popups::{ancestry, dismiss_popups, Popup};
use webland::compositor::session::{pointer_surface, Batch};
use webland::compositor::spawn::{Bus, Env};
use webland::compositor::state::{Action, Webland, X11Window};
use webland::compositor::stream::{Encoded, Seen, Step};
use webland::compositor::tracking::{Input, Known};
use webland::compositor::window::{capture_source, content_rect, window_geometry, Geometry, Source};
use webland::geometry::{Point, Rect, Size, SurfaceId};
use webland::protocol::deflate::inflate;
use webland::protocol::messages::{
    ClientMessage, Codec, InputEvent, Press, ServerMessage, SurfaceFrame, WindowRequest,
};

fn rect(x: i32, y: i32, width: u32, height: u32) -> Rect {
    Rect { x, y, width, height }
}

fn text(value: &str) -> String {
    String::from(value)
}

/// Motion and scroll go to the window the browser delivered them to; everything
/// else follows the keyboard focus.
#[test]
fn only_motion_and_scroll_name_the_surface_they_go_to() {
    let hovered = SurfaceId(4);
    assert_eq!(
        pointer_surface(&InputEvent::PointerMotion {
            id: hovered,
            position: Point { x: 3.0f64.to_bits(), y: 4.0f64.to_bits() },
        }),
        Some(hovered)
    );
    assert_eq!(
        pointer_surface(&InputEvent::PointerScroll {
            id: hovered,
            dx: 0.0f64.to_bits(),
            dy: (-120.0f64).to_bits(),
        }),
        Some(hovered)
    );
    for event in [
        InputEvent::PointerButton { button: 0x110, state: Press::Down },
        InputEvent::Key { keycode: 30, state: Press::Down },
        InputEvent::PointerMotionRelative { dx: 1.0f64.to_bits(), dy: 1.0f64.to_bits() },
    ] {
        assert_eq!(pointer_surface(&event), None);
    }
}

#[test]
fn preferred_mime_asks_for_text_and_nothing_else() {
    let offers = |mimes: &[&str]| mimes.iter().map(|m| (*m).to_string()).collect::<Vec<_>>();
    // The utf-8 spelling wins even when it is offered second.
    assert_eq!(
        preferred_mime(&offers(&["text/plain", "text/plain;charset=utf-8"])),
        Some("text/plain;charset=utf-8")
    );
    assert_eq!(preferred_mime(&offers(&["text/plain"])), Some("text/plain"));
    // A copied image or file list is not something to put on the clipboard of a
    // browser, so nothing is asked for at all.
    assert_eq!(preferred_mime(&offers(&["image/png", "text/uri-list"])), None);
    assert_eq!(preferred_mime(&[]), None);
}

#[test]
fn every_text_type_is_offered() {
    let mimes = text_mimes();
    assert_eq!(mimes[0], "text/plain;charset=utf-8");
    for mime in &mimes {
        assert_eq!(preferred_mime(std::slice::from_ref(mime)), Some(mime.as_str()));
    }
}

#[test]
fn ancestry_reaches_the_root_and_refuses_to_loop() {
    // A submenu of a menu of a window: clicking the submenu must leave all three
    // standing, which is what keeping the whole chain is for.
    let parents = |id: &u32| match id {
        3 => Some(2),
        2 => Some(1),
        _ => None,
    };
    assert_eq!(ancestry(Some(3), parents), vec![3, 2, 1]);
    assert_eq!(ancestry(Some(1), parents), vec![1]);
    assert!(ancestry(None::<u32>, parents).is_empty());
    // A client that describes a cycle gets a finite answer, not a hang.
    assert_eq!(
        ancestry(Some(9), |id: &u32| Some(if *id == 9 { 8 } else { 9 })),
        vec![9, 8]
    );
}

#[test]
fn clip_keeps_the_window_inside_the_image() {
    let image = Size { width: 100, height: 80 };
    // The ordinary case: a client that drew a 10px shadow all round.
    assert_eq!(clip((10, 10), (80, 60), image), rect(10, 10, 80, 60));
    // A geometry larger than what was committed is trimmed, not trusted.
    assert_eq!(clip((10, 10), (200, 200), image), rect(10, 10, 90, 70));
    // Nonsense stays inside the image and stays visible.
    assert_eq!(clip((-5, -5), (50, 40), image), rect(0, 0, 50, 40));
    assert_eq!(clip((500, 500), (50, 40), image), rect(100, 80, 1, 1));
    assert_eq!(clip((0, 0), (0, 0), image), rect(0, 0, 1, 1));
}

#[test]
fn changed_region_bounds_only_what_differs() {
    let size = Size { width: 4, height: 3 };
    let old = vec![0u8; 4 * 3 * 4];
    assert_eq!(changed_region(&old, &old, size), None);

    // One pixel, at (2, 1): row 1 of 4 pixels, then 2 pixels in.
    let mut new = old.clone();
    new[(4 + 2) * 4] = 9;
    assert_eq!(changed_region(&old, &new, size), Some(rect(2, 1, 1, 1)));

    // Two apart: the box spans them, rows and columns both.
    new[(2 * 4) * 4 + 3] = 9;
    assert_eq!(changed_region(&old, &new, size), Some(rect(0, 1, 3, 2)));

    // A resize is not a diff; the caller sends the whole surface instead.
    assert_eq!(changed_region(&old, &new[..8], size), None);
}

#[test]
fn crop_packs_rows_and_refuses_to_read_past_the_buffer() {
    // 4x2 BGRA, each pixel byte = its row number, with 4 bytes of padding per row
    // so the stride is not the width.
    let stride: i32 = 4 * 4 + 4;
    let mut buffer = vec![0u8; stride as usize * 2];
    buffer[stride as usize..stride as usize + 16].fill(1);

    let packed = crop(&buffer, 0, stride, rect(1, 1, 2, 1));
    assert_eq!(packed, vec![1u8; 8]);
    // Short buffer: return nothing rather than read off the end.
    assert!(crop(&buffer[..stride as usize], 0, stride, rect(0, 1, 4, 1)).is_empty());
}

#[test]
fn frame_clock_spends_credit_then_waits_for_the_browser() {
    let now = 1_000_000_000;
    let mut clock = FrameClock::new(now);

    // Clients may render a little before any browser has presented.
    for _ in 0..INITIAL_FRAME_CREDIT {
        assert!(clock.should_tick(now));
    }
    // Out of credit: no more callbacks until the browser catches up.
    assert!(!clock.should_tick(now));

    clock.on_ack(now);
    assert!(clock.should_tick(now));
    assert!(!clock.should_tick(now));
}

#[test]
fn frame_clock_keeps_clients_alive_with_no_browser() {
    let start = 1_000_000_000;
    let mut clock = FrameClock::new(start);
    for _ in 0..INITIAL_FRAME_CREDIT {
        assert!(clock.should_tick(start));
    }
    assert!(!clock.should_tick(start));

    // Without this, a compositor whose browser never connects would stall every
    // client forever.
    assert!(clock.should_tick(start + IDLE_FRAME_INTERVAL));
    assert!(!clock.should_tick(start + IDLE_FRAME_INTERVAL));
}

#[test]
fn frame_clock_caps_banked_credit() {
    let now = 1_000_000_000;
    let mut clock = FrameClock::new(now);
    // A burst of acks must not let clients free-run afterwards.
    for _ in 0..50 {
        clock.on_ack(now);
    }
    for _ in 0..INITIAL_FRAME_CREDIT {
        assert!(clock.should_tick(now));
    }
    assert!(!clock.should_tick(now));
}

#[test]
fn frame_clock_opens_up_over_a_slow_link() {
    let now = 1_000_000_000;
    let mut clock = FrameClock::new(now);
    // A 96ms round trip fits six 16ms frames in the pipe.
    let trip = 96_000_000;
    for _ in 0..12 {
        clock.on_send(now);
        clock.on_ack(now + trip);
    }
    let mut ticks = 0;
    while clock.should_tick(now) {
        ticks += 1;
    }
    assert!(
        ticks > INITIAL_FRAME_CREDIT,
        "a slow link should allow more frames in flight, got {ticks}"
    );
    assert!(ticks <= MAX_FRAME_CREDIT, "but never more than the bound");
}

/// A pass rests for what is left of its frame.
#[test]
fn a_pass_rests_out_its_frame() {
    assert_eq!(rest_of_pass(0), Some(16_000_000));
    assert_eq!(rest_of_pass(15_999_999), Some(1));
    assert_eq!(rest_of_pass(16_000_000), Some(0));
    assert_eq!(rest_of_pass(16_000_001), None);
}

/// The ceiling is the round trip over the frame interval, within its bounds.
#[test]
fn the_ceiling_is_what_fits_in_the_pipe() {
    let callbacks = |trip: u64| {
        let now = 1_000_000_000;
        let mut clock = FrameClock::new(now);
        for _ in 0..20 {
            clock.on_send(now);
            clock.on_ack(now + trip);
        }
        let mut ticks = 0;
        while clock.should_tick(now) {
            ticks += 1;
        }
        ticks
    };
    assert_eq!(callbacks(1_000_000), 2);
    assert_eq!(callbacks(47_999_999), 2);
    assert_eq!(callbacks(48_000_000), 3);
    assert_eq!(callbacks(96_000_000), 6);
    assert_eq!(callbacks(191_000_000), 11);
    assert_eq!(callbacks(1_000_000_000), 12);
    assert_eq!(callbacks(u64::MAX - 1_000_000_000), 12);
}

/// Without a bus of our own, the host's must be taken away rather than left in
/// place. The same goes for `DISPLAY` with no `XWayland` running.
#[test]
fn nothing_of_the_host_session_is_inherited() {
    let env = Env { display: text("wayland-9"), xdisplay: None, bus: None };
    let delta = env.delta();
    assert!(delta.contains(&(text("DBUS_SESSION_BUS_ADDRESS"), None)));
    assert!(delta.contains(&(text("DISPLAY"), None)));
    assert!(delta.contains(&(text("WAYLAND_DISPLAY"), Some(text("wayland-9")))));
}

/// With `XWayland` up, X clients get our display number and nothing else.
#[test]
fn xwayland_display_is_ours() {
    let env = Env { display: text("wayland-9"), xdisplay: Some(3), bus: None };
    assert!(env.delta().contains(&(text("DISPLAY"), Some(text(":3")))));
}

#[test]
fn children_are_pointed_at_our_bus() {
    let bus = Bus::announced("unix:path=/tmp/dbus-x,guid=1\n").unwrap();
    assert_eq!(bus.address(), "unix:path=/tmp/dbus-x,guid=1");
    assert!(Bus::announced(" \n").is_none());
    let env = Env::new("wayland-2", Some(0), Some(&bus));
    assert_eq!(
        env.delta(),
        vec![
            (text("WAYLAND_DISPLAY"), Some(text("wayland-2"))),
            (text("XDG_SESSION_TYPE"), Some(text("wayland"))),
            (text("PULSE_SINK"), Some(text("webland"))),
            (text("DISPLAY"), Some(text(":0"))),
            (text("DBUS_SESSION_BUS_ADDRESS"), Some(text("unix:path=/tmp/dbus-x,guid=1"))),
        ]
    );
}

/// Undoing premultiplication is what keeps a soft edge soft: a half transparent
/// white pixel is stored halved, and has to come back white.
#[test]
fn premultiplied_pixels_come_back_straight() {
    let image = CursorImage {
        size: 24,
        width: 1,
        height: 2,
        xhot: 0,
        yhot: 0,
        rgba: vec![128, 128, 128, 128, 255, 0, 0, 255],
    };
    // The opaque red is already straight and must come back untouched.
    assert_eq!(straight(&image.rgba), vec![255, 255, 255, 128, 255, 0, 0, 255]);
}

fn number(bytes: &mut Vec<u8>, value: u32) {
    bytes.extend_from_slice(&value.to_le_bytes());
}

/// A cursor file with one picture of one pixel per nominal size.
fn cursor_file(pictures: &[(u32, [u8; 4])]) -> Vec<u8> {
    let mut bytes = b"Xcur".to_vec();
    number(&mut bytes, 16);
    number(&mut bytes, 0x10000);
    number(&mut bytes, pictures.len() as u32);
    let start = 16 + 12 * pictures.len() as u32;
    for (i, (size, _)) in pictures.iter().enumerate() {
        number(&mut bytes, 0xfffd_0002);
        number(&mut bytes, *size);
        number(&mut bytes, start + 40 * i as u32);
    }
    for (size, pixel) in pictures {
        for value in [36, 0xfffd_0002, *size, 1, 1, 1, 1, 0, 50] {
            number(&mut bytes, value);
        }
        bytes.extend_from_slice(pixel);
    }
    bytes
}

#[test]
fn the_nearest_size_of_a_cursor_is_drawn() {
    let file = cursor_file(&[
        (16, [1, 1, 1, 255]),
        (32, [64, 64, 64, 64]),
        (32, [2, 2, 2, 255]),
        (48, [3, 3, 3, 255]),
    ]);
    let drawn = read("pointer", &file, 30).unwrap();
    assert_eq!(drawn.name, "pointer");
    assert_eq!((drawn.width, drawn.height), (1, 1));
    assert_eq!((drawn.hotspot_x, drawn.hotspot_y), (1, 0));
    // The first frame of the nearest size, its alpha divided out.
    assert_eq!(drawn.rgba, vec![255, 255, 255, 64]);
    assert!(read("pointer", b"not a cursor", 24).is_none());
}

#[test]
fn a_theme_leaves_out_what_it_lacks() {
    let file = cursor_file(&[(24, [9, 8, 7, 255])]);
    let shapes = theme(&vec![Some(file), None, Some(vec![1, 2, 3])], 24);
    assert_eq!(shapes.len(), 1);
    assert_eq!(shapes[0].name, "default");
    assert_eq!(shapes[0].rgba, vec![9, 8, 7, 255]);
    assert_eq!(shape(8), "nesw-resize");
    assert!(shape_of("text", None, 24).is_none());
    assert!(shape_of("text", Some(Vec::new()), 24).is_none());
    assert_eq!(nearest(&Vec::new(), 24), None);
}

#[test]
fn the_cursor_theme_has_defaults() {
    assert_eq!(theme_name(None), "default");
    assert_eq!(theme_name(Some(String::new())), "default");
    assert_eq!(theme_name(Some(text("Adwaita"))), "Adwaita");
    assert_eq!(theme_size(&None), 24);
    assert_eq!(theme_size(&Some(text("0"))), 24);
    assert_eq!(theme_size(&Some(text("big"))), 24);
    assert_eq!(theme_size(&Some(text("48"))), 48);
}

#[test]
fn an_encoder_takes_only_even_sizes() {
    let refused = |width, height| Encoder::new("/dev/dri/renderD128", width, height).unwrap_err().0;
    assert_eq!(refused(0, 2), "surface size is not encodable as NV12");
    assert_eq!(refused(3, 2), "surface size is not encodable as NV12");
    assert_eq!(refused(2, 5), "surface size is not encodable as NV12");
    assert_eq!(Encoder::new("a\0b", 2, 2).unwrap_err().0, "render node path has a NUL");
    let mut encoder = Encoder::new("/dev/dri/renderD128", 4, 2).unwrap();
    assert_eq!(encoder.size(), (4, 2));
    let settings = encoder.settings(8_000_000).unwrap();
    assert_eq!((settings.width, settings.height), (4, 2));
    assert_eq!((settings.framerate, settings.gop_size), (60, 120));
    assert_eq!(encoder.accept(&[0; 31]), None);
    assert_eq!(encoder.accept(&[0; 32]), Some(0));
    assert_eq!(encoder.accept(&[0; 40]), Some(1));
    let wide = Encoder { width: 1 << 31, height: 2, pts: 0 };
    assert_eq!(wide.settings(1).unwrap_err().0, "surface too wide");
    let tall = Encoder { width: 2, height: 1 << 31, pts: 0 };
    assert_eq!(tall.settings(1).unwrap_err().0, "surface too tall");
}

#[test]
fn every_failed_step_has_a_name() {
    assert_eq!(refusal(Stage::Device).0, "no VA-API device");
    assert_eq!(refusal(Stage::Pool).0, "filter graph produced no hardware frames");
    assert_eq!(refusal(Stage::Open).0, "h264_vaapi will not open");
    assert_eq!(refusal(Stage::Buffer).0, "frame buffer alloc failed");
    assert_eq!(
        buffer_arguments(1280, 800, 28),
        "video_size=1280x800:pix_fmt=28:time_base=1/1000:pixel_aspect=1/1"
    );
}

#[test]
fn the_environment_has_defaults() {
    assert_eq!(configured_size(&None), (1280, 800));
    assert_eq!(configured_size(&Some(text("1920x1080"))), (1920, 1080));
    assert_eq!(configured_size(&Some(text("wide"))), (1280, 800));
    assert_eq!(bitrate(&None), 8_000_000);
    assert_eq!(bitrate(&Some(text("5000000"))), 5_000_000);
    assert_eq!(bitrate(&Some(text("fast"))), 8_000_000);
    assert_eq!(render_node(None), "/dev/dri/renderD128");
    assert_eq!(render_node(Some(text("/dev/dri/renderD129"))), "/dev/dri/renderD129");
    assert_eq!(host_layout("XKBMODEL=pc105\nXKBLAYOUT=fr\n").as_deref(), Some("fr"));
    assert_eq!(host_layout("XKBMODEL=pc105\n"), None);
    assert_eq!(keyboard_layout(Some(text("de")), Some(text("fr"))), "de");
    assert_eq!(keyboard_layout(None, Some(text("fr"))), "fr");
    assert_eq!(keyboard_layout(None, None), "");
}

/// What changed is sent, and put back together it is the new picture.
#[test]
fn damage_is_enough_to_rebuild_a_picture() {
    let size = Size { width: 2, height: 2 };
    let mut known = Known::new(1);
    let (at, fresh) = known.track(7, 0);
    assert!(fresh);
    let first = vec![1u8; 16];
    let sent = known.entries[at].damage_frame(Some(first.clone()), size, true, 0);
    match sent {
        Some(ServerMessage::SurfaceFrame(frame)) => {
            assert_eq!(frame.codec, Codec::Deflate);
            assert_eq!(frame.damage, vec![rect(0, 0, 2, 2)]);
            assert_eq!(inflate(&frame.payload).unwrap(), first);
        }
        other => panic!("a whole picture was due, got {other:?}"),
    }
    let mut second = first.clone();
    second[12] = 9;
    let sent = known.entries[at].damage_frame(Some(second.clone()), size, false, 0);
    match sent {
        Some(ServerMessage::SurfaceFrame(frame)) => {
            assert_eq!(frame.damage, vec![rect(1, 1, 1, 1)]);
            assert_eq!(inflate(&frame.payload).unwrap(), vec![9, 1, 1, 1]);
        }
        other => panic!("one pixel was due, got {other:?}"),
    }
    assert!(known.entries[at].damage_frame(Some(second), size, false, 0).is_none());
}

#[test]
fn a_surface_is_announced_before_its_title() {
    let mut known = Known::new(1);
    let (at, _) = known.track(7, 0);
    let seen = |title: &str| Seen {
        commits: vec![1],
        size: Size { width: 10, height: 10 },
        content: rect(0, 0, 10, 10),
        anchor: None,
        decorates_itself: false,
        app_id: Some(text("kitty")),
        title: Some(text(title)),
    };
    let (announced, messages) = known.entries[at].announce(seen("one"), false);
    assert!(announced);
    assert!(matches!(messages[0], ServerMessage::SurfaceCreated(_)));
    assert_eq!(messages.len(), 3);
    let (announced, messages) = known.entries[at].announce(seen("two"), false);
    assert!(!announced);
    assert_eq!(
        messages,
        vec![ServerMessage::SurfaceTitle { id: SurfaceId(1), title: text("two") }]
    );
}

#[test]
fn the_encoder_follows_the_buffer_kind() {
    let mut known = Known::new(1);
    let (at, _) = known.track(7, 0);
    let entry = &mut known.entries[at];
    assert_eq!(entry.plan_encoder(true), (Input::Dmabuf, true));
    entry.encoder_built(Input::Dmabuf);
    assert_eq!(entry.plan_encoder(true), (Input::Dmabuf, false));
    assert_eq!(entry.plan_encoder(false), (Input::Cpu, true));
    match entry.settle_encoded(Some(Encoded::Packet(vec![5])), 0) {
        Step::Send(ServerMessage::SurfaceFrame(frame)) => {
            assert_eq!(
                frame,
                SurfaceFrame {
                    id: SurfaceId(1),
                    codec: Codec::H264,
                    damage: Vec::new(),
                    payload: vec![5],
                }
            );
        }
        _ => panic!("a packet is sent"),
    }
    assert!(matches!(entry.settle_encoded(Some(Encoded::Pending), 0), Step::Done));
    assert!(matches!(entry.settle_encoded(None, 0), Step::ReadBack));
}

/// Ids and objects name each other, and an id is given out once.
#[test]
fn ids_are_given_out_once() {
    let mut known = Known::new(5);
    known.track(70, 0);
    known.track(71, 0);
    assert_eq!(known.id_of(71), Some(SurfaceId(6)));
    assert_eq!(known.object_for(SurfaceId(5)), Some(70));
    assert_eq!(known.retain_live(&vec![71]), vec![SurfaceId(5)]);
    assert_eq!(known.object_for(SurfaceId(5)), None);
    known.track(70, 0);
    assert_eq!(known.id_of(70), Some(SurfaceId(7)));
    assert!(tick(&mut known, 70, 0));
    assert!(!tick(&mut known, 99, 0));
}

/// A clicked menu keeps everything it hangs from; the others are done.
#[test]
fn a_click_dismisses_the_other_menus() {
    let mut popups = vec![
        Popup { object: 2, parent: Some(1) },
        Popup { object: 3, parent: Some(2) },
        Popup { object: 9, parent: Some(1) },
    ];
    assert_eq!(dismiss_popups(&mut popups, Some(3)), vec![9]);
    assert_eq!(popups.len(), 2);
    let mut popups = vec![
        Popup { object: 2, parent: Some(1) },
        Popup { object: 3, parent: Some(2) },
    ];
    let done = dismiss_popups(&mut popups, Some(1));
    assert_eq!(done.len(), 2);
    assert!(popups.is_empty());
}

/// A batch is taken and settled: focus goes where the browser put it, and input
/// goes with it.
#[test]
fn a_message_becomes_an_action() {
    let mut state = Webland::new((1280, 800));
    let mut known = Known::new(1);
    known.track(7, 0);
    state.toplevels.push(7);
    let mut batch = Batch::new();
    for message in [
        ClientMessage::Clipboard { text: text("copied") },
        ClientMessage::Focus { id: SurfaceId(1) },
        ClientMessage::Input(InputEvent::Key { keycode: 30, state: Press::Down }),
        ClientMessage::Launch { id: 4 },
        ClientMessage::CloseSurface { id: SurfaceId(1) },
        ClientMessage::SetSize { id: SurfaceId(1), size: Size { width: 640, height: 480 } },
        ClientMessage::RequestKeyframe,
    ] {
        let action = state.take(&mut known, &mut batch, message.clone(), 0);
        assert_eq!(
            action,
            if matches!(message, ClientMessage::Clipboard { .. }) {
                Some(Action::OfferSelection)
            } else {
                None
            }
        );
    }
    assert_eq!(state.clipboard, "copied");
    assert!(state.keyframe);
    let actions = state.settle(&known, &batch, None);
    assert!(actions.contains(&Action::Launch { id: 4 }));
    assert!(actions.contains(&Action::CloseToplevel { object: 7 }));
    assert!(actions.contains(&Action::FocusKeyboard { object: 7 }));
    assert!(actions.contains(&Action::Inject {
        object: 7,
        event: InputEvent::Key { keycode: 30, state: Press::Down },
    }));
    assert!(actions.contains(&Action::ConfigureToplevel {
        object: 7,
        size: Some((640, 480)),
        maximized: Some(false),
    }));
}

#[test]
fn x_windows_are_told_who_is_focused() {
    let mut state = Webland::new((0, 800));
    state.adopt_x11(X11Window { window: 1, surface: Some(10), activated: false });
    state.adopt_x11(X11Window { window: 1, surface: Some(10), activated: false });
    state.adopt_x11(X11Window { window: 2, surface: None, activated: false });
    assert_eq!(state.x11.len(), 1);
    assert_eq!(
        state.activate_x11(Some(10)),
        vec![Action::ActivateX11 { window: 1, active: true }]
    );
    assert!(state.activate_x11(Some(10)).is_empty());
    assert_eq!(state.streamed_surfaces(), vec![10]);
    assert_eq!(state.x11_size(), (1, 800));
    assert_eq!(state.configure_request(Some(300), None), (300, 800));
    state.drop_x11(1);
    assert!(state.x11.is_empty());
    state.request(10, WindowRequest::Move);
    assert_eq!(state.requests, vec![(10, WindowRequest::Move)]);
    assert!(state.decorates_itself(10, None));
    state.decoration_requested(10);
    assert!(!state.decorates_itself(10, None));
}

/// A key already where the event says it is tells the seat nothing.
#[test]
fn presses_do_not_pile_up() {
    let down = InputEvent::Key { keycode: 30, state: Press::Down };
    assert_eq!(
        inject_input(down, false, true, &Vec::new()),
        vec![SeatStep::Key { code: 38, state: Press::Down }]
    );
    assert!(inject_input(down, false, true, &vec![38]).is_empty());
    let relative = InputEvent::PointerMotionRelative { dx: 1, dy: 2 };
    assert_eq!(
        inject_input(relative, true, true, &Vec::new()),
        vec![SeatStep::Relative { dx: 1, dy: 2 }, SeatStep::Frame]
    );
    let scroll = InputEvent::PointerScroll { id: SurfaceId(1), dx: 0, dy: 1 };
    assert_eq!(
        inject_input(scroll, false, false, &Vec::new()),
        vec![SeatStep::TakePointer, SeatStep::Scroll { dx: 0, dy: 1 }, SeatStep::Frame]
    );
}

#[test]
fn a_window_is_cut_from_its_image() {
    let declared = Geometry { x: 10, y: 10, width: 80, height: 60 };
    assert_eq!(window_geometry(Some(declared), Some((100, 80))), Some(declared));
    assert_eq!(
        window_geometry(None, Some((100, 80))),
        Some(Geometry { x: 0, y: 0, width: 100, height: 80 })
    );
    let image = Size { width: 100, height: 80 };
    assert_eq!(content_rect(Some(declared), (0, 0), image), rect(10, 10, 80, 60));
    assert_eq!(content_rect(None, (0, 0), image), rect(0, 0, 100, 80));
    assert_eq!(capture_source(true, true, false), None);
    assert!(matches!(capture_source(false, true, false), Some(Source::SharedMemory)));
}

/// A picture with fewer pixels than its surface is announced, and carries none of
/// them: there is no row that could be cut out of it whole.
#[test]
fn a_short_picture_is_announced_empty() {
    let mut known = Known::new(3);
    let (at, _) = known.track(1, 0);
    let size = Size { width: 2, height: 2 };
    let sent = known.entries[at].damage_frame(Some(vec![1, 2, 3, 4]), size, true, 0);
    let Some(ServerMessage::SurfaceFrame(frame)) = sent else {
        panic!("nothing was sent");
    };
    assert_eq!(frame.damage, vec![rect(0, 0, 2, 2)]);
    assert_eq!(inflate(&frame.payload), Ok(Vec::new()));
    // Against a picture of another length nothing can be said to have changed.
    assert!(known.entries[at].damage_frame(Some(vec![0; 16]), size, false, 0).is_none());
}

/// A region far beyond its buffer is cut out as nothing, whatever its numbers.
#[test]
fn a_region_beyond_the_buffer_is_empty() {
    let region = rect(i32::MAX, i32::MAX, u32::MAX, u32::MAX);
    assert_eq!(crop(&[1, 2, 3, 4], i32::MAX, i32::MAX, region), Vec::<u8>::new());
    assert_eq!(crop(&[1, 2, 3, 4], -1, -1, rect(0, 0, 1, 2)), vec![1, 2, 3, 4, 1, 2, 3, 4]);
}
