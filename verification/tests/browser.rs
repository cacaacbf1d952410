use webland::browser::annexb::{codec_string, is_keyframe, nal_units};
use webland::browser::audio::Player;
use webland::browser::canvas::{
    needs_target, paint, upload, video_extent, Drawing, SurfaceRenderer, Target,
};
use webland::browser::capture::{self, lock_changed, lock_refused, Notice, Step};
use webland::browser::clipboard::{flush_deferred, is_paste, paste, PendingPaste, Synced};
use webland::browser::connect::{
    backend, incoming, opened, HiddenAcks, Incoming, Location, HIDDEN_INTERVAL,
};
use webland::browser::decoder::{Decoder, Feed};
use webland::browser::desktop::{
    cursor_drawn, dismiss, pick_window, preview_class, switcher_items, wake, wallpaper_style,
    Toast,
};
use webland::browser::dom::{
    clicked_element, cursor_for, element_cursor_icon, element_id, element_workspace,
    resize_direction, Element,
};
use webland::browser::event::{aimed_at_shell, KeyEvent, ModifierStates};
use webland::browser::keyboard::{release_modifiers, Keyboard};
use webland::browser::keymap::{evdev_button, evdev_key, Modifier};
use webland::browser::latency::{Latency, WINDOW};
use webland::browser::launcher::{matching, places, Search, SHOWN};
use webland::browser::locked::{self, ClickState, Gesture, Hit};
use webland::browser::mirror::Mirror;
use webland::browser::panel::{clock, show_workspace, workspace_number, WORKSPACES};
use webland::browser::pointer::{
    forward_button, hover, route_button, scroll, wheel_scale, ButtonRoute,
};
use webland::browser::scene::{
    AltTabState, Effect, ResizeDirection, Shell, SnapZone, WindowState,
};
use webland::browser::shortcuts::{
    alt_tab, claims, commit_alt_tab, handle, present_and_focus, switch_workspace,
};
use webland::browser::systray::{initial, pick, press, row_kind, ticked, RowKind};
use webland::browser::tasks::{click, next_below, tasks};
use webland::browser::traffic::{since, Traffic};
use webland::browser::window::{
    choose_item, classes, menu_items, placement, press_surface, press_titlebar, take_request,
    ClientDrag, MenuItem, TitlebarButton,
};
use webland::geometry::{Point, Rect, Size, SurfaceId};
use webland::protocol::deflate::deflate;
use webland::protocol::messages::{
    Anchor, Application, ClientMessage, Codec, InputEvent, Press, ServerMessage, SurfaceCreated,
    SurfaceFrame, TrayMenuItem, WindowRequest,
};

fn text(value: &str) -> String {
    String::from(value)
}

fn window(id: u64, z: u32) -> WindowState {
    WindowState {
        id,
        title: format!("window {id}"),
        parent: None,
        workspace: 0,
        minimized: false,
        z,
        pointer_locked: false,
        decorated: true,
        restorable: false,
        snap: None,
    }
}

fn shell() -> Shell {
    Shell { workspace: 0, focused: None, alt_tab: None, launcher_open: false }
}

fn states() -> ModifierStates {
    ModifierStates { shift: false, control: false, alt: false, alt_graph: false, meta: false }
}

fn key(code: &str) -> KeyEvent {
    KeyEvent {
        code: text(code),
        key: text(code),
        target_tag: None,
        alt: false,
        ctrl: false,
        shift: false,
        meta: false,
        states: states(),
    }
}

/// What is sent, in order, of a list of effects.
fn sent(effects: &[Effect]) -> Vec<ClientMessage> {
    effects
        .iter()
        .filter_map(|effect| match effect {
            Effect::Send(message) => Some(message.clone()),
            _ => None,
        })
        .collect()
}

fn key_message(keycode: u32, state: Press) -> ClientMessage {
    ClientMessage::Input(InputEvent::Key { keycode, state })
}

fn focus(id: u64) -> ClientMessage {
    ClientMessage::Focus { id: SurfaceId(id) }
}

fn presented(id: u64) -> ClientMessage {
    ClientMessage::FramePresented { id: SurfaceId(id) }
}

#[test]
fn a_keyframe_is_an_idr_unit() {
    assert!(is_keyframe(&[0, 0, 0, 1, 0x65, 9]));
    assert!(is_keyframe(&[0, 0, 1, 0x67, 1, 2, 3, 0, 0, 1, 0x65]));
    assert!(!is_keyframe(&[0, 0, 1, 0x41, 9]));
    assert!(!is_keyframe(&[]));
    // A start code at the very end begins nothing.
    assert!(!is_keyframe(&[0, 0, 1]));
}

#[test]
fn the_codec_comes_from_the_first_sps() {
    let unit = [0, 0, 0, 1, 0x67, 0x64, 0x00, 0x1f, 0, 0, 1, 0x67, 0x42, 0xe0, 0x0b];
    assert_eq!(codec_string(&unit).as_deref(), Some("avc1.64001F"));
    assert_eq!(codec_string(&[0, 0, 1, 0x67, 1, 2]), None);
    assert_eq!(codec_string(&[0, 0, 1, 0x65, 1, 2, 3]), None);
}

/// Nothing is decoded before a keyframe, and the compositor is asked once.
#[test]
fn a_decoder_waits_for_a_keyframe() {
    let delta = [0, 0, 1, 0x41, 9];
    let start = [0, 0, 1, 0x67, 0x64, 0x00, 0x1f, 0, 0, 1, 0x65, 1];
    let mut decoder = Decoder::new();
    assert!(matches!(decoder.decode(&delta), Feed::Drop));
    assert!(decoder.take_keyframe_request());
    assert!(!decoder.take_keyframe_request());
    match decoder.decode(&start) {
        Feed::Configure(codec) => assert_eq!(codec, "avc1.64001F"),
        other => panic!("a keyframe configures, got {other:?}"),
    }
    match decoder.configured(&start, true) {
        Feed::Queue(chunk) => assert_eq!((chunk.key, chunk.timestamp), (true, 0)),
        other => panic!("a configured decoder takes it, got {other:?}"),
    }
    match decoder.decode(&delta) {
        Feed::Queue(chunk) => assert_eq!((chunk.key, chunk.timestamp), (false, 1000)),
        other => panic!("then deltas too, got {other:?}"),
    }
    decoder.failed();
    assert!(matches!(decoder.decode(&delta), Feed::Drop));
    assert!(matches!(decoder.configured(&start, false), Feed::Drop));
    decoder.reopened();
    assert!(decoder.take_keyframe_request());
    decoder.timestamp = i32::MAX;
    decoder.configured = true;
    assert!(matches!(decoder.decode(&delta), Feed::Queue(_)));
    assert_eq!(decoder.timestamp, i32::MAX.wrapping_add(1000));
    // A keyframe without an SPS cannot configure anything.
    assert!(matches!(Decoder::new().decode(&[0, 0, 1, 0x65, 1]), Feed::Drop));
}

#[test]
fn keys_and_buttons_have_evdev_codes() {
    assert_eq!(evdev_button(0), Some(0x110));
    assert_eq!(evdev_button(1), Some(0x112));
    assert_eq!(evdev_button(2), Some(0x111));
    assert_eq!(evdev_button(3), None);
    assert_eq!(evdev_key("Escape"), Some(1));
    assert_eq!(evdev_key("KeyA"), Some(30));
    assert_eq!(evdev_key("Numpad7"), Some(71));
    assert_eq!(evdev_key("Digit7"), Some(8));
    assert_eq!(evdev_key("ContextMenu"), Some(127));
    assert_eq!(evdev_key("Fn"), None);
}

/// Every modifier's keys are keys that can be pressed.
#[test]
fn modifiers_are_mapped_keys() {
    for (modifier, keys) in [
        (Modifier::Shift, vec!["ShiftLeft", "ShiftRight"]),
        (Modifier::Control, vec!["ControlLeft", "ControlRight"]),
        (Modifier::Alt, vec!["AltLeft"]),
        (Modifier::AltGraph, vec!["AltRight"]),
        (Modifier::Meta, vec!["MetaLeft", "MetaRight"]),
    ] {
        let codes: Vec<u32> = keys.iter().map(|k| evdev_key(k).unwrap()).collect();
        assert_eq!(modifier.codes(), codes);
    }
    assert_eq!(Modifier::AltGraph.name(), "AltGraph");
}

/// A modifier whose own key was never seen is pressed first, and let go of when
/// the browser no longer reports it.
#[test]
fn modifiers_are_brought_into_agreement() {
    let mut keyboard = Keyboard::new();
    let mut shell = shell();
    let windows = Vec::new();
    let mut event = key("KeyA");
    event.states.shift = true;
    let effects = keyboard.key(&mut shell, &windows, &event, Press::Down);
    assert_eq!(sent(&effects), vec![key_message(42, Press::Down), key_message(30, Press::Down)]);
    let effects = keyboard.key(&mut shell, &windows, &key("KeyB"), Press::Down);
    assert_eq!(sent(&effects), vec![key_message(42, Press::Up), key_message(48, Press::Down)]);
    // The right-hand key that is held is the one released.
    let mut right = key("ControlRight");
    right.ctrl = true;
    right.states.control = true;
    keyboard.key(&mut shell, &windows, &right, Press::Down);
    assert_eq!(keyboard.held, vec![97]);
    let effects = keyboard.key(&mut shell, &windows, &key("KeyC"), Press::Down);
    assert_eq!(sent(&effects)[0], key_message(97, Press::Up));
    assert!(keyboard.held.is_empty());
}

/// `AltGr` reported as control and alt presses neither.
#[test]
fn alt_gr_is_not_a_control_chord() {
    let mut keyboard = Keyboard::new();
    keyboard.hold(100, Press::Down);
    let mut reported = states();
    reported.alt_graph = true;
    reported.control = true;
    reported.alt = true;
    assert!(keyboard.reconcile_modifiers(reported, 30).is_empty());
}

#[test]
fn a_page_that_leaves_lets_go() {
    let mut keyboard = Keyboard::new();
    keyboard.hold(29, Press::Down);
    keyboard.hold(56, Press::Down);
    keyboard.hold(30, Press::Down);
    let mut shell = shell();
    shell.alt_tab = Some(AltTabState { selected_index: 0, window_ids: vec![1] });
    let effects = keyboard.blur(&mut shell);
    assert_eq!(sent(&effects), vec![key_message(29, Press::Up), key_message(56, Press::Up)]);
    assert!(keyboard.held.is_empty());
    assert!(shell.alt_tab.is_none());
    let all: Vec<ClientMessage> =
        [42, 54, 29, 97, 56, 100, 125, 126].iter().map(|k| key_message(*k, Press::Up)).collect();
    assert_eq!(sent(&release_modifiers()), all);
}

/// Keys typed into the shell, or while the launcher is open, reach no client.
#[test]
fn the_shell_keeps_what_is_typed_into_it() {
    let mut keyboard = Keyboard::new();
    let mut shell = shell();
    let windows = Vec::new();
    let mut typed = key("KeyA");
    typed.target_tag = Some(text("input"));
    assert!(keyboard.key(&mut shell, &windows, &typed, Press::Down).is_empty());
    assert!(aimed_at_shell(&Some(text("TextArea"))));
    assert!(!aimed_at_shell(&Some(text("BUTTON"))));
    assert!(!aimed_at_shell(&None));
    shell.launcher_open = true;
    let effects = keyboard.key(&mut shell, &windows, &key("KeyA"), Press::Down);
    assert!(matches!(effects[..], [Effect::FocusSearch, Effect::PreventDefault]));
    let effects = keyboard.key(&mut shell, &windows, &key("Escape"), Press::Down);
    assert!(matches!(effects[..], [Effect::PreventDefault]));
    assert!(!shell.launcher_open);
    shell.alt_tab = Some(AltTabState { selected_index: 0, window_ids: vec![1] });
    keyboard.key(&mut shell, &windows, &key("Escape"), Press::Down);
    assert!(shell.alt_tab.is_none());
}

/// A paste chord's key waits for the text.
#[test]
fn a_paste_sends_its_text_first() {
    let mut keyboard = Keyboard::new();
    let mut shell = shell();
    let mut chord = key("KeyV");
    chord.ctrl = true;
    chord.states.control = true;
    assert!(is_paste(&chord));
    assert!(!is_paste(&key("KeyV")));
    let effects = keyboard.key(&mut shell, &Vec::new(), &chord, Press::Down);
    assert_eq!(sent(&effects), vec![key_message(29, Press::Down)]);
    assert!(matches!(effects[effects.len() - 1], Effect::ArmPaste));
    assert!(!effects.iter().any(|e| matches!(e, Effect::PreventDefault)));
    let effects = paste(Some(text("copied")), &mut keyboard.pending);
    assert_eq!(
        sent(&effects),
        vec![ClientMessage::Clipboard { text: text("copied") }, key_message(47, Press::Down)]
    );
    assert!(flush_deferred(&mut keyboard.pending).is_empty());
    let mut waiting = Some(PendingPaste { keycode: 110 });
    assert_eq!(sent(&flush_deferred(&mut waiting)), vec![key_message(110, Press::Down)]);
    assert!(waiting.is_none());
}

#[test]
fn the_same_clipboard_is_sent_once() {
    let mut synced = Synced::new();
    assert!(synced.returned(String::new()).is_empty());
    assert_eq!(
        sent(&synced.returned(text("a"))),
        vec![ClientMessage::Clipboard { text: text("a") }]
    );
    assert!(synced.returned(text("a")).is_empty());
    assert_eq!(sent(&synced.returned(text("b"))).len(), 1);
}

#[test]
fn a_client_s_text_is_not_handed_back() {
    let mut synced = Synced::new();
    synced.given("from a client");
    assert!(synced.returned(text("from a client")).is_empty());
    assert_eq!(
        sent(&synced.returned(text("from outside"))),
        vec![ClientMessage::Clipboard { text: text("from outside") }]
    );
    synced.given("newer");
    assert!(synced.returned(text("newer")).is_empty());
    assert_eq!(sent(&synced.returned(text("from outside"))).len(), 1);
}

#[test]
fn the_shell_claims_its_chords() {
    let mut event = key("Tab");
    assert!(!claims(&event));
    event.alt = true;
    assert!(claims(&event));
    event.ctrl = true;
    assert!(!claims(&event));
    let mut close = key("KeyW");
    close.alt = true;
    assert!(!claims(&close));
    close.shift = true;
    assert!(claims(&close));
    let mut fifth = key("Digit5");
    fifth.alt = true;
    assert!(!claims(&fifth));
}

/// The switcher lists from the top, starts below it, and wraps both ways.
#[test]
fn alt_tab_walks_the_stack() {
    let mut windows = vec![window(1, 5), window(2, 9), window(3, 7), window(4, 9)];
    windows[0].minimized = true;
    let mut shell = shell();
    alt_tab(&mut shell, &windows, false);
    {
        let state = shell.alt_tab.as_ref().unwrap();
        assert_eq!(state.window_ids, vec![2, 4, 3]);
        assert_eq!(state.selected_index, 1);
    }
    alt_tab(&mut shell, &windows, true);
    assert_eq!(shell.alt_tab.as_ref().unwrap().selected_index, 0);
    alt_tab(&mut shell, &windows, true);
    assert_eq!(shell.alt_tab.as_ref().unwrap().selected_index, 2);
    alt_tab(&mut shell, &windows, false);
    assert_eq!(shell.alt_tab.as_ref().unwrap().selected_index, 0);
    let effects = commit_alt_tab(&mut shell);
    assert!(matches!(effects[0], Effect::Raise(2)));
    assert_eq!(sent(&effects), vec![presented(2), focus(2)]);
    assert!(commit_alt_tab(&mut shell).is_empty());
    assert_eq!(sent(&present_and_focus(8)), vec![presented(8), focus(8)]);
}

/// One Alt+Tab, let go of at once, swaps the two topmost windows.
#[test]
fn letting_go_of_alt_commits() {
    let windows = vec![window(1, 1), window(2, 2)];
    let mut keyboard = Keyboard::new();
    let mut shell = shell();
    let mut tab = key("Tab");
    tab.alt = true;
    tab.states.alt = true;
    let effects = keyboard.key(&mut shell, &windows, &tab, Press::Down);
    assert!(sent(&effects).is_empty());
    let effects = keyboard.key(&mut shell, &windows, &key("AltLeft"), Press::Up);
    assert!(effects.iter().any(|e| matches!(e, Effect::Raise(1))));
    assert!(shell.alt_tab.is_none());
}

#[test]
fn a_workspace_seats_its_top_window() {
    let mut windows = vec![window(1, 1), window(2, 2), window(3, 3), window(4, 3)];
    windows[1].workspace = 2;
    windows[2].workspace = 2;
    windows[3].workspace = 2;
    let mut shell = shell();
    let effects = switch_workspace(&mut shell, &windows, 2);
    assert_eq!((shell.workspace, shell.focused), (2, Some(4)));
    assert!(matches!(&effects[0], Effect::Toast(said) if said == "Workspace 3"));
    assert_eq!(sent(&effects), vec![focus(4)]);
    let effects = switch_workspace(&mut shell, &windows, 1);
    assert_eq!(shell.focused, None);
    assert!(sent(&effects).is_empty());
    // Alt+1 goes back, and only its press does.
    let mut digit = key("Digit1");
    digit.alt = true;
    assert!(handle(&mut shell, &windows, &digit, Press::Up).is_empty());
    handle(&mut shell, &windows, &digit, Press::Down);
    assert_eq!((shell.workspace, shell.focused), (0, Some(1)));
    let mut close = key("F4");
    close.alt = true;
    assert_eq!(
        sent(&handle(&mut shell, &windows, &close, Press::Down)),
        vec![ClientMessage::CloseSurface { id: SurfaceId(1) }]
    );
    assert_eq!(WORKSPACES, 4);
    show_workspace(&mut shell, 3);
    assert_eq!((shell.workspace, shell.focused), (3, Some(1)));
    assert_eq!(workspace_number(3), "4");
    assert_eq!(clock(9, 5), "09:05");
    assert_eq!(clock(23, 59), "23:59");
}

fn frame(codec: Codec, damage: Vec<Rect>, payload: Vec<u8>) -> SurfaceFrame {
    SurfaceFrame { id: SurfaceId(1), codec, damage, payload }
}

fn created(width: u32, height: u32) -> ServerMessage {
    ServerMessage::SurfaceCreated(SurfaceCreated {
        id: SurfaceId(1),
        size: Size { width, height },
        content: Rect { x: 0, y: 0, width, height },
        parent: None,
        decorated: true,
    })
}

#[test]
fn a_canvas_paints_what_changed() {
    let mut renderer = SurfaceRenderer::new();
    assert!(matches!(renderer.handle(&created(2, 1)), Drawing::Resize(2, 1)));
    // Announced again at the same size, it is not cleared.
    assert!(matches!(renderer.handle(&created(2, 1)), Drawing::Nothing));
    let region = Rect { x: 1, y: 0, width: 1, height: 1 };
    let packed = deflate(&[1, 2, 3, 4]);
    let message = ServerMessage::SurfaceFrame(frame(Codec::Deflate, vec![region], packed));
    match renderer.handle(&message) {
        Drawing::Paint(picture) => {
            assert_eq!((picture.x, picture.y), (1, 0));
            assert_eq!(picture.pixels, vec![3, 2, 1, 4]);
        }
        other => panic!("a pixel was due, got {other:?}"),
    }
    let video = ServerMessage::SurfaceFrame(frame(Codec::H264, vec![region], vec![0; 8]));
    assert!(matches!(renderer.handle(&video), Drawing::Nothing));
    let broken = ServerMessage::SurfaceFrame(frame(Codec::Deflate, vec![region], vec![0xff; 3]));
    assert!(matches!(renderer.handle(&broken), Drawing::Nothing));
    // Too few pixels, no region, and an empty one paint nothing; too many are cut.
    assert!(paint(vec![0; 3], &vec![region]).is_none());
    assert!(paint(vec![0; 4], &Vec::new()).is_none());
    assert!(paint(vec![0; 4], &vec![Rect { x: 0, y: 0, width: 0, height: 1 }]).is_none());
    assert_eq!(paint(vec![0; 9], &vec![region]).unwrap().pixels.len(), 4);
}

#[test]
fn a_texture_takes_only_what_fits() {
    let target = Target { width: 2, height: 2 };
    assert!(needs_target(None, 2, 2));
    assert!(!needs_target(Some(target), 2, 2));
    assert!(!needs_target(Some(target), 0, 2));
    assert!(needs_target(Some(target), 2, 3));
    let inside = Rect { x: 1, y: 1, width: 1, height: 1 };
    assert_eq!(upload(target, vec![1, 2, 3, 4], &vec![inside]).unwrap().pixels, vec![1, 2, 3, 4]);
    let outside = Rect { x: 2, y: 1, width: 1, height: 1 };
    assert!(upload(target, vec![1, 2, 3, 4], &vec![outside]).is_none());
    let negative = Rect { x: -1, y: 1, width: 1, height: 1 };
    assert!(upload(target, vec![1, 2, 3, 4], &vec![negative]).is_none());
    assert_eq!(video_extent(target, 16, 1), Some((2, 1)));
    assert_eq!(video_extent(target, 0, 1), None);
}

/// A copy built from damage alone is the surface.
#[test]
fn a_mirror_rebuilds_the_surface() {
    let mut mirror = Mirror::new(Size { width: 2, height: 2 });
    let whole = Rect { x: 0, y: 0, width: 2, height: 2 };
    let first: Vec<u8> = (1..=16).collect();
    let sent = frame(Codec::Deflate, vec![whole], deflate(&first));
    assert_eq!(mirror.apply(&sent, false), Ok(None));
    assert_eq!(*mirror.pixels(), first);
    assert_eq!(
        mirror.apply(&sent, true),
        Ok(Some(text("reconstructed exactly from damage")))
    );
    let corner = Rect { x: 1, y: 1, width: 1, height: 1 };
    assert_eq!(
        mirror.apply(&frame(Codec::Raw, vec![corner], vec![9, 9, 9, 9]), false),
        Ok(None)
    );
    assert_eq!(mirror.pixels()[12..], [9, 9, 9, 9]);
    assert_eq!(
        mirror.apply(&sent, true),
        Ok(Some(text(
            "reconstruction differs in 4 of 16 bytes (expected while a client is drawing)"
        )))
    );
    assert_eq!(mirror.apply(&frame(Codec::H264, Vec::new(), vec![1]), true), Ok(None));
    assert_eq!(mirror.apply(&frame(Codec::Raw, vec![corner, corner], vec![0; 4]), false), Err(()));
    assert_eq!(mirror.apply(&frame(Codec::Raw, vec![corner], vec![0; 5]), false), Err(()));
    let beyond = Rect { x: 2, y: 1, width: 1, height: 1 };
    assert_eq!(mirror.apply(&frame(Codec::Raw, vec![beyond], vec![0; 4]), false), Err(()));
    assert_eq!(mirror.apply(&frame(Codec::Deflate, vec![corner], vec![0xff; 3]), false), Err(()));
    assert_eq!(*mirror.pixels(), first);
}

fn application(id: u32, name: &str) -> Application {
    Application { id, name: text(name), app_id: text(name), icon: None }
}

#[test]
fn the_launcher_finds_by_any_part_of_a_name() {
    let apps = vec![application(0, "Firefox"), application(1, "Files"), application(2, "ÉDITEUR")];
    let names = |filter: &str| {
        matching(&apps, filter).iter().map(|a| a.id).collect::<Vec<u32>>()
    };
    assert_eq!(names(""), vec![0, 1, 2]);
    assert_eq!(names("FI"), vec![0, 1]);
    assert_eq!(names("fox"), vec![0]);
    assert_eq!(names("édit"), vec![2]);
    assert!(names("zzz").is_empty());
    assert_eq!(places(&vec![text("ab"), text("c")], "b"), vec![0]);
    let many: Vec<Application> = (0..50).map(|i| application(i, "same")).collect();
    assert_eq!(matching(&many, "").len(), SHOWN);
}

#[test]
fn the_launcher_is_walked_with_the_arrows() {
    let apps = vec![application(5, "Firefox"), application(6, "Files")];
    let mut search = Search::new();
    let mut shell = shell();
    shell.launcher_open = true;
    search.typed(text("fi"));
    search.navigate(&mut shell, &apps, "ArrowDown");
    assert_eq!(search.selected, 1);
    // It stops at the end, and at the start.
    search.navigate(&mut shell, &apps, "ArrowDown");
    assert_eq!(search.selected, 1);
    search.navigate(&mut shell, &apps, "ArrowUp");
    search.navigate(&mut shell, &apps, "ArrowUp");
    assert_eq!(search.selected, 0);
    assert!(search.navigate(&mut shell, &apps, "x").is_empty());
    search.navigate(&mut shell, &apps, "ArrowDown");
    let effects = search.navigate(&mut shell, &apps, "Enter");
    assert!(matches!(&effects[0], Effect::Toast(said) if said == "Starting Files"));
    assert_eq!(sent(&effects), vec![ClientMessage::Launch { id: 6 }]);
    assert!(!shell.launcher_open);
    assert_eq!((search.filter.as_str(), search.selected), ("", 0));
    shell.launcher_open = true;
    search.navigate(&mut shell, &apps, "Escape");
    assert!(!shell.launcher_open);
    search.typed(text("zzz"));
    assert!(search.navigate(&mut shell, &apps, "ArrowDown").is_empty());
    assert!(sent(&search.navigate(&mut shell, &apps, "Enter")).is_empty());
    let effects = search.launch(&mut shell, &apps, 77);
    assert!(matches!(&effects[0], Effect::Toast(said) if said == "Starting Application"));
}

#[test]
fn a_task_button_toggles_its_window() {
    let mut windows = vec![window(1, 1), window(2, 2), window(3, 3)];
    windows[2].workspace = 1;
    let mut shell = shell();
    shell.focused = Some(2);
    shell.launcher_open = true;
    let effects = click(&mut shell, &windows, 2);
    assert!(matches!(effects[0], Effect::SetMinimized(2, true)));
    assert_eq!(sent(&effects), vec![focus(1)]);
    assert_eq!(shell.focused, Some(1));
    assert!(!shell.launcher_open);
    windows[1].minimized = true;
    let effects = click(&mut shell, &windows, 2);
    assert!(matches!(effects[..2], [Effect::SetMinimized(2, false), Effect::Raise(2)]));
    assert_eq!(sent(&effects), vec![presented(2), focus(2)]);
    assert_eq!(next_below(&windows, 0, 1), None);
    assert_eq!(tasks(&windows, 0), vec![0, 1]);
}

#[test]
fn a_tray_icon_is_a_toggle() {
    let id = text(":1.4");
    assert_eq!(
        sent(&press(&None, &id, 0)),
        vec![ClientMessage::TrayActivate { id: id.clone(), secondary: false }]
    );
    assert_eq!(
        sent(&press(&None, &id, 1)),
        vec![ClientMessage::TrayActivate { id: id.clone(), secondary: true }]
    );
    assert_eq!(
        sent(&press(&Some(text("other")), &id, 2)),
        vec![ClientMessage::TrayMenuOpen { id: id.clone() }]
    );
    assert!(sent(&press(&Some(id.clone()), &id, 2)).is_empty());
    let mut row = TrayMenuItem {
        id: 3,
        label: text("Wi-Fi"),
        enabled: true,
        checked: Some(true),
        separator: false,
        children: Vec::new(),
    };
    assert_eq!(
        sent(&pick(&id, &row)),
        vec![ClientMessage::TrayMenuClick { id: id.clone(), item: 3 }]
    );
    assert!(ticked(&row));
    assert_eq!(row_kind(&row), RowKind::Button);
    row.enabled = false;
    assert!(pick(&id, &row).is_empty());
    row.children.push(row.clone());
    assert_eq!(row_kind(&row), RowKind::Submenu);
    row.separator = true;
    assert_eq!(row_kind(&row), RowKind::Separator);
    assert_eq!(initial("network"), "N");
    assert_eq!(initial("ßx"), "SS");
    assert_eq!(initial(""), "?");
}

#[test]
fn the_socket_is_on_the_page_s_origin() {
    let from = |protocol: Option<&str>, host: Option<&str>| {
        backend(&Some(Location { protocol: protocol.map(text), host: host.map(text) }))
    };
    assert_eq!(backend(&None), "ws://127.0.0.1:9001/ws");
    assert_eq!(from(Some("https:"), Some("desk.example")), "wss://desk.example/ws");
    assert_eq!(from(Some("http:"), Some("10.0.0.2:3030")), "ws://10.0.0.2:3030/ws");
    assert_eq!(from(None, None), "ws://127.0.0.1:3030/ws");
}

#[test]
fn a_page_says_its_size_first() {
    let size = Size { width: 800, height: 500 };
    let messages = sent(&opened(Some(size)));
    assert_eq!(messages[0], ClientMessage::Resize { size });
    assert_eq!(messages[1], ClientMessage::RequestKeyframe);
    assert_eq!(messages.len(), 10);
    assert_eq!(sent(&opened(None))[0], ClientMessage::RequestKeyframe);
}

/// A hidden surface is acked twice a second at most; a visible one always.
#[test]
fn hidden_surfaces_are_acked_slowly() {
    let mut acks = HiddenAcks::new();
    assert!(!acks.presented(1, false, HIDDEN_INTERVAL - 1));
    assert!(acks.presented(1, false, HIDDEN_INTERVAL));
    assert!(!acks.presented(1, false, 2 * HIDDEN_INTERVAL - 1));
    assert!(acks.presented(2, false, HIDDEN_INTERVAL));
    assert!(acks.presented(1, true, HIDDEN_INTERVAL + 1));
    assert!(acks.presented(1, false, HIDDEN_INTERVAL + 1));
}

#[test]
fn a_new_window_takes_the_seat() {
    match incoming(created(1, 1)) {
        Incoming::Scene(_, effects, is_frame) => {
            assert_eq!(sent(&effects), vec![focus(1)]);
            assert!(!is_frame);
        }
        other => panic!("the scene gets it, not {other:?}"),
    }
    let mut menu = created(1, 1);
    if let ServerMessage::SurfaceCreated(surface) = &mut menu {
        surface.parent = Some(Anchor { parent: SurfaceId(9), x: 0, y: 0 });
    }
    assert!(matches!(incoming(menu), Incoming::Scene(_, effects, false) if effects.is_empty()));
    let message = ServerMessage::SurfaceFrame(frame(Codec::Raw, Vec::new(), Vec::new()));
    assert!(matches!(incoming(message), Incoming::Scene(_, _, true)));
    let sound = ServerMessage::Audio { payload: vec![7] };
    assert!(matches!(incoming(sound), Incoming::Play(chunk) if chunk == vec![7]));
}

#[test]
fn traffic_is_counted_each_way() {
    let mut traffic = Traffic::default();
    traffic.count_sent(10);
    traffic.count_received(300);
    traffic.count_sent(5);
    assert_eq!(traffic.totals(), (300, 15));
    assert_eq!(since((300, 15), (100, 15)), (200, 0));
    assert_eq!(since((1, 1), (2, 0)), (0, 1));
}

#[test]
fn elements_say_what_they_are() {
    assert_eq!(element_id(&Some(text("18446744073709551615"))), Some(u64::MAX));
    assert_eq!(element_id(&Some(text("x"))), None);
    assert_eq!(element_id(&None), None);
    assert_eq!(element_workspace(&Some(text("3"))), Some(3));
    assert_eq!(resize_direction("resize-handle resize-top-left"), Some(ResizeDirection::TopLeft));
    assert_eq!(resize_direction("resize-handle resize-top"), Some(ResizeDirection::Top));
    assert_eq!(resize_direction("button"), None);
    assert_eq!(clicked_element(&vec![false, true, true]), Some(1));
    assert_eq!(clicked_element(&vec![false]), None);
    let element = |tag: &str| Element {
        tag: text(tag),
        resize_class: None,
        interactive: false,
        titlebar: false,
        surface: false,
    };
    assert_eq!(element_cursor_icon(&element("canvas"), "text"), "text");
    assert_eq!(element_cursor_icon(&element("canvas"), "zoom-in"), "default");
    assert_eq!(element_cursor_icon(&element("div"), "text"), "default");
    let mut handle = element("div");
    handle.resize_class = Some(text("resize-handle resize-bottom-right"));
    assert_eq!(element_cursor_icon(&handle, ""), "nwse-resize");
    assert_eq!(cursor_for(ResizeDirection::BottomRight), "nwse-resize");
    let mut button = element("div");
    button.interactive = true;
    button.titlebar = true;
    assert_eq!(element_cursor_icon(&button, ""), "pointer");
    button.interactive = false;
    assert_eq!(element_cursor_icon(&button, ""), "grab");
}

#[test]
fn the_pointer_names_its_surface() {
    let place = Point { x: 1.0f64.to_bits(), y: 2.0f64.to_bits() };
    assert_eq!(
        sent(&hover(Some(4), Some(place))),
        vec![ClientMessage::Input(InputEvent::PointerMotion { id: SurfaceId(4), position: place })]
    );
    assert!(hover(Some(4), None).is_empty());
    assert!(hover(None, Some(place)).is_empty());
    let effects = forward_button(2, Press::Down);
    assert!(matches!(effects[0], Effect::InputSent));
    assert_eq!(
        sent(&effects),
        vec![ClientMessage::Input(InputEvent::PointerButton {
            button: 0x111,
            state: Press::Down,
        })]
    );
    assert!(forward_button(7, Press::Up).is_empty());
    let mut windows = vec![window(1, 1)];
    assert_eq!(route_button(false, &windows, true), ButtonRoute::Client);
    assert_eq!(route_button(false, &windows, false), ButtonRoute::Page);
    assert_eq!(route_button(true, &windows, true), ButtonRoute::Shell);
    assert!(cursor_drawn(true, &windows));
    windows[0].pointer_locked = true;
    assert_eq!(route_button(true, &windows, false), ButtonRoute::Client);
    assert!(!cursor_drawn(true, &windows));
    assert!(!cursor_drawn(false, &Vec::new()));
    assert_eq!(
        sent(&scroll(Some(4), 0, 5)),
        vec![ClientMessage::Input(InputEvent::PointerScroll { id: SurfaceId(4), dx: 0, dy: 5 })]
    );
    assert!(scroll(None, 0, 5).is_empty());
    assert_eq!((wheel_scale(0), wheel_scale(1), wheel_scale(2)), (1, 16, 400));
}

fn hit() -> Hit {
    Hit {
        canvas: false,
        surface: None,
        window: None,
        titlebar: false,
        resize_class: None,
        button_class: None,
        in_menu: false,
        action: None,
        menu_workspace: None,
    }
}

#[test]
fn locked_motion_follows_the_gesture() {
    let mut windows = vec![window(1, 1)];
    let place = Some(Point { x: 0, y: 0 });
    let mut canvas = hit();
    canvas.canvas = true;
    canvas.surface = Some(1);
    let under = Some(canvas);
    let effects = locked::motion(&windows, Gesture::Nothing, (1, 2), &under, place);
    assert!(matches!(effects[0], Effect::CursorFromElement));
    assert_eq!(sent(&effects).len(), 1);
    let resizing = Gesture::Resizing(ResizeDirection::Left);
    let effects = locked::motion(&windows, resizing, (1, 2), &under, place);
    assert!(matches!(&effects[..], [Effect::UpdateResize, Effect::CursorIcon(n)] if n == "ew-resize"));
    let effects = locked::motion(&windows, Gesture::Dragging, (1, 2), &under, place);
    assert!(matches!(&effects[..], [Effect::UpdateDrag, Effect::CursorIcon(n)] if n == "grabbing"));
    windows[0].pointer_locked = true;
    assert_eq!(
        sent(&locked::motion(&windows, resizing, (1, 2), &under, place)),
        vec![ClientMessage::Input(InputEvent::PointerMotionRelative { dx: 1, dy: 2 })]
    );
    assert!(locked::motion(&Vec::new(), Gesture::Nothing, (1, 2), &None, place).is_empty());
}

/// A click is a press and a release.
#[test]
fn a_release_without_a_press_clicks_nothing() {
    let under = Some(hit());
    let mut last = None;
    let mut pressed = false;
    let effects = locked::release(Gesture::Nothing, &under, 0, &mut pressed, true);
    assert!(!effects.iter().any(|e| matches!(e, Effect::Click)));
    let effects = locked::press(None, &under, 0, &mut last, false, &mut pressed);
    assert!(matches!(effects[..], [Effect::DispatchDown]));
    assert!(pressed);
    let effects = locked::release(Gesture::Nothing, &under, 0, &mut pressed, true);
    assert!(matches!(
        effects[..],
        [Effect::DispatchUp, Effect::Click, Effect::CursorFromElement]
    ));
    assert!(!pressed);
    let effects = locked::release(Gesture::Dragging, &under, 0, &mut pressed, true);
    assert!(matches!(effects[0], Effect::FinishDrag));
    let resizing = Gesture::Resizing(ResizeDirection::Top);
    let effects = locked::release(resizing, &None, 0, &mut pressed, true);
    assert!(matches!(effects[0], Effect::FinishResize));
}

#[test]
fn a_press_on_chrome_is_the_shell_s() {
    let mut last = None;
    let mut pressed = true;
    let mut bar = hit();
    bar.window = Some(5);
    bar.titlebar = true;
    let under = Some(bar);
    let effects = locked::press(None, &under, 0, &mut last, true, &mut pressed);
    assert!(effects.iter().any(|e| matches!(e, Effect::StartDrag(5))));
    assert!(!pressed);
    assert_eq!(last, Some(ClickState { window_id: Some(5), is_titlebar: true }));
    let effects = locked::press(None, &under, 0, &mut last, true, &mut pressed);
    assert!(effects.iter().any(|e| matches!(e, Effect::ToggleMaximize(5))));
    assert_eq!(last, None);
    let effects = locked::press(None, &under, 2, &mut last, true, &mut pressed);
    assert!(effects.iter().any(|e| matches!(e, Effect::OpenTitlebarMenu(5))));
    let mut close = hit();
    close.window = Some(5);
    close.titlebar = true;
    close.button_class = Some(text("close"));
    let effects = locked::press(None, &Some(close), 0, &mut last, true, &mut pressed);
    assert_eq!(sent(&effects), vec![focus(5), ClientMessage::CloseSurface { id: SurfaceId(5) }]);
    let mut edge = hit();
    edge.window = Some(5);
    edge.resize_class = Some(text("resize-handle resize-right"));
    let effects = locked::press(None, &Some(edge), 0, &mut last, true, &mut pressed);
    assert!(effects
        .iter()
        .any(|e| matches!(e, Effect::StartResize(5, ResizeDirection::Right))));
    let mut canvas = hit();
    canvas.canvas = true;
    canvas.surface = Some(6);
    let effects = locked::press(None, &Some(canvas), 0, &mut last, true, &mut pressed);
    assert!(matches!(effects[0], Effect::Raise(6)));
    assert_eq!(sent(&effects).len(), 2);
}

#[test]
fn an_open_menu_takes_the_press() {
    let mut last = None;
    let mut pressed = false;
    let mut item = hit();
    item.in_menu = true;
    item.action = Some(text("minimize"));
    let effects = locked::press(Some(8), &Some(item), 0, &mut last, false, &mut pressed);
    assert!(matches!(effects[..], [Effect::SetMinimized(8, true), Effect::CloseTitlebarMenu]));
    let mut workspace = hit();
    workspace.in_menu = true;
    workspace.menu_workspace = Some(text("2"));
    let effects = locked::press(Some(8), &Some(workspace), 0, &mut last, false, &mut pressed);
    assert!(matches!(effects[..], [Effect::SendToWorkspace(8, 2), Effect::CloseTitlebarMenu]));
    // Anywhere else the menu closes and the press is swallowed all the same.
    let effects = locked::press(Some(8), &Some(hit()), 0, &mut last, false, &mut pressed);
    assert!(matches!(effects[..], [Effect::CloseTitlebarMenu]));
    let mut canvas = hit();
    canvas.canvas = true;
    canvas.surface = Some(6);
    let effects = locked::press(Some(8), &Some(canvas), 0, &mut last, false, &mut pressed);
    assert!(matches!(effects[..], [Effect::CloseTitlebarMenu]));
    assert!(!pressed);
}

#[test]
fn a_client_s_titlebar_asks_for_gestures() {
    let mut pending = Some((4, WindowRequest::Move));
    assert!(take_request(5, &mut pending).is_empty());
    let effects = take_request(4, &mut pending);
    assert!(matches!(effects[..], [Effect::Raise(4), Effect::Follow(4)]));
    assert!(pending.is_none());
    let mut pending = Some((4, WindowRequest::Unmaximize));
    assert!(matches!(take_request(4, &mut pending)[..], [Effect::SetMaximized(4, false)]));
    let mut drag = ClientDrag::new();
    assert!(drag.moved(None, true, false).is_empty());
    let effects = drag.moved(Some(4), true, false);
    assert!(matches!(effects[..], [Effect::StartDrag(4), Effect::UpdateDrag]));
    assert!(matches!(drag.moved(Some(4), true, true)[..], [Effect::UpdateDrag]));
    let mut dragging = Some(4);
    assert!(matches!(drag.dropped(&mut dragging, true)[..], [Effect::FinishDrag]));
    assert!(dragging.is_none());
    assert!(drag.dropped(&mut dragging, true).is_empty());
}

#[test]
fn a_press_on_a_surface_focuses_it() {
    let mut windows = vec![window(3, 1)];
    assert_eq!(sent(&press_surface(&windows, 3, false)), vec![focus(3)]);
    assert!(matches!(
        press_surface(&windows, 3, true)[..],
        [Effect::Raise(3), Effect::Follow(3)]
    ));
    windows[0].pointer_locked = true;
    let effects = press_surface(&windows, 3, false);
    assert!(matches!(effects[2], Effect::RequestPointerLock));
}

#[test]
fn every_start_code_begins_a_unit() {
    let stream = [0, 0, 0, 1, 0x67, 9, 0, 0, 1, 0x65, 0, 0, 1];
    // The last start code has nothing behind it.
    assert_eq!(nal_units(&stream), vec![4, 9]);
    assert!(is_keyframe(&stream));
    assert!(nal_units(&[0, 0, 1]).is_empty());
}

#[test]
fn arranging_windows_sends_nothing() {
    assert!(sent(&press_titlebar(3, TitlebarButton::Minimize)).is_empty());
    assert!(sent(&choose_item(3, MenuItem::Minimize)).is_empty());
    assert!(sent(&choose_item(3, MenuItem::Workspace(1))).is_empty());
    let mut pending = Some((3, WindowRequest::Minimize));
    assert!(sent(&take_request(3, &mut pending)).is_empty());
    assert!(sent(&show_workspace(&mut shell(), 2)).is_empty());
}

#[test]
fn titlebars_and_menus_act_on_their_window() {
    let effects = press_titlebar(3, TitlebarButton::Close);
    assert!(matches!(effects[0], Effect::StopPropagation));
    assert_eq!(sent(&effects), vec![ClientMessage::CloseSurface { id: SurfaceId(3) }]);
    let effects = choose_item(3, MenuItem::Workspace(2));
    assert!(matches!(
        effects[..],
        [Effect::StopPropagation, Effect::CloseTitlebarMenu, Effect::SendToWorkspace(3, 2)]
    ));
    let items = menu_items();
    assert_eq!(items.len(), 7);
    assert_eq!(items[5], MenuItem::Workspace(3));
    assert_eq!(items[6], MenuItem::Close);
}

/// A menu lies above the window it hangs from, and hides with it.
#[test]
fn a_menu_follows_its_window() {
    let mut windows = vec![window(1, 4), window(2, 1)];
    windows[1].parent = Some(Anchor { parent: SurfaceId(1), x: 10, y: 20 });
    windows[1].decorated = false;
    let place = placement(&windows, 2, 0).unwrap();
    assert_eq!((place.base, place.x, place.y, place.z), (1, 10, 20, 5));
    assert!(!place.hidden);
    windows[0].minimized = true;
    assert!(placement(&windows, 2, 0).unwrap().hidden);
    assert!(placement(&windows, 1, 0).unwrap().hidden);
    assert!(placement(&windows, 9, 0).is_none());
    let drawn = classes(&windows, 2, Some(2));
    assert!(drawn.active && drawn.bare && drawn.popup);
    windows[0].snap = Some(SnapZone::Maximize);
    let drawn = classes(&windows, 1, None);
    assert!(drawn.maximized && drawn.snapped && !drawn.active);
    assert!(!classes(&windows, 9, None).bare);
    assert_eq!(preview_class(SnapZone::Left), "snap-preview left");
}

#[test]
fn the_switcher_names_open_windows() {
    let windows = vec![window(1, 1), window(2, 2)];
    assert_eq!(
        switcher_items(&windows, &vec![2, 9, 1]),
        vec![(2, text("window 2")), (1, text("window 1"))]
    );
    let mut shell = shell();
    shell.alt_tab = Some(AltTabState { selected_index: 0, window_ids: vec![1] });
    let effects = pick_window(&mut shell, 1);
    assert!(shell.alt_tab.is_none());
    assert_eq!(sent(&effects), vec![presented(1), focus(1)]);
}

#[test]
fn a_workspace_wakes_its_windows() {
    let mut windows = vec![window(1, 1), window(2, 2), window(3, 3)];
    windows[1].minimized = true;
    assert_eq!(sent(&wake(&windows, 0)), vec![presented(1), presented(3)]);
    assert!(wake(&windows, 1).is_empty());
}

#[test]
fn a_toast_is_dismissed_by_its_id() {
    let toast = |id| Toast { id, title: text("t"), message: None };
    let left = dismiss(vec![toast(1), toast(2), toast(3)], 2);
    assert_eq!(left.iter().map(|t| t.id).collect::<Vec<_>>(), vec![1, 3]);
}

#[test]
fn a_wallpaper_is_a_background() {
    assert_eq!(wallpaper_style(&None), "");
    assert_eq!(
        wallpaper_style(&Some(text("data:x"))),
        "background-image: url(data:x); background-size: cover; \
         background-position: center; background-repeat: no-repeat;"
    );
}

/// Chunks are appended in order, one at a time.
#[test]
fn sound_is_appended_in_order() {
    let mut player = Player::new();
    player.push(vec![1]);
    player.push(vec![2]);
    assert_eq!(player.append_next(false, false), None);
    assert_eq!(player.append_next(true, true), None);
    assert_eq!(player.append_next(true, false), Some(vec![1]));
    assert_eq!(player.append_next(true, false), Some(vec![2]));
    assert_eq!(player.append_next(true, false), None);
}

#[test]
fn latency_is_summed_up() {
    let mut latency = Latency::new();
    assert_eq!(latency.summary(), None);
    latency.input_sent(Some(10.0f64.to_bits()));
    latency.input_sent(Some(11.0f64.to_bits()));
    assert_eq!(latency.frame_drawn(), Some(10.0f64.to_bits()));
    assert_eq!(latency.frame_drawn(), None);
    for ms in [30.0f64, 10.0, 20.0] {
        assert_eq!(latency.record(ms.to_bits()), Some(ms.to_bits()));
    }
    assert_eq!(latency.record((-1.0f64).to_bits()), None);
    assert_eq!(latency.record(10_000.0f64.to_bits()), None);
    assert_eq!(latency.record((-0.1f64).to_bits()), None);
    assert_eq!(latency.record(f64::NAN.to_bits()), None);
    assert_eq!(latency.summary(), Some((20.0f64.to_bits(), 30.0f64.to_bits(), 3)));
    for _ in 0..100 {
        latency.record(5.0f64.to_bits());
    }
    assert_eq!(latency.samples.len(), WINDOW);
    let mut zeros = Latency::new();
    // A zero is no less a zero for its sign, and the one with it sorts first.
    for ms in [0.0f64, -0.0, 2.0] {
        assert_eq!(zeros.record(ms.to_bits()), Some(ms.to_bits()));
    }
    assert_eq!(zeros.summary(), Some((0.0f64.to_bits(), 2.0f64.to_bits(), 3)));
    assert_eq!(latency.summary(), Some((5.0f64.to_bits(), 5.0f64.to_bits(), WINDOW)));
}

#[test]
fn the_lock_is_what_the_browser_says() {
    assert_eq!(
        lock_changed(true),
        vec![
            Step::SetCaptured(true),
            Step::MarkBody(true),
            Step::LockKeyboard,
            Step::CenterCursor,
        ]
    );
    assert!(lock_refused().contains(&Step::Tell(Notice::Denied)));
    assert_eq!(capture::toggle(false, true), vec![Step::RequestLock, Step::Tell(Notice::Locked)]);
    assert_eq!(capture::toggle(false, false)[0], Step::CenterCursor);
    assert_eq!(capture::toggle(true, true).len(), capture::release().len() + 1);
    assert_eq!(capture::toggle_fullscreen(true)[0], Step::ExitFullscreen);
    assert_eq!(Notice::Locked.title(), "Cursor Locked");
    assert_eq!(Notice::Locked.message(), Some("Press ESC anytime to release"));
    assert_eq!(Notice::Released.message(), None);
}
