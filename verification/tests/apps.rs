use webland::apps::base64::base64;
use webland::apps::entry::{read_entry, Entry};
use webland::apps::icons::{
    icon_data_url, icon_path, icon_places, icon_roots, icon_sizes,
};
use webland::apps::listing::{
    arrange, arrange_by, dirs, overrides_path, sources, Applications, Keyed,
};
use webland::apps::overrides::{parse_overrides, read_line, Overrides};
use webland::apps::paths::{file_name, file_stem, is_of_type, is_path_first, is_same_path};
use webland::apps::words::{expand_home, strip_field_codes};

fn text(value: &str) -> String {
    String::from(value)
}

fn no_sizes() -> Vec<Vec<u32>> {
    vec![Vec::new(), Vec::new(), Vec::new()]
}

fn entry(name: &str, command: &str, app_id: &str) -> Entry {
    Entry { name: text(name), command: text(command), icon: None, app_id: text(app_id) }
}

/// What a refresh rests on: an application going away is visible from what the
/// directory holds, without opening anything in it.
#[test]
fn removing_an_entry_changes_what_a_directory_holds() {
    let before = sources(&vec![text("/a/notes.txt"), text("/a/gone.desktop")]);
    assert_eq!(before, vec![text("/a/gone.desktop")]);
    assert!(sources(&vec![text("/a/notes.txt")]).is_empty());
    assert!(sources(&Vec::new()).is_empty());
}

#[test]
fn field_codes_are_dropped_but_arguments_are_not() {
    assert_eq!(strip_field_codes("firefox %u"), "firefox");
    assert_eq!(strip_field_codes("kitty -e fish %F"), "kitty -e fish");
    // A percent that is not a field code is just an argument.
    assert_eq!(strip_field_codes("app --pct 50%"), "app --pct 50%");
}

#[test]
fn base64_pads_every_remainder() {
    assert_eq!(base64(b""), "");
    assert_eq!(base64(b"f"), "Zg==");
    assert_eq!(base64(b"fo"), "Zm8=");
    assert_eq!(base64(b"foo"), "Zm9v");
    assert_eq!(base64(b"foobar"), "Zm9vYmFy");
    // All 64 symbols, and the high bit set.
    assert_eq!(base64(&[0xff, 0xef, 0xbe]), "/+++");
}

#[test]
fn overrides_split_on_the_first_equals_and_expand_home() {
    let parsed = parse_overrides(
        "# a note\n\n             Firefox = firefox --no-remote --profile ~/.webland/ff\n             Chromium = chromium --user-data-dir=~/w\n",
        "/home/u",
    );
    assert_eq!(
        parsed.get("firefox").map(String::as_str),
        Some("firefox --no-remote --profile /home/u/.webland/ff")
    );
    // Only the first `=` separates; the one in the flag is the command's.
    assert_eq!(
        parsed.get("chromium").map(String::as_str),
        Some("chromium --user-data-dir=/home/u/w")
    );
    assert_eq!(parsed.len(), 2);
    // A `~` that is not a home directory is left alone.
    assert_eq!(
        parse_overrides("A = x ~backup file~", "/home/u").get("a").map(String::as_str),
        Some("x ~backup file~")
    );
}

#[test]
fn icon_path_refuses_to_climb_out_of_the_icon_directories() {
    let absent = |_: &String| false;
    assert_eq!(icon_path("../../../etc/passwd", "/home/u", &no_sizes(), absent), None);
    assert_eq!(icon_path("", "/home/u", &no_sizes(), absent), None);
    // An absolute path is allowed, but only if it is really there.
    assert_eq!(icon_path("/nonexistent/icon.png", "/home/u", &no_sizes(), absent), None);
}

/// Whatever is there, a name that climbs is looked for nowhere.
#[test]
fn a_climbing_icon_is_looked_for_nowhere() {
    let present = |_: &String| true;
    assert_eq!(icon_path("../../../etc/passwd", "/home/u", &no_sizes(), present), None);
    assert_eq!(
        icon_path("/opt/app/icon.png", "/home/u", &no_sizes(), present),
        Some(text("/opt/app/icon.png"))
    );
    assert!(icon_places("../x", "/home/u", &no_sizes()).is_empty());
}

#[test]
fn the_first_place_that_holds_an_icon_is_taken() {
    let places = icon_places("kitty", "/home/u", &no_sizes());
    assert!(!places.is_empty());
    let last = places[places.len() - 1].clone();
    let found = icon_path("kitty", "/home/u", &no_sizes(), |place: &String| *place == last);
    assert_eq!(found, Some(last.clone()));
    let first = icon_path("kitty", "/home/u", &no_sizes(), |_: &String| true);
    assert_eq!(first, Some(places[0].clone()));
}

#[test]
fn icon_directories_are_known() {
    assert_eq!(
        icon_roots("/home/u"),
        vec![
            text("/home/u/.local/share/icons"),
            text("/home/u/.icons"),
            text("/usr/share/icons"),
        ]
    );
    assert_eq!(
        dirs("/home/u"),
        vec![text("/home/u/.local/share/applications"), text("/usr/share/applications")]
    );
    assert_eq!(
        overrides_path("/home/u", &None),
        "/home/u/.config/webland/launch.conf"
    );
    assert_eq!(
        overrides_path("/home/u", &Some(text("/cfg"))),
        "/cfg/webland/launch.conf"
    );
}

/// Sizes are tried from the smallest up; what would be blurred is not tried.
#[test]
fn icon_sizes_are_read_off_the_directories() {
    let names = vec![text("256x256"), text("scalable"), text("16x16"), text("48x48")];
    assert_eq!(icon_sizes(&names), vec![48, 256]);
    assert!(icon_sizes(&Vec::new()).is_empty());
}

#[test]
fn an_icon_becomes_a_data_url() {
    assert_eq!(
        icon_data_url("/a/icon.png", b"foo"),
        Some(text("data:image/png;base64,Zm9v"))
    );
    assert_eq!(
        icon_data_url("/a/icon.svg", b"foo"),
        Some(text("data:image/svg+xml;base64,Zm9v"))
    );
    assert_eq!(icon_data_url("/a/icon.png", b""), None);
    assert!(is_of_type("/a/icon.svg", "svg"));
    assert_eq!(file_stem("/usr/share/applications/org.gnome.Maps.desktop"), "org.gnome.Maps");
    assert_eq!(file_stem("a.b/plain"), "plain");
    assert_eq!(file_stem("/a/.hidden"), ".hidden");
    assert_eq!(file_stem("/a/.."), "");
    assert_eq!(file_name("/a/b//"), Some(text("b")));
    assert!(is_of_type("/a/icon.svg/.", "svg"));
    assert!(!is_of_type("/a/.svg", "svg"));
    assert!(!is_of_type("/a/b.tar.gz", "tar.gz"));
    assert!(!is_of_type("/a/icon.png", "svg"));
}

#[test]
fn an_entry_is_read_from_its_own_section() {
    let found = read_entry(
        text("kitty"),
        "[Desktop Entry]\nType=Application\nName=kitty\nExec=kitty %F\nIcon=kitty\n\
         [Desktop Action new]\nName=New\nExec=kitty --new\n",
    )
    .unwrap();
    assert_eq!(found.name, "kitty");
    assert_eq!(found.command, "kitty");
    assert_eq!(found.icon, Some(text("kitty")));
    assert_eq!(found.app_id, "kitty");
    assert!(read_entry(text("x"), "[Desktop Entry]\nName=x\n").is_none());
    assert!(read_entry(text("x"), "[Desktop Entry]\nName=x\nExec=x\nNoDisplay=true\n").is_none());
}

#[test]
fn the_listing_is_in_order_and_without_repeats() {
    let arranged = arrange(vec![
        entry("zathura", "zathura", "zathura"),
        entry("Alacritty", "alacritty", "alacritty"),
        entry("zathura", "zathura --other", "zathura2"),
    ]);
    let names: Vec<&str> = arranged.iter().map(|e| e.name.as_str()).collect();
    assert_eq!(names, vec!["Alacritty", "zathura"]);
}

/// A listed id starts its own command; any other starts nothing.
#[test]
fn only_listed_ids_start_anything() {
    let files = parse_overrides("Files = nautilus \"~/My Files\"", "/home/u");
    let apps = Applications::build(
        vec![
            entry("kitty", "kitty -e 'my shell'", "kitty"),
            entry("Files", "nautilus", "org.gnome.Nautilus"),
        ],
        vec![None, None],
        &files,
        vec![text("/a/kitty.desktop")],
    );
    let listing = apps.listing();
    assert_eq!(listing.len(), 2);
    let kitty = listing.iter().find(|a| a.name == "kitty").unwrap();
    let start = apps.launch(kitty.id).unwrap();
    assert_eq!(start.program, "kitty");
    // An entry's own command is split at white space, and nowhere else.
    assert_eq!(start.args, vec![text("-e"), text("'my"), text("shell'")]);
    let files = listing.iter().find(|a| a.name == "Files").unwrap();
    let start = apps.launch(files.id).unwrap();
    // An override is split as a shell splits it.
    assert_eq!(start.program, "nautilus");
    assert_eq!(start.args, vec![text("/home/u/My Files")]);
    assert!(apps.launch(99).is_none());
    assert_eq!(kitty.app_id, "kitty");
}

/// An override names an application by any part of its name, or by its file's.
#[test]
fn an_override_replaces_the_command() {
    let overrides = parse_overrides("nautilus = nautilus --new-window ~/x", "/home/u");
    assert_eq!(overrides.command_for("Files", "org.gnome.Nautilus"), None);
    let overrides = parse_overrides("org.gnome.nautilus = n\nfire = f\nfire = g", "/home/u");
    assert_eq!(overrides.command_for("Files", "org.gnome.Nautilus"), Some(&text("n")));
    // The last of two for one name counts.
    assert_eq!(overrides.command_for("Firefox", "firefox"), Some(&text("g")));
}

#[test]
fn a_refresh_notices_what_changed() {
    let none = parse_overrides("", "/home/u");
    let build = |names: &[&str], source: &str| {
        Applications::build(
            names.iter().map(|n| entry(n, n, n)).collect(),
            names.iter().map(|_| None).collect(),
            &none,
            vec![text(source)],
        )
    };
    let mut apps = build(&["a", "b"], "/one");
    assert!(!apps.is_stale(&vec![text("/one")]));
    assert!(!apps.is_stale(&vec![text("//one/.")]));
    assert!(apps.is_stale(&vec![text("/two")]));
    assert!(!apps.refresh(build(&["a"], "/one")));
    assert_eq!(apps.listing().len(), 2);
    assert!(apps.refresh(build(&["a"], "/two")));
    assert_eq!(apps.listing().len(), 1);
    assert!(!apps.refresh(build(&["a"], "/three")));
}

#[test]
fn quotes_keep_a_command_together() {
    assert_eq!(expand_home("x ~/a b", "/home/u"), "x /home/u/a b");
    assert_eq!(expand_home("x a~/b", "/home/u"), "x a~/b");
}

/// Entries go by their keys, those of the same key as they came, and a name that
/// follows itself is there once.
#[test]
fn keys_decide_the_order() {
    let keyed = |key: &str, name: &str, command: &str| Keyed {
        key: text(key),
        entry: entry(name, command, name),
    };
    let arranged = arrange_by(vec![
        keyed("b", "first", "one"),
        keyed("a", "second", "two"),
        keyed("b", "third", "three"),
        keyed("b", "third", "four"),
    ]);
    let commands: Vec<&str> = arranged.iter().map(|e| e.command.as_str()).collect();
    assert_eq!(commands, vec!["two", "one", "three"]);
}

/// A line is a name, the first `=` and a command; comments and blanks are nothing.
#[test]
fn a_line_holds_a_name_and_a_command() {
    assert_eq!(
        read_line(" Fire Fox = firefox --a=b ~/p ", "/home/u"),
        Some((text("Fire Fox"), text("firefox --a=b /home/u/p")))
    );
    assert_eq!(read_line("# x = y", "/home/u"), None);
    assert_eq!(read_line("   ", "/home/u"), None);
    assert_eq!(read_line("no separator", "/home/u"), None);
    assert_eq!(read_line("= x", "/home/u"), Some((text(""), text("x"))));
}

/// The whole name counts before the file's name, and that before a part of a name.
#[test]
fn the_closest_override_is_chosen() {
    let mut overrides = Overrides::new();
    overrides.note(text("fire"), text("part"));
    overrides.note(text("firefox"), text("old"));
    overrides.note(text("firefox"), text("whole"));
    overrides.note(text("org.mozilla"), text("file"));
    overrides.note(text(""), text("nothing"));
    overrides.note(text("empty"), text(""));
    assert_eq!(overrides.len(), 3);
    assert_eq!(overrides.choose_command("firefox", "org.mozilla"), Some(&text("whole")));
    assert_eq!(overrides.choose_command("web fire", "org.mozilla"), Some(&text("file")));
    assert_eq!(overrides.choose_command("web fire", "x"), Some(&text("part")));
    assert_eq!(overrides.choose_command("other", "x"), None);
}

#[test]
fn commands_expand_apart() {
    let home = "/home/u";
    let first = "run \"a  b\" ~/x";
    let second = "--dir=~/y ~backup file~";
    let both = format!("{first} {second}");
    assert_eq!(
        expand_home(&both, home),
        format!("{} {}", expand_home(first, home), expand_home(second, home))
    );
    assert_eq!(expand_home(first, home), "run \"a  b\" /home/u/x");
    assert_eq!(expand_home(second, home), "--dir=/home/u/y ~backup file~");
    // A quote left open takes the second command in.
    assert_eq!(expand_home("run \"a ~/x", home), "run \"a ~/x");
}

/// Paths are the same, and in order, by what they are made of.
#[test]
fn paths_go_by_their_components() {
    assert!(is_path_first("/usr/x.desktop", "/usr-x/a.desktop"));
    assert!(!is_path_first("/usr-x/a.desktop", "/usr/x.desktop"));
    assert!(is_path_first("/a", "/a/b"));
    assert!(is_path_first("/z", "a"));
    assert!(is_path_first("./a", "../a"));
    assert!(is_path_first("../z", "a"));
    assert!(is_same_path("/a//b/./c/", "/a/b/c"));
    assert!(!is_same_path("./a", "a"));
    let mixed = vec![text("/usr-x/a.desktop"), text("/usr/x.desktop"), text("/usr/a.txt")];
    let mut paths: Vec<std::path::PathBuf> =
        vec![mixed[0].clone().into(), mixed[1].clone().into()];
    paths.sort();
    let listed = sources(&mixed);
    assert_eq!(listed, vec![text("/usr/x.desktop"), text("/usr-x/a.desktop")]);
    assert_eq!(paths[0].to_str(), Some(listed[0].as_str()));
    // The order in which a directory gives its files does not matter.
    let turned = vec![mixed[2].clone(), mixed[1].clone(), mixed[0].clone()];
    assert_eq!(sources(&turned), listed);
}
