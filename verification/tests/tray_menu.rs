//! Tests for the tray directory, click dispatch, and the menu client.

use rwaybar::menu::{MenuCache, MenuState, TrayPopup, decode_menu_entries};
use rwaybar::state::{Config, State};
use rwaybar::tray::{
    NameReply, Tray, WatcherSignal, add_enumerated, classify_watcher_member, do_add_item,
    do_click, do_del_item, handle_item_update, handle_item_update_msg, host_registration_ok,
    init_plan, show, split_address,
};

fn title_props(title: &str) -> Vec<(String, Option<String>)> {
    vec![("Title".to_string(), Some(title.to_string()))]
}

#[test]
fn split_address_at_first_slash() {
    let (owner, path) = split_address(&"org.example.App/path".to_string()).unwrap();
    assert_eq!(owner, "org.example.App");
    assert_eq!(path, "/path");
    let (owner2, path2) = split_address(&":1.5/a/b".to_string()).unwrap();
    assert_eq!(owner2, ":1.5");
    assert_eq!(path2, "/a/b");
    assert!(split_address(&"no-slash-here".to_string()).is_none());
}

#[test]
fn item_registered_then_title_update_and_one_redraw() {
    // Scenario: the directory receives a registration for
    // "org.example.App/path", the item appears under that key, and a
    // later title change updates the record and wakes the bar once.
    let mut tray = Tray::new();
    let mut st = State::new(Config { vars: vec![], items: vec![], bars: vec![] }, 7);
    let _ = show(&mut tray, 7);

    let (fetch, woken) = do_add_item(&mut tray, true, &"org.example.App/path".to_string());
    let fetch = fetch.unwrap();
    assert_eq!(fetch.owner, "org.example.App");
    assert_eq!(fetch.path, "/path");
    assert!(fetch.is_kde);
    assert_eq!(tray.items.len(), 1);
    assert_eq!(tray.items[0].owner, "org.example.App");
    assert_eq!(tray.items[0].path, "/path");
    assert_eq!(tray.items[0].title, "");
    st.runtime.deliver_wakes(&woken);
    assert!(st.take_redraw());
    assert!(!st.take_redraw());

    // The bar re-registers when it repaints, then the title changes.
    let _ = show(&mut tray, 7);
    let woken2 = handle_item_update(
        &mut tray,
        &"org.example.App".to_string(),
        &"/path".to_string(),
        &title_props("Mail"),
    );
    assert_eq!(tray.items[0].title, "Mail");
    st.runtime.deliver_wakes(&woken2);
    assert!(st.take_redraw());
    assert!(!st.take_redraw());
}

#[test]
fn duplicate_add_replaces_in_place() {
    let mut tray = Tray::new();
    do_add_item(&mut tray, false, &"org.example.App/path".to_string());
    handle_item_update(
        &mut tray,
        &"org.example.App".to_string(),
        &"/path".to_string(),
        &title_props("Old"),
    );
    assert_eq!(tray.items[0].title, "Old");
    // Registering the same key again resets the record without
    // duplicating it.
    do_add_item(&mut tray, false, &"org.example.App/path".to_string());
    assert_eq!(tray.items.len(), 1);
    assert_eq!(tray.items[0].title, "");
}

#[test]
fn remove_nonexistent_key_is_noop() {
    let mut tray = Tray::new();
    do_add_item(&mut tray, false, &"org.a/x".to_string());
    let woken = do_del_item(&mut tray, &"org.b/y".to_string());
    assert_eq!(tray.items.len(), 1);
    assert!(woken.is_empty());
    do_del_item(&mut tray, &"org.a/x".to_string());
    assert!(tray.items.is_empty());
}

#[test]
fn malformed_address_changes_nothing() {
    let mut tray = Tray::new();
    show(&mut tray, 3);
    let (fetch, woken) = do_add_item(&mut tray, true, &"garbage".to_string());
    assert!(fetch.is_none());
    assert!(woken.is_empty());
    assert!(tray.items.is_empty());
    // The interested party was not drained by the failed add.
    assert_eq!(tray.interested.interested, vec![3]);
}

#[test]
fn update_maps_known_properties_and_skips_the_rest() {
    let mut tray = Tray::new();
    do_add_item(&mut tray, true, &"org.a/x".to_string());
    let props = vec![
        ("Id".to_string(), Some("mailer".to_string())),
        ("Title".to_string(), Some("Mail".to_string())),
        ("Status".to_string(), Some("Active".to_string())),
        ("IconName".to_string(), Some("mail-unread".to_string())),
        ("IconThemePath".to_string(), Some("/usr/share/icons".to_string())),
        ("Menu".to_string(), Some("/MenuBar".to_string())),
        // A type mismatch skips that one field.
        ("ToolTip".to_string(), None),
        ("Title2".to_string(), Some("ignored".to_string())),
    ];
    handle_item_update(&mut tray, &"org.a".to_string(), &"/x".to_string(), &props);
    let it = &tray.items[0];
    assert_eq!(it.id, "mailer");
    assert_eq!(it.title, "Mail");
    assert_eq!(it.status, "Active");
    assert_eq!(it.icon, "mail-unread");
    assert_eq!(it.icon_path, "/usr/share/icons");
    assert_eq!(it.menu_path, "/MenuBar");
}

#[test]
fn update_for_untracked_key_is_noop() {
    let mut tray = Tray::new();
    do_add_item(&mut tray, true, &"org.a/x".to_string());
    handle_item_update(&mut tray, &"org.b".to_string(), &"/x".to_string(), &title_props("X"));
    assert_eq!(tray.items[0].title, "");
}

#[test]
fn update_msg_filters_by_interface() {
    let mut tray = Tray::new();
    do_add_item(&mut tray, true, &"org.a/x".to_string());
    handle_item_update_msg(
        &mut tray,
        &"org.a".to_string(),
        &"/x".to_string(),
        &"org.freedesktop.DBus.Properties".to_string(),
        &title_props("Nope"),
    );
    assert_eq!(tray.items[0].title, "");
    handle_item_update_msg(
        &mut tray,
        &"org.a".to_string(),
        &"/x".to_string(),
        &"org.kde.StatusNotifierItem".to_string(),
        &title_props("Yes"),
    );
    assert_eq!(tray.items[0].title, "Yes");
    handle_item_update_msg(
        &mut tray,
        &"org.a".to_string(),
        &"/x".to_string(),
        &"org.freedesktop.StatusNotifierItem".to_string(),
        &title_props("Again"),
    );
    assert_eq!(tray.items[0].title, "Again");
}

#[test]
fn click_codes_map_to_invocations() {
    // Scenario: a click at code 1 on a tracked item invokes ContextMenu on
    // that item's object; a click at code 5 invokes Scroll with direction
    // "vertical".
    let mut tray = Tray::new();
    do_add_item(&mut tray, true, &"org.example.App/path".to_string());
    let owner = "org.example.App".to_string();
    let path = "/path".to_string();

    let cmd = do_click(&tray, &owner, &path, 1).unwrap();
    assert_eq!(cmd.owner, "org.example.App");
    assert_eq!(cmd.path, "/path");
    assert_eq!(cmd.method, "ContextMenu");
    assert_eq!(cmd.interface, "org.kde.StatusNotifierItem");
    assert!(cmd.scroll_direction.is_none());

    let scroll = do_click(&tray, &owner, &path, 5).unwrap();
    assert_eq!(scroll.method, "Scroll");
    assert_eq!(scroll.scroll_direction.as_deref(), Some("vertical"));
    assert_eq!(scroll.scroll_delta, 15);

    let horizontal = do_click(&tray, &owner, &path, 8).unwrap();
    assert_eq!(horizontal.scroll_direction.as_deref(), Some("horizontal"));

    assert_eq!(do_click(&tray, &owner, &path, 0).unwrap().method, "Activate");
    assert_eq!(do_click(&tray, &owner, &path, 2).unwrap().method, "SecondaryActivate");

    // Codes outside the table, and untracked keys, are ignored.
    assert!(do_click(&tray, &owner, &path, 3).is_none());
    assert!(do_click(&tray, &owner, &path, 9).is_none());
    assert!(do_click(&tray, &"org.other".to_string(), &path, 1).is_none());
}

#[test]
fn click_interface_follows_namespace() {
    let mut tray = Tray::new();
    do_add_item(&mut tray, false, &"org.a/x".to_string());
    let cmd = do_click(&tray, &"org.a".to_string(), &"/x".to_string(), 0).unwrap();
    assert_eq!(cmd.interface, "org.freedesktop.StatusNotifierItem");
}

#[test]
fn show_lists_icon_candidates_in_fallback_order() {
    let mut tray = Tray::new();
    do_add_item(&mut tray, true, &"org.a/x".to_string());
    handle_item_update(
        &mut tray,
        &"org.a".to_string(),
        &"/x".to_string(),
        &vec![
            ("Title".to_string(), Some("Mail".to_string())),
            ("IconName".to_string(), Some("mail".to_string())),
            ("IconThemePath".to_string(), Some("/theme".to_string())),
            ("Menu".to_string(), Some("/MenuBar".to_string())),
        ],
    );
    let entries = show(&mut tray, 4);
    assert_eq!(entries.len(), 1);
    let e = &entries[0];
    assert_eq!(e.icon_candidates, vec!["/theme/mail.svg", "/theme/mail.png", "mail"]);
    assert_eq!(e.title, "Mail");
    assert_eq!(e.popup.owner, "org.a");
    assert_eq!(e.popup.menu_path, "/MenuBar");
    assert_eq!(e.popup.title, "Mail");
    assert!(e.popup.rendered_ids.is_empty());
    // Showing registered interest.
    assert_eq!(tray.interested.interested, vec![4]);
}

#[test]
fn show_without_theme_path_tries_raw_name_only() {
    let mut tray = Tray::new();
    do_add_item(&mut tray, true, &"org.a/x".to_string());
    handle_item_update(
        &mut tray,
        &"org.a".to_string(),
        &"/x".to_string(),
        &vec![("IconName".to_string(), Some("mail".to_string()))],
    );
    let entries = show(&mut tray, 4);
    assert_eq!(entries[0].icon_candidates, vec!["mail"]);
}

#[test]
fn init_plan_names_follow_namespace() {
    let kde = init_plan(true, 1234);
    assert_eq!(kde.host_name, "org.kde.StatusNotifierHost-1234");
    assert_eq!(kde.watcher_name, "org.kde.StatusNotifierWatcher");
    assert_eq!(kde.watcher_object, "/StatusNotifierWatcher");
    assert_eq!(kde.register_method, "RegisterStatusNotifierHost");
    let fdo = init_plan(false, 42);
    assert_eq!(fdo.host_name, "org.freedesktop.StatusNotifierHost-42");
    assert_eq!(fdo.watcher_name, "org.freedesktop.StatusNotifierWatcher");
}

#[test]
fn registration_proceeds_only_as_primary_owner() {
    assert!(host_registration_ok(&Some(NameReply::PrimaryOwner)));
    assert!(!host_registration_ok(&Some(NameReply::InQueue)));
    assert!(!host_registration_ok(&Some(NameReply::Exists)));
    assert!(!host_registration_ok(&Some(NameReply::AlreadyOwner)));
    assert!(!host_registration_ok(&None));
}

#[test]
fn watcher_members_classify() {
    assert_eq!(
        classify_watcher_member(&"StatusNotifierItemRegistered".to_string()),
        WatcherSignal::Register
    );
    assert_eq!(
        classify_watcher_member(&"StatusNotifierItemUnregistered".to_string()),
        WatcherSignal::Unregister
    );
    assert_eq!(
        classify_watcher_member(&"StatusNotifierHostRegistered".to_string()),
        WatcherSignal::Other
    );
}

#[test]
fn enumeration_adds_each_item() {
    let mut tray = Tray::new();
    show(&mut tray, 5);
    let addrs = vec![
        "org.a/x".to_string(),
        "broken".to_string(),
        "org.b/y".to_string(),
        "org.a/x".to_string(),
    ];
    let (fetches, woken) = add_enumerated(&mut tray, false, &addrs);
    // One fetch per well-formed address; the duplicate replaced in place.
    assert_eq!(fetches.len(), 3);
    assert_eq!(tray.items.len(), 2);
    assert_eq!(tray.items[0].owner, "org.a");
    assert_eq!(tray.items[1].owner, "org.b");
    assert_eq!(woken, vec![5]);
}

#[test]
fn menu_fetch_is_idempotent_per_popup() {
    // Two size requests before the fetch resolves trigger exactly one
    // remote layout fetch.
    let popup = TrayPopup {
        owner: "org.a".to_string(),
        menu_path: "/MenuBar".to_string(),
        title: "T".to_string(),
        rendered_ids: vec![],
    };
    let mut cache = MenuCache::new();
    let (_, _, first) = popup.get_size(&mut cache, 10, 7, &vec![]);
    let fetch = first.unwrap();
    assert_eq!(fetch.owner, "org.a");
    assert_eq!(fetch.menu_path, "/MenuBar");
    assert_eq!(cache.state, MenuState::Fetching);
    let (_, _, second) = popup.get_size(&mut cache, 10, 7, &vec![]);
    assert!(second.is_none());
    assert_eq!(cache.state, MenuState::Fetching);
}

#[test]
fn menu_decode_and_install() {
    let entries = decode_menu_entries(vec![
        (1, Some("Open".to_string()), None),
        (2, None, Some("separator".to_string())),
        (3, Some("Quit".to_string()), Some("standard".to_string())),
    ]);
    assert_eq!(entries.len(), 3);
    assert_eq!((entries[0].id, entries[0].is_sep, entries[0].label.as_str()), (1, false, "Open"));
    assert_eq!((entries[1].id, entries[1].is_sep, entries[1].label.as_str()), (2, true, ""));
    assert_eq!((entries[2].id, entries[2].is_sep, entries[2].label.as_str()), (3, false, "Quit"));

    let mut cache = MenuCache::new();
    cache.interested.add(6);
    let woken = cache.install(entries);
    assert_eq!(woken, vec![6]);
    assert!(cache.interested.interested.is_empty());
    assert_eq!(cache.state, MenuState::Populated);
    assert_eq!(cache.entries.len(), 3);
}

#[test]
fn popup_sizing_is_exact() {
    let popup = TrayPopup {
        owner: "org.a".to_string(),
        menu_path: "/MenuBar".to_string(),
        title: "T".to_string(),
        rendered_ids: vec![],
    };
    let mut cache = MenuCache::new();
    // Without entries: the title plus the outer margin.
    let (w0, h0, _) = popup.get_size(&mut cache, 10, 7, &vec![]);
    assert_eq!((w0, h0), (14, 11));

    cache.install(decode_menu_entries(vec![
        (1, Some("Open".to_string()), None),
        (2, None, Some("separator".to_string())),
        (3, Some("Quit".to_string()), None),
    ]));
    let sizes = vec![(40, 12), (0, 0), (30, 10)];
    let (w, h, fetch) = popup.get_size(&mut cache, 10, 7, &sizes);
    // Width: widest of title and labels, plus margin.
    assert_eq!(w, 44);
    // Height: title + divider gap + (12+5) + 9 + (10+5) + margin.
    assert_eq!(h, 7 + 9 + 17 + 9 + 15 + 4);
    assert!(fetch.is_none());
}

#[test]
fn popup_render_records_extents_and_button_hits() {
    let mut popup = TrayPopup {
        owner: "org.a".to_string(),
        menu_path: "/MenuBar".to_string(),
        title: "T".to_string(),
        rendered_ids: vec![],
    };
    let mut cache = MenuCache::new();
    cache.install(decode_menu_entries(vec![
        (1, Some("Open".to_string()), None),
        (2, None, Some("separator".to_string())),
        (3, Some("Quit".to_string()), None),
    ]));
    let sizes = vec![(40, 12), (0, 0), (30, 10)];
    let (w, h, fetch) = popup.render(&mut cache, 8, 10, 7, &sizes);
    assert_eq!((w, h), (44, 61));
    assert!(fetch.is_none());
    // Content starts at offset 2 + title 7 + divider 9 = 18.
    assert_eq!(popup.rendered_ids, vec![(18, 30, 1), (44, 54, 3)]);
    // Rendering registered interest in the cache.
    assert_eq!(cache.interested.interested, vec![8]);

    assert_eq!(popup.button(20, 1000).map(|c| c.entry_id), Some(1));
    assert_eq!(popup.button(18, 1000).map(|c| c.entry_id), Some(1));
    assert_eq!(popup.button(30, 1000).map(|c| c.entry_id), Some(1));
    assert_eq!(popup.button(44, 1000).map(|c| c.entry_id), Some(3));
    assert!(popup.button(31, 1000).is_none());
    assert!(popup.button(100, 1000).is_none());
    let click = popup.button(50, 12345).unwrap();
    assert_eq!(click.entry_id, 3);
    assert_eq!(click.owner, "org.a");
    assert_eq!(click.menu_path, "/MenuBar");
    assert_eq!(click.timestamp_ms, 12345);
}

#[test]
fn popup_render_before_fetch_starts_it_once() {
    let mut popup = TrayPopup {
        owner: "org.a".to_string(),
        menu_path: "/m".to_string(),
        title: "T".to_string(),
        rendered_ids: vec![],
    };
    let mut cache = MenuCache::new();
    let (_, _, fetch) = popup.render(&mut cache, 8, 10, 7, &vec![]);
    assert!(fetch.is_some());
    assert_eq!(cache.state, MenuState::Fetching);
    // The unfetched cache did not take an interest registration yet.
    assert!(cache.interested.interested.is_empty());
    assert!(popup.rendered_ids.is_empty());
    let (_, _, again) = popup.render(&mut cache, 8, 10, 7, &vec![]);
    assert!(again.is_none());
    assert_eq!(cache.interested.interested, vec![8]);
}
