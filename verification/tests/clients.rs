use stonemite::clients::{
    apply_preferred_box_order, exchange_active_with_pip, exchange_window_numbers, focused_foreground_pid,
    next_available_number, reconcile_identity, BoxIdentity, ClientPartition, ClientRegistry, EqWindow,
};
use stonemite::pid_map::PidMap;

fn window(pid: u32) -> EqWindow {
    EqWindow { hwnd: 0, pid, number: pid as usize, character: None, server: None, class: None }
}

fn identified_window(pid: u32, number: usize, server: &str, character: &str) -> EqWindow {
    let mut window = window(pid);
    window.number = number;
    window.server = Some(server.into());
    window.character = Some(character.into());
    window
}

fn identity(server: &str, character: &str) -> BoxIdentity {
    BoxIdentity { server: server.into(), character: character.into() }
}

#[test]
fn promoting_a_known_client_outside_the_pips_preserves_a_bounded_partition() {
    let mut clients = ClientRegistry::new(Vec::new());
    clients.windows = (1..=7).map(window).collect();
    clients.restore_partition(ClientPartition::new(Some(1), vec![2, 3, 4, 5, 6]));

    assert!(clients.promote(7, 5));
    assert_eq!(clients.active_pid(), Some(7));
    assert_eq!(clients.pips().to_vec(), vec![2, 3, 4, 5, 1]);
    assert!(clients.debug_assert_partition());
}

#[test]
fn preferred_order_is_global_case_insensitive_and_compacts_missing_entries() {
    let preferred = vec![identity("xegony", "Laika"), identity("bristlebane", "Foo"), identity("xegony", "Kafka")];
    let mut windows = vec![
        identified_window(10, 1, "XEGONY", "Kafka"),
        identified_window(20, 2, "Bristlebane", "foo"),
        identified_window(30, 3, "Xegony", "Unlisted"),
    ];

    assert!(apply_preferred_box_order(&mut windows, &preferred));
    assert_eq!(
        windows.iter().map(|window| (window.pid, window.number)).collect::<Vec<_>>(),
        vec![(10, 2), (20, 1), (30, 3)]
    );
    assert!(!apply_preferred_box_order(&mut windows, &preferred));
}

#[test]
fn unlisted_windows_retain_relative_order_after_ranked_windows() {
    let preferred = vec![identity("xegony", "Laika")];
    let mut windows = vec![
        identified_window(10, 4, "Xegony", "UnknownOne"),
        identified_window(20, 2, "Xegony", "Laika"),
        identified_window(30, 3, "Teek", "UnknownTwo"),
    ];

    assert!(apply_preferred_box_order(&mut windows, &preferred));
    assert_eq!(
        windows.iter().map(|window| (window.pid, window.number)).collect::<Vec<_>>(),
        vec![(10, 3), (20, 1), (30, 2)]
    );
}

#[test]
fn empty_preference_preserves_existing_window_numbers() {
    let mut windows = vec![window(10), window(20)];
    windows[0].number = 4;
    windows[1].number = 2;

    assert!(!apply_preferred_box_order(&mut windows, &[]));
    assert_eq!(windows[0].number, 4);
    assert_eq!(windows[1].number, 2);
}

#[test]
fn swapping_window_numbers_preserves_identity_and_supports_a_no_op() {
    let mut windows = vec![window(10), window(20), window(30)];
    windows[0].number = 1;
    windows[1].number = 2;
    windows[2].number = 3;

    assert_eq!(exchange_window_numbers(&mut windows, 10, 30), Some((1, 3)));
    assert_eq!(
        windows.iter().map(|window| (window.pid, window.number)).collect::<Vec<_>>(),
        vec![(10, 3), (20, 2), (30, 1)]
    );
    assert_eq!(exchange_window_numbers(&mut windows, 20, 20), Some((2, 2)));
    assert!(exchange_window_numbers(&mut windows, 10, 99).is_none());
}

#[test]
fn foreground_pid_requires_confirmed_keyboard_focus_during_client_changes() {
    let mut candidate = window(42);
    candidate.hwnd = 42;
    let windows = vec![candidate];

    assert_eq!(focused_foreground_pid(&windows, 42, |_| false), None);
    assert_eq!(focused_foreground_pid(&windows, 42, |_| true), Some(42));
    assert_eq!(focused_foreground_pid(&windows, 99, |_| true), None);
}

#[test]
fn rapid_foreground_changes_preserve_the_client_partition() {
    let mut active = Some(1);
    let mut pips = vec![2, 3, 4];

    for target in [2, 3, 2, 4, 3, 1, 4] {
        assert!(exchange_active_with_pip(&mut active, &mut pips, target));
        let mut partition = vec![active.expect("an active client")];
        partition.extend(pips.iter().copied());
        partition.sort_unstable();
        assert_eq!(partition, vec![1, 2, 3, 4]);
    }

    let before = (active, pips.clone());
    assert!(!exchange_active_with_pip(&mut active, &mut pips, 99));
    assert_eq!((active, pips), before);
}

#[test]
fn new_identity_refreshes_but_unchanged_identity_preserves_manual_assignment() {
    let mut observed = PidMap::new();
    let mut window = window(42);

    assert!(reconcile_identity(&mut observed, &mut window, "Orlov".into(), "teek".into(), Some("SHK".into())));
    window.character = Some("Manual".into());
    window.server = Some("assignment".into());
    window.class = Some("CLR".into());

    assert!(!reconcile_identity(&mut observed, &mut window, "orlov".into(), "TEEK".into(), None));
    assert_eq!(window.character.as_deref(), Some("Manual"));

    assert!(reconcile_identity(&mut observed, &mut window, "Laika".into(), "xegony".into(), Some("SHM".into())));
    assert_eq!(window.character.as_deref(), Some("Laika"));
    assert_eq!(window.server.as_deref(), Some("xegony"));
    assert_eq!(window.class.as_deref(), Some("SHM"));
}

#[test]
fn window_numbers_fill_the_smallest_gap() {
    let mut windows = vec![window(1), window(2), window(3)];
    windows[0].number = 1;
    windows[1].number = 3;
    windows[2].number = 4;
    assert_eq!(next_available_number(&windows), 2);
    assert_eq!(next_available_number(&[]), 1);
}

#[test]
fn removing_the_active_client_promotes_the_first_pip() {
    let mut clients = ClientRegistry::new(Vec::new());
    clients.add(window(1), true);
    clients.add(window(2), true);
    clients.add(window(3), false);
    assert_eq!(clients.active_pid(), Some(1));
    assert_eq!(clients.pips().to_vec(), vec![2, 3]);
    clients.remove(1);
    assert_eq!(clients.active_pid(), Some(2));
    assert_eq!(clients.pips().to_vec(), vec![3]);
    assert!(clients.debug_assert_partition());
}
