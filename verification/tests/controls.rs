use ag_unlocker::controls::{
    bypass_on, bypass_order, can_submit, cap_row, command_of, counts_up, editable, forgettable,
    install_accent, journal_keys, journal_text, level_accent, log_line, path_dialog, says_copied,
    tone_accent, Accent, Cap, Command, JournalKeys, Level, Provider, ProviderList, SwitchState,
};
use ag_unlocker::status::{Action, Facts, Tone};
use ag_unlocker::time::{Moment, Span};
use ag_unlocker::window::{Install, SystemStatus};

fn row(path: Option<&str>, patched: Option<bool>, manual: bool) -> Install {
    Install {
        label: "CLI".into(),
        path: path.map(|p| p.into()),
        patched,
        manual,
    }
}

#[test]
fn the_colours_say_what_they_mean() {
    assert_eq!(tone_accent(Tone::Proven), Accent::Good);
    assert_eq!(tone_accent(Tone::Wait), Accent::Primary);
    assert_eq!(tone_accent(Tone::Fixing), Accent::Warn);
    assert_eq!(tone_accent(Tone::Action), Accent::Bad);
    assert_eq!(tone_accent(Tone::Off), Accent::Muted);
    assert_eq!(level_accent(Level::Done), Accent::Good);
    assert_eq!(level_accent(Level::Warn), Accent::Warn);
    assert_eq!(level_accent(Level::Failed), Accent::Bad);
    assert_eq!(level_accent(Level::Step), Accent::Text);
    assert_eq!(level_accent(Level::Info), Accent::Muted);
    assert_eq!(install_accent(&row(None, Some(true), false)), Accent::Line);
    assert_eq!(
        install_accent(&row(Some("/a"), Some(true), false)),
        Accent::Good
    );
    assert_eq!(
        install_accent(&row(Some("/a"), Some(false), false)),
        Accent::Muted
    );
    assert_eq!(install_accent(&row(Some("/a"), None, false)), Accent::Line);
}

#[test]
fn only_a_path_given_by_hand_can_be_forgotten() {
    assert_eq!(
        forgettable(&row(Some("/a"), None, true)).as_deref(),
        Some("/a")
    );
    assert_eq!(forgettable(&row(Some("/a"), None, false)), None);
    assert_eq!(forgettable(&row(None, None, true)), None);
    assert_eq!(editable(&row(Some("/a"), None, false)), "/a");
    assert_eq!(editable(&row(None, None, false)), "");
}

#[test]
fn a_card_with_an_age_counts_up() {
    assert!(!counts_up(&Facts::default()));
    assert!(counts_up(&Facts {
        answer: Some(Span::from_secs(1)),
        ..Facts::default()
    }));
    assert!(counts_up(&Facts {
        refusal: Some((Span::from_secs(1), 0)),
        ..Facts::default()
    }));
}

#[test]
fn the_copied_note_goes_after_four_seconds() {
    let at = |s| Moment::after_origin(Span::from_secs(s));
    assert!(!says_copied(None, at(5)));
    assert!(says_copied(Some(at(5)), at(8)));
    assert!(!says_copied(Some(at(5)), at(9)));
}

fn status() -> SystemStatus {
    SystemStatus {
        admin: false,
        installs: vec![],
        client_patch: true,
        dns: false,
        local_proxy: false,
        builtin_exits: false,
        dns_rotation: true,
        relay_running: false,
        relay_outdated: false,
        rules: false,
    }
}

#[test]
fn the_master_switch_is_on_when_any_part_is() {
    assert!(!bypass_on(&None));
    assert!(!bypass_on(&Some(status())));
    assert!(bypass_on(&Some(SystemStatus {
        dns: true,
        ..status()
    })));
    assert!(bypass_on(&Some(SystemStatus {
        local_proxy: true,
        ..status()
    })));
    assert!(bypass_on(&Some(SystemStatus {
        builtin_exits: true,
        ..status()
    })));
}

#[test]
fn the_listener_comes_up_first_and_goes_down_last() {
    assert_eq!(
        bypass_order(true),
        [Cap::Dns, Cap::LocalProxy, Cap::BuiltinExits]
    );
    assert_eq!(
        bypass_order(false),
        [Cap::LocalProxy, Cap::BuiltinExits, Cap::Dns]
    );
}

#[test]
fn a_blocked_switch_cannot_be_moved_and_says_why() {
    let r = cap_row(&None, false);
    assert!(!r.on && r.enabled && r.note.is_none());
    let blocked = Some(SwitchState {
        on: false,
        blocked: true,
        note: Some("занято".into()),
    });
    let r = cap_row(&blocked, false);
    assert!(!r.on && !r.enabled);
    assert_eq!(r.note.as_deref(), Some("занято"));
    assert_eq!(r.note_accent, Accent::Warn);
    let noted = Some(SwitchState {
        on: true,
        blocked: false,
        note: Some("частично".into()),
    });
    let r = cap_row(&noted, true);
    assert!(r.on && !r.enabled);
    assert_eq!(r.note_accent, Accent::Muted);
}

fn list(names: &[(&str, bool)]) -> ProviderList {
    ProviderList {
        rows: names
            .iter()
            .map(|(n, on)| Provider {
                name: n.to_string(),
                enabled: *on,
            })
            .collect(),
        reordering: false,
    }
}

fn names(l: &ProviderList) -> Vec<&str> {
    l.rows.iter().map(|p| p.name.as_str()).collect()
}

#[test]
fn without_rotation_only_the_first_that_is_on_is_used() {
    let l = list(&[("a", false), ("b", true), ("c", true)]);
    assert!(!l.is_idle(0, false));
    assert!(!l.is_idle(1, false));
    assert!(l.is_idle(2, false));
    assert!(!l.is_idle(2, true));
}

#[test]
fn a_row_follows_the_pointer_and_the_order_is_saved_once() {
    let mut l = list(&[("a", true), ("b", true), ("c", true)]);
    let s = l.settle(Some((0, 2)), false, false);
    assert_eq!((s.dragged_to, s.order), (Some(2), None));
    assert_eq!(names(&l), ["b", "c", "a"]);
    assert!(l.reordering);
    // Still over the same row: nothing moves.
    let s = l.settle(Some((2, 2)), false, false);
    assert_eq!(s.dragged_to, None);
    // Moved once more and dropped in the same frame.
    let s = l.settle(Some((2, 1)), true, true);
    assert_eq!(s.dragged_to, Some(1));
    assert_eq!(
        s.order,
        Some(vec!["b".to_string(), "a".to_string(), "c".to_string()])
    );
    assert!(!l.reordering);
    // Nothing more to save.
    assert_eq!(l.settle(None, true, true).order, None);
}

#[test]
fn a_drag_left_outside_the_list_is_saved_too() {
    let mut l = list(&[("a", true), ("b", true)]);
    l.settle(Some((1, 0)), false, false);
    let s = l.settle(None, false, true);
    assert_eq!(s.order, Some(vec!["b".to_string(), "a".to_string()]));
    assert!(!l.reordering);
}

#[test]
fn a_drag_from_or_to_nowhere_moves_nothing() {
    let mut l = list(&[("a", true), ("b", true)]);
    assert_eq!(l.settle(Some((2, 0)), true, true).dragged_to, None);
    assert_eq!(l.settle(Some((0, 2)), true, true).order, None);
    assert_eq!(names(&l), ["a", "b"]);
}

fn log() -> Vec<(Level, String)> {
    vec![
        (Level::Step, "Патч".to_string()),
        (Level::Done, "готово".to_string()),
    ]
}

#[test]
fn the_journal_is_copied_as_it_is_drawn() {
    assert_eq!(log_line(Level::Step, "Патч"), "— Патч");
    assert_eq!(log_line(Level::Info, "Патч"), "Патч");
    assert_eq!(journal_text(&log()), "— Патч\nготово");
    assert_eq!(journal_text(&vec![]), "");
}

#[test]
fn select_all_then_copy_takes_the_whole_journal() {
    let none = JournalKeys {
        typing: false,
        select_all: false,
        copy: false,
        dismiss: false,
    };
    let all = JournalKeys {
        select_all: true,
        ..none
    };
    assert_eq!(journal_keys(false, &log(), all), (true, None));
    // An empty journal has nothing to select, and a text field keeps its own.
    assert_eq!(journal_keys(true, &vec![], all), (false, None));
    assert_eq!(
        journal_keys(
            false,
            &log(),
            JournalKeys {
                typing: true,
                ..all
            }
        ),
        (false, None)
    );
    let copy = JournalKeys { copy: true, ..none };
    assert_eq!(
        journal_keys(true, &log(), copy),
        (true, Some("— Патч\nготово".to_string()))
    );
    // Only while our own selection is up.
    assert_eq!(journal_keys(false, &log(), copy), (false, None));
    // Copied first, given up then.
    assert_eq!(
        journal_keys(
            true,
            &log(),
            JournalKeys {
                dismiss: true,
                ..copy
            }
        ),
        (false, Some("— Патч\nготово".to_string()))
    );
}

#[test]
fn a_blank_path_cannot_be_submitted() {
    assert!(!can_submit(""));
    assert!(!can_submit(" \t\u{a0}\u{3000}"));
    assert!(can_submit("  C:\\ "));
}

#[test]
fn the_path_dialog_closes_on_success_and_on_cancel() {
    let text = || "/x".to_string();
    let d = path_dialog(text(), Some("e".into()), true, false, Some("/root"));
    assert_eq!((d.text, d.error), (None, None));
    assert_eq!(d.add, Some("/root"));
    let d = path_dialog(text(), None, true, false, None::<&str>);
    assert_eq!(d.text.as_deref(), Some("/x"));
    assert_eq!(
        d.error.as_deref(),
        Some("По этому пути установка Antigravity не найдена.")
    );
    assert_eq!(d.add, None);
    let d = path_dialog(text(), Some("e".into()), false, false, None::<&str>);
    assert_eq!(d.error.as_deref(), Some("e"));
    let d = path_dialog(text(), Some("e".into()), false, true, None::<&str>);
    assert_eq!((d.text, d.error, d.add), (None, None, None));
}

#[test]
fn a_button_does_what_it_says() {
    assert_eq!(command_of(Action::EnableAll), Command::EnableAll);
    assert_eq!(command_of(Action::Repair), Command::Repair);
    assert_eq!(command_of(Action::Elevate), Command::RequestElevation);
}
