use ag_unlocker::status::{
    ago_text, capitalise, headline, headline_with, plural, replace_head, situation, Action,
    Answered, Facts, Situation, Tone, STUCK_LINES,
};
use ag_unlocker::time::Span;

fn working() -> Facts {
    Facts {
        admin: true,
        installs_found: true,
        patch_on: true,
        bypass_on: true,
        relay_running: true,
        relay_outdated: false,
        rules: true,
        relay_reporting: true,
        ..Facts::default()
    }
}

fn secs(n: u64) -> Span {
    Span::from_secs(n)
}

/// A refusal, then quiet. Quiet is not proof - the card must not turn green
/// without a model answer after it.
#[test]
fn silence_after_a_refusal_is_not_working() {
    let f = Facts {
        refusal: Some((secs(300), 4)),
        answered: Some(Answered {
            acted: "адреса серверов Google подбираются заново".into(),
            bypassed: false,
        }),
        ..working()
    };
    let h = headline(&f);
    assert_eq!(h.tone, Tone::Fixing);
    assert!(
        h.detail.contains("Отправьте сообщение ещё раз"),
        "{}",
        h.detail
    );
}

#[test]
fn an_answer_after_the_refusal_is_working_and_says_by_which_path() {
    let f = Facts {
        refusal: Some((secs(300), 4)),
        answer: Some(secs(60)),
        route: Some("встроенный выход".into()),
        ..working()
    };
    let h = headline(&f);
    assert_eq!(h.tone, Tone::Proven);
    assert_eq!(h.title, "Работает");
    assert!(h.detail.contains("1 минуту назад"), "{}", h.detail);
    assert!(h.detail.contains("встроенный выход"), "{}", h.detail);
}

/// An answer, then a refusal, then quiet. Once the refusal is older than the
/// fixing window the card must not fall back to the answer before it and say
/// «Работает».
#[test]
fn an_old_refusal_after_the_last_answer_asks_for_a_check_not_a_green_card() {
    let f = Facts {
        refusal: Some((secs(13 * 60), 0)),
        answer: Some(secs(14 * 60)),
        ..working()
    };
    let h = headline(&f);
    assert_eq!(h.tone, Tone::Wait);
    assert_eq!(h.title, "Нужна проверка");
    // And an answer after that same refusal is working again.
    let f = Facts {
        refusal: Some((secs(13 * 60), 0)),
        answer: Some(secs(60)),
        ..working()
    };
    assert_eq!(headline(&f).tone, Tone::Proven);
}

#[test]
fn a_refusal_after_the_last_answer_is_the_live_problem() {
    let f = Facts {
        refusal: Some((secs(20), 4)),
        answer: Some(secs(600)),
        ..working()
    };
    assert_eq!(headline(&f).tone, Tone::Fixing);
}

#[test]
fn set_up_and_unproven_asks_for_a_message_and_claims_nothing() {
    let h = headline(&working());
    assert_eq!(h.tone, Tone::Wait);
    assert!(!h.detail.contains("работает"), "{}", h.detail);
    assert_eq!(h.action, None);
}

#[test]
fn a_client_that_went_around_us_is_told_so_and_what_to_do() {
    let f = Facts {
        refusal: Some((secs(10), 4)),
        answered: Some(Answered {
            acted: String::new(),
            bypassed: true,
        }),
        ..working()
    };
    let h = headline(&f);
    assert_eq!(h.tone, Tone::Fixing);
    assert!(h.detail.contains("мимо обхода"), "{}", h.detail);
    assert!(
        h.detail.contains("перезапустите Antigravity"),
        "{}",
        h.detail
    );
}

#[test]
fn many_refusals_with_no_answer_stop_promising_and_say_what_to_try() {
    let f = Facts {
        refusal: Some((secs(10), STUCK_LINES)),
        ..working()
    };
    let h = headline(&f);
    assert_eq!(h.tone, Tone::Action);
    assert!(h.detail.contains("Скопировать отчёт"), "{}", h.detail);
}

#[test]
fn switched_off_offers_the_one_button_and_warns_when_it_closes_antigravity() {
    let f = Facts {
        patch_on: false,
        bypass_on: false,
        ..working()
    };
    let h = headline(&f);
    assert_eq!(h.action, Some(Action::EnableAll));
    assert!(h.detail.contains("закроется"), "{}", h.detail);
    // Only the bypass off: nothing gets closed.
    let f = Facts {
        bypass_on: false,
        ..working()
    };
    let h = headline(&f);
    assert_eq!(h.action, Some(Action::EnableAll));
    assert!(!h.detail.contains("закроется"), "{}", h.detail);
}

#[test]
fn without_admin_the_button_is_elevation_but_only_when_there_is_work_for_it() {
    let f = Facts {
        admin: false,
        bypass_on: false,
        ..working()
    };
    assert_eq!(headline(&f).action, Some(Action::Elevate));
    // Everything is installed and running: an unelevated window has nothing
    // to ask for.
    let f = Facts {
        admin: false,
        answer: Some(secs(30)),
        ..working()
    };
    assert_eq!(headline(&f).tone, Tone::Proven);
}

#[test]
fn a_dead_or_old_service_is_repaired_by_one_button() {
    let f = Facts {
        relay_running: false,
        ..working()
    };
    let h = headline(&f);
    assert_eq!((h.tone, h.action), (Tone::Action, Some(Action::Repair)));
    let f = Facts {
        relay_outdated: true,
        ..working()
    };
    assert_eq!(headline(&f).title, "Служба обхода устарела");
    // Running, current, and still useless: nothing asks it anything.
    let f = Facts {
        rules: false,
        ..working()
    };
    let h = headline(&f);
    assert_eq!(h.action, Some(Action::Repair));
    assert_eq!(h.title, "Служба обхода работает не полностью");
}

#[test]
fn nothing_installed_is_said_without_a_button() {
    let f = Facts {
        installs_found: false,
        patch_on: false,
        bypass_on: false,
        ..working()
    };
    let h = headline(&f);
    assert_eq!(h.tone, Tone::Off);
    assert_eq!(h.action, None);
}

#[test]
fn russian_counts_in_three_forms() {
    let minutes = |n| plural(n, "минуту", "минуты", "минут");
    assert_eq!(minutes(1), "минуту");
    assert_eq!(minutes(2), "минуты");
    assert_eq!(minutes(5), "минут");
    assert_eq!(minutes(11), "минут");
    assert_eq!(minutes(21), "минуту");
    assert_eq!(minutes(22), "минуты");
    assert_eq!(minutes(0), "минут");
}

#[test]
fn an_age_reads_as_a_person_would_say_it() {
    assert_eq!(ago_text(secs(3)), "только что");
    assert_eq!(ago_text(secs(22)), "22 секунды назад");
    assert_eq!(ago_text(secs(61)), "1 минуту назад");
    assert_eq!(ago_text(secs(9 * 60)), "9 минут назад");
    assert_eq!(ago_text(secs(2 * 3600 + 5)), "2 часа назад");
    assert_eq!(ago_text(secs(5 * 3600)), "5 часов назад");
}

#[test]
fn what_the_relay_did_is_put_as_a_sentence() {
    let f = Facts {
        refusal: Some((secs(5), 1)),
        answered: Some(Answered {
            acted: "маршрут «прямой» отложен на 10 мин".into(),
            bypassed: false,
        }),
        ..working()
    };
    assert_eq!(
        headline(&f).detail,
        "Ошибка 400 — только что. Маршрут «прямой» отложен на 10 мин. Отправьте сообщение ещё раз."
    );
    assert_eq!(
        headline_with(&f, "Готово").detail,
        "Ошибка 400 — только что. Готово. Отправьте сообщение ещё раз."
    );
    assert_eq!(
        headline(&Facts {
            answered: None,
            ..f
        })
        .detail,
        "Ошибка 400 — только что. Обход её видит и перестраивается. Отправьте сообщение ещё раз."
    );
}

#[test]
fn an_answer_as_old_as_the_refusal_is_proof() {
    let f = Facts {
        refusal: Some((secs(20), 4)),
        answer: Some(secs(20)),
        route: Some(String::new()),
        ..working()
    };
    let h = headline(&f);
    assert_eq!(h.tone, Tone::Proven);
    assert_eq!(h.detail, "Модель ответила 20 секунд назад.");
}

#[test]
fn the_fixing_window_ends_after_ten_minutes_to_the_nanosecond() {
    let at = |s: u64, n: u32| Facts {
        refusal: Some((Span::new(s, n).unwrap(), 0)),
        ..working()
    };
    assert_eq!(situation(&at(600, 0)), Situation::Fixing);
    assert_eq!(situation(&at(600, 1)), Situation::NeedsCheck);
    assert_eq!(
        situation(&Facts {
            relay_reporting: false,
            ..working()
        }),
        Situation::Starting
    );
}

#[test]
fn every_card_is_worded_as_intended() {
    let h = headline(&working());
    assert_eq!(h.title, "Всё включено");
    assert_eq!(
        h.detail,
        "Напишите что-нибудь в чат Antigravity — здесь появится подтверждение, что модель ответила."
    );
    let h = headline(&Facts {
        relay_reporting: false,
        ..working()
    });
    assert_eq!(h.title, "Служба запускается");
    let h = headline(&Facts {
        relay_running: false,
        ..working()
    });
    assert_eq!(h.title, "Служба обхода не работает");
    let h = headline(&Facts {
        patch_on: false,
        ..working()
    });
    assert_eq!(
        h.detail,
        "Разблокировка входа выключена. Antigravity закроется на пару секунд."
    );
    let h = headline(&Facts {
        refusal: Some((secs(3600), 0)),
        ..working()
    });
    assert_eq!(
        h.detail,
        "Последний раз была ошибка 400 — 1 час назад, и после неё модель не отвечала. Напишите \
         что-нибудь в Antigravity: если ошибка повторится, обход её поймает и сам сменит путь."
    );
    let h = headline(&Facts {
        admin: false,
        bypass_on: false,
        ..working()
    });
    assert_eq!(h.title, "Нужны права администратора");
    assert_eq!(
        h.detail,
        "Без них обход ошибки 400 не установить и не починить. Разблокировка входа работает и так."
    );
}

#[test]
fn the_labels_of_the_buttons() {
    assert_eq!(Action::EnableAll.label(), "Включить всё");
    assert_eq!(
        Action::Elevate.label(),
        "Перезапустить от имени администратора"
    );
    assert_eq!(Action::Repair.label(), "Починить");
}

#[test]
fn only_the_first_character_is_capitalised() {
    assert_eq!(capitalise(""), "");
    assert_eq!(capitalise("abc d"), "Abc d");
    assert_eq!(capitalise("маршрут отложен"), "Маршрут отложен");
    assert_eq!(capitalise("ßa"), "SSa");
    assert_eq!(replace_head("Ж", "жук"), "Жук");
    assert_eq!(replace_head("Ж", ""), "");
    for b in 0u8..128 {
        let c = b as char;
        assert_eq!(
            capitalise(&c.to_string()),
            c.to_ascii_uppercase().to_string()
        );
    }
}
